use ftvf::{FakeNowSource, Metronome, MetronomeIterator, Mode, NowSource, Rate, Reading, TimePoint};

/// A reading reduced to what the original scheduler reported: phases as
/// `f32` ratios, idles as whole nanoseconds.
#[derive(Debug, Clone, Copy, PartialEq)]
enum Step {
    Tick,
    Frame(f32),
    Idle(u64),
    TimeWentBackwards,
    TicksLost,
}

fn drain<N: NowSource>(mut it: MetronomeIterator<N>) -> (Vec<Step>, Metronome<N>) {
    let mut v = Vec::new();
    while let Some(r) = it.next_reading() {
        v.push(match r {
            Reading::Tick => Step::Tick,
            Reading::Frame { phase } => {
                Step::Frame(phase.numerator as f32 / phase.denominator as f32)
            }
            Reading::Idle { duration } => Step::Idle(duration),
            Reading::TimeWentBackwards => Step::TimeWentBackwards,
            Reading::TicksLost => Step::TicksLost,
        });
    }
    let m = it.into_metronome();
    (v, m)
}

fn at(sec: u64, nsec: u64) -> TimePoint {
    TimePoint {
        nanos: sec * 1_000_000_000 + nsec,
    }
}

fn sample(
    m: Metronome<FakeNowSource>,
    mode: Mode,
    now: TimePoint,
    expected: &[Step],
) -> Metronome<FakeNowSource> {
    let (got, m) = drain(m.sample_at(mode, now));
    assert_eq!(&got[..], expected, "sampled at {:?} in {:?}", now, mode);
    m
}

#[test]
fn simple() {
    let idle_fifth_second: &[Step] = &[Step::Idle(200_000_000)];
    let mut m = Metronome::new(FakeNowSource::default(), Rate::per_second(5, 1), 10);
    m = sample(
        m,
        Mode::OneFramePerTick,
        at(0, 0),
        &[Step::Tick, Step::Frame(1.0)],
    );
    m = sample(m, Mode::OneFramePerTick, at(0, 0), idle_fifth_second);
    m = sample(
        m,
        Mode::UnlimitedFrames,
        at(1, 0),
        &[
            Step::Tick,
            Step::Tick,
            Step::Tick,
            Step::Tick,
            Step::Tick,
            Step::Frame(1.0),
        ],
    );
    m = sample(m, Mode::UnlimitedFrames, at(1, 0), &[]);
    m = sample(
        m,
        Mode::TickOnly,
        at(2, 0),
        &[Step::Tick, Step::Tick, Step::Tick, Step::Tick, Step::Tick],
    );
    m = sample(m, Mode::TickOnly, at(2, 0), idle_fifth_second);
    m = sample(
        m,
        Mode::UnlimitedFrames,
        at(2, 100000000),
        &[Step::Tick, Step::Frame(0.5)],
    );
    m = sample(m, Mode::UnlimitedFrames, at(2, 100000000), &[]);
    m = sample(
        m,
        Mode::UnlimitedFrames,
        at(2, 200000000),
        &[Step::Frame(1.0)],
    );
    let _ = sample(
        m,
        Mode::UnlimitedFrames,
        at(1, 0),
        &[Step::TimeWentBackwards, Step::Tick, Step::Frame(1.0)],
    );
}

#[test]
fn ntsc() {
    let mut m = Metronome::new(
        FakeNowSource::default(),
        Rate::per_second(60000, 1001),
        120,
    );
    m = sample(
        m,
        Mode::UnlimitedFrames,
        at(0, 0),
        &[Step::Tick, Step::Frame(1.0)],
    );
    let mut expected = vec![Step::Tick; 30];
    expected.push(Step::Frame(0.97002995)); // roughly 30.0 / 1.001 - 29.0
    let _ = sample(m, Mode::UnlimitedFrames, at(0, 500000000), &expected[..]);
}

#[test]
fn marathon() {
    let sixty_fps = Rate::per_second(60, 1);
    let mut m = Metronome::new(FakeNowSource::default(), Rate::per_second(30, 1), 94332);
    m = sample(
        m,
        Mode::TargetFramesPerSecond(sixty_fps),
        at(0, 0),
        &[Step::Tick, Step::Frame(1.0)],
    );
    m = sample(
        m,
        Mode::TargetFramesPerSecond(sixty_fps),
        at(0, 1000000000 * 2 / 60),
        &[Step::Tick, Step::Frame(1.0)],
    );
    m = sample(
        m,
        Mode::TargetFramesPerSecond(sixty_fps),
        at(0, 1000000000 * 3 / 60),
        &[Step::Tick, Step::Frame(0.50000006)],
    );
    let _ = sample(
        m,
        Mode::TargetFramesPerSecond(sixty_fps),
        at(0, 1000000000 * 4 / 60),
        &[Step::Frame(1.0)],
    );
}

#[test]
fn residual_tick() {
    let mut m = Metronome::new(FakeNowSource::default(), Rate::per_second(3, 1), 444);
    m = sample(
        m,
        Mode::OneFramePerTick,
        at(0, 0),
        &[Step::Tick, Step::Frame(1.0)],
    );
    m = sample(
        m,
        Mode::OneFramePerTick,
        at(0, 500000000),
        &[Step::Tick, Step::Frame(1.0)],
    );
    m = sample(
        m,
        Mode::OneFramePerTick,
        at(0, 500000000),
        &[Step::Idle(166666666)],
    );
    m = sample(
        m,
        Mode::OneFramePerTick,
        at(0, 750000000),
        &[Step::Tick, Step::Frame(1.0)],
    );
    let _ = sample(
        m,
        Mode::OneFramePerTick,
        at(0, 750000000),
        &[Step::Idle(250_000_000)],
    );
}

#[test]
fn idle_wait_is_exactly_enough() {
    // Sleeping exactly the idle the scheduler asked for always makes the
    // next sample open with work, never another idle.
    let mut m = Metronome::new(FakeNowSource::default(), Rate::per_second(5, 1), 10);
    m = sample(
        m,
        Mode::OneFramePerTick,
        at(0, 0),
        &[Step::Tick, Step::Frame(1.0)],
    );
    m = sample(
        m,
        Mode::OneFramePerTick,
        at(0, 0),
        &[Step::Idle(200_000_000)],
    );
    let _ = sample(
        m,
        Mode::OneFramePerTick,
        at(0, 200_000_000),
        &[Step::Tick, Step::Frame(1.0)],
    );
}

#[test]
fn catch_up_ceiling() {
    // Two ticks of budget, two seconds of lag: two ticks, then the loss is
    // reported and the schedule restarts from the next sample's epoch.
    let mut m = Metronome::new(FakeNowSource::default(), Rate::per_second(5, 1), 2);
    m = sample(m, Mode::TickOnly, at(0, 0), &[Step::Tick]);
    m = sample(
        m,
        Mode::TickOnly,
        at(2, 0),
        &[Step::Tick, Step::Tick, Step::TicksLost],
    );
    let _ = sample(m, Mode::TickOnly, at(2, 0), &[Step::Tick]);
}

#[test]
fn catch_up_ceiling_zero() {
    // A ceiling of zero never grants a tick at all: any pending tick is
    // immediately reported as lost.
    let m = Metronome::new(FakeNowSource::default(), Rate::per_second(5, 1), 0);
    let _ = sample(m, Mode::TickOnly, at(1, 0), &[Step::TicksLost]);
}

#[test]
fn tickrate_change() {
    let mut m = Metronome::new(FakeNowSource::default(), Rate::per_second(5, 1), 10);
    m = sample(
        m,
        Mode::OneFramePerTick,
        at(0, 0),
        &[Step::Tick, Step::Frame(1.0)],
    );
    m.set_tickrate(Rate::per_second(2, 1));
    m = sample(
        m,
        Mode::OneFramePerTick,
        at(1, 0),
        &[Step::Tick, Step::Tick, Step::Frame(1.0)],
    );
    let _ = sample(
        m,
        Mode::OneFramePerTick,
        at(1, 0),
        &[Step::Idle(500_000_000)],
    );
}

#[test]
fn sample_reads_the_clock() {
    // `sample` reads now from the source and behaves exactly like
    // `sample_at` at that instant.
    let mut source = FakeNowSource::default();
    source.advance(200_000_000);
    let m = Metronome::new(source, Rate::per_second(5, 1), 10);
    let (got, m) = drain(m.sample(Mode::OneFramePerTick));
    assert_eq!(&got[..], &[Step::Tick, Step::Frame(1.0)]);
    let (again, _) = drain(m.sample(Mode::OneFramePerTick));
    assert_eq!(&again[..], &[Step::Idle(200_000_000)]);
}

#[test]
fn target_fps_half_tickrate() {
    // Two frames per second against four ticks: a frame step lands on
    // every other tick boundary, intermediate frame steps are skipped when
    // the caller lags, and a repeated instant is never re-rendered.
    let four = Rate::per_second(4, 1);
    let two = Rate::per_second(2, 1);
    let mut m = Metronome::new(FakeNowSource::default(), four, 1000);
    m = sample(
        m,
        Mode::TargetFramesPerSecond(two),
        at(0, 0),
        &[Step::Tick, Step::Frame(1.0)],
    );
    m = sample(
        m,
        Mode::TargetFramesPerSecond(two),
        at(1, 0),
        &[
            Step::Tick,
            Step::Tick,
            Step::Tick,
            Step::Tick,
            Step::Frame(1.0),
        ],
    );
    m = sample(
        m,
        Mode::TargetFramesPerSecond(two),
        at(1, 250_000_000),
        &[Step::Tick],
    );
    let _ = sample(
        m,
        Mode::TargetFramesPerSecond(two),
        at(1, 500_000_000),
        &[Step::Tick, Step::Frame(1.0)],
    );
}

#[test]
fn partial_consumption_keeps_state() {
    // Abandoning a pass part way commits exactly the readings pulled: the
    // unconsumed ticks are still due at the next sample.
    let m = Metronome::new(FakeNowSource::default(), Rate::per_second(5, 1), 10);
    let m = sample(m, Mode::TickOnly, at(0, 0), &[Step::Tick]);
    let mut it = m.sample_at(Mode::TickOnly, at(1, 0));
    assert_eq!(it.next_reading(), Some(Reading::Tick));
    assert_eq!(it.next_reading(), Some(Reading::Tick));
    let m = it.into_metronome();
    let _ = sample(
        m,
        Mode::TickOnly,
        at(1, 0),
        &[Step::Tick, Step::Tick, Step::Tick],
    );
}

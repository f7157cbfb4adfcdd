use motif::clock::Clock;
use motif::tick::Tick;

fn clock() -> Clock {
    Clock::new(48000)
}

#[test]
fn tick_zero_is_sample_zero() {
    let c = clock();

    assert_eq!(c.tick_to_sample(Tick::zero(), 120), 0);
}

#[test]
fn one_beat_at_120bpm() {
    let c = clock();

    // 120 BPM = 2 beats/sec -> 1 beat = 0.5 s -> 24000 samples at 48 kHz.
    assert_eq!(c.tick_to_sample(Tick::from_quarters(1), 120), 24000);
}

#[test]
fn two_beats_at_120bpm() {
    let c = clock();

    assert_eq!(c.tick_to_sample(Tick::from_quarters(2), 120), 48000);
}

#[test]
fn round_trip_on_grid_ticks() {
    let c = clock();

    for &ticks in &[0, 480, 960, 1920] {
        let tick = Tick::from_raw(ticks);
        let sample = c.tick_to_sample(tick, 120);
        let back = c.sample_to_tick(sample, 120);

        assert_eq!(back, tick, "round-trip failed for tick {ticks}");
    }
}

#[test]
fn round_trip_high_bpm() {
    let c = clock();

    for &ticks in &[0, 480, 960, 1920] {
        let tick = Tick::from_raw(ticks);
        let sample = c.tick_to_sample(tick, 300);
        let back = c.sample_to_tick(sample, 300);

        assert_eq!(back, tick, "round-trip failed at 300 BPM for tick {ticks}");
    }
}

#[test]
fn round_trip_low_bpm() {
    let c = clock();

    for &ticks in &[0, 480, 960, 1920] {
        let tick = Tick::from_raw(ticks);
        let sample = c.tick_to_sample(tick, 40);
        let back = c.sample_to_tick(sample, 40);

        assert_eq!(back, tick, "round-trip failed at 40 BPM for tick {ticks}");
    }
}

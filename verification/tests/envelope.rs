//! ADSR state-machine scenarios. Levels are fixed-point millionths;
//! times are microseconds. At 48 kHz with a 10 ms attack the per-sample
//! step is 1e12 / (10_000 * 48_000) = 2083 millionths.

use motif::envelope::Envelope;

const SAMPLE_RATE: u32 = 48000;

fn configured() -> Envelope {
    let mut env = Envelope::new();
    // 10 ms attack, 100 ms decay, 0.7 sustain, 150 ms release.
    env.adsr(10_000, 100_000, 700_000, 150_000);
    env
}

#[test]
fn idle_envelope_stays_at_zero() {
    let mut env = Envelope::new();
    assert!(env.is_idle());
    assert_eq!(env.tick(SAMPLE_RATE), 0);
    assert!(env.is_idle());
}

#[test]
fn attack_reaches_full_scale_then_decays() {
    let mut env = configured();
    env.trigger();
    assert!(!env.is_idle());

    let mut ticks: u32 = 0;
    let mut level: i64 = 0;
    while level < 1_000_000 {
        level = env.tick(SAMPLE_RATE);
        ticks += 1;
        assert!(ticks < 1_000, "attack never reached full scale");
    }

    // ceil(1_000_000 / 2083) samples: proportional to the 10 ms attack.
    assert_eq!(ticks, 481);
    assert_eq!(level, 1_000_000);
    // The next tick moves the level below full scale: decay has begun.
    assert!(env.tick(SAMPLE_RATE) < 1_000_000);
    assert!(!env.is_releasing());
}

#[test]
fn release_mid_decay_ramps_to_exact_zero() {
    let mut env = configured();
    env.trigger();

    // Finish the attack, then decay for a while.
    for _ in 0..481 {
        env.tick(SAMPLE_RATE);
    }
    let mut level: i64 = 0;
    for _ in 0..100 {
        level = env.tick(SAMPLE_RATE);
    }
    assert!(level < 1_000_000 && level > 700_000);

    // Release captures the in-progress level and ramps to exactly zero
    // in a sample count proportional to the 150 ms release time.
    env.release();
    assert!(env.is_releasing());

    let mut ticks: u32 = 0;
    while !env.is_idle() {
        level = env.tick(SAMPLE_RATE);
        ticks += 1;
        assert!(ticks < 10_000, "release never finished");
    }
    assert_eq!(level, 0);
    assert!(ticks > 7_000 && ticks < 7_400, "release took {ticks} samples");
}

#[test]
fn sustain_holds_until_release() {
    let mut env = configured();
    env.trigger();
    // Run well past attack (481) and decay (at 62 per sample, < 4_900).
    let mut level: i64 = 0;
    for _ in 0..6_000 {
        level = env.tick(SAMPLE_RATE);
    }
    assert_eq!(level, 700_000);
    assert_eq!(env.tick(SAMPLE_RATE), 700_000);
}

#[test]
fn instant_attack_jumps_to_full_scale() {
    let mut env = Envelope::new();
    env.adsr(0, 100_000, 700_000, 150_000);
    env.trigger();
    assert_eq!(env.tick(SAMPLE_RATE), 1_000_000);
}

#[test]
fn reset_forces_idle() {
    let mut env = configured();
    env.trigger();
    env.tick(SAMPLE_RATE);
    env.reset();
    assert!(env.is_idle());
    assert_eq!(env.tick(SAMPLE_RATE), 0);
}

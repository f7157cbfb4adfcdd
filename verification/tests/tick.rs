use motif::tick::Tick;

#[test]
fn zero_is_zero() {
    assert_eq!(Tick::zero(), Tick(0));
}

#[test]
fn from_quarters() {
    assert_eq!(Tick::from_quarters(1), Tick(480));
    assert_eq!(Tick::from_quarters(0), Tick::zero());
}

#[test]
fn from_beats() {
    assert_eq!(Tick::from_beats(1, 1), Tick(1920));
    assert_eq!(Tick::from_beats(1, 3), Tick(640));
    assert_eq!(Tick::from_beats(1, 4), Tick(480));
    assert_eq!(Tick::from_beats(1, 8), Tick(240));
    assert_eq!(Tick::from_beats(1, 16), Tick(120));
    assert_eq!(Tick::from_beats(1, 32), Tick(60));
}

#[test]
fn snap_to_grid() {
    assert_eq!(Tick(0).snap_to_grid(120), Tick(0));
    assert_eq!(Tick(50).snap_to_grid(120), Tick(0));
    assert_eq!(Tick(60).snap_to_grid(120), Tick(120));
    assert_eq!(Tick(80).snap_to_grid(120), Tick(120));
    assert_eq!(Tick(130).snap_to_grid(120), Tick(120));
    assert_eq!(Tick(500).snap_to_grid(160), Tick(480));
}

#[test]
fn arithmetic() {
    assert_eq!(Tick(480) + Tick(240), Tick(720));
    assert_eq!(Tick(480) - Tick(240), Tick(240));

    let mut tick = Tick(480);
    tick = tick + Tick(240);
    assert_eq!(tick, Tick(720));

    let mut tick = Tick(480);
    tick = tick - Tick(240);
    assert_eq!(tick, Tick(240));

    assert_eq!(Tick(200).saturating_sub(Tick(100)), Tick(100));
    assert_eq!(Tick(100).saturating_sub(Tick(200)), Tick::zero());
}

#[test]
fn ordering() {
    assert!(Tick(0) < Tick(1));
    assert!(Tick(480) == Tick(480));
}

#[test]
fn raw_round_trip() {
    assert_eq!(Tick::from_raw(777).ticks(), 777);
}

use backlight_console::dimmer::{next_lower, plan, pulses, Dimmer, DimmerError, PinStep};

fn pulse_count(steps: &[PinStep]) -> usize {
    steps
        .windows(2)
        .filter(|w| w[0] == PinStep::Low && w[1] == PinStep::High)
        .count()
}

#[test]
fn pulses_follow_the_ring() {
    assert_eq!(pulses(16, 13), 3);
    assert_eq!(pulses(13, 15), 14);
    assert_eq!(pulses(0, 5), 11);
    assert_eq!(pulses(16, 16), 0);
    assert_eq!(pulses(1, 16), 1);
    for a in 0..=16u8 {
        for b in 1..=16u8 {
            assert_eq!(pulses(a, b) as i32, (a as i32 - b as i32).rem_euclid(16));
        }
    }
}

#[test]
fn plan_to_nonzero_level() {
    let steps = plan(16, 13);
    assert_eq!(pulse_count(&steps), 3);
    assert_eq!(steps[0], PinStep::High);
    assert_eq!(steps[1], PinStep::WaitUs(30));
    assert_eq!(steps[2..5], [PinStep::Low, PinStep::High, PinStep::WaitUs(30)]);
    assert_eq!(steps.len(), 2 + 3 * 3 + 1);
    assert_eq!(*steps.last().unwrap(), PinStep::WaitMs(3));
}

#[test]
fn plan_to_same_level_has_no_pulse() {
    let steps = plan(7, 7);
    assert_eq!(steps, vec![PinStep::High, PinStep::WaitUs(30), PinStep::WaitMs(3)]);
}

#[test]
fn switching_off_is_one_settle_delay() {
    for a in 0..=16u8 {
        let mut d = Dimmer::new(a);
        let steps = d.begin(0).unwrap();
        assert_eq!(steps, vec![PinStep::Low, PinStep::WaitMs(3)]);
        assert_eq!(pulse_count(&steps), 0);
        assert_eq!(d.finish(true), Ok(()));
        assert_eq!(d.level(), 0);
    }
}

#[test]
fn set_level_records_target() {
    for a in 0..=16u8 {
        for b in 1..=16u8 {
            let mut d = Dimmer::new(a);
            let steps = d.begin(b).unwrap();
            assert_eq!(pulse_count(&steps) as i32, (a as i32 - b as i32).rem_euclid(16));
            assert_eq!(d.level(), a);
            d.finish(true).unwrap();
            assert_eq!(d.level(), b);
        }
    }
}

#[test]
fn sixteen_steps_down_close_the_ring() {
    for start in 1..=16u8 {
        let mut d = Dimmer::new(start);
        for _ in 0..16 {
            let target = next_lower(d.level());
            let steps = d.begin(target).unwrap();
            assert_eq!(pulse_count(&steps), 1);
            d.finish(true).unwrap();
        }
        assert_eq!(d.level(), start);
    }
}

#[test]
fn next_lower_wraps_to_top() {
    assert_eq!(next_lower(16), 15);
    assert_eq!(next_lower(2), 1);
    assert_eq!(next_lower(1), 16);
    assert_eq!(next_lower(0), 16);
}

#[test]
fn out_of_range_level_is_refused() {
    let mut d = Dimmer::new(16);
    assert_eq!(d.begin(17), Err(DimmerError::InvalidLevel));
    assert!(!d.is_busy());
    assert_eq!(d.level(), 16);
}

#[test]
fn second_change_in_flight_is_refused() {
    let mut d = Dimmer::new(16);
    assert!(d.begin(10).is_ok());
    assert!(d.is_busy());
    assert_eq!(d.begin(5), Err(DimmerError::Busy));
    d.finish(true).unwrap();
    assert_eq!(d.level(), 10);
}

#[test]
fn failed_change_keeps_level() {
    let mut d = Dimmer::new(12);
    d.begin(3).unwrap();
    assert_eq!(d.finish(false), Ok(()));
    assert_eq!(d.level(), 12);
    assert!(!d.is_busy());
}

#[test]
fn finish_without_change_is_refused() {
    let mut d = Dimmer::new(4);
    assert_eq!(d.finish(true), Err(DimmerError::Idle));
    assert_eq!(d.level(), 4);
}

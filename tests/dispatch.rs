use backlight_console::console::{DrawOp, EditCommand};
use backlight_console::dimmer::PinStep;
use backlight_console::dispatch::{decode, Dispatcher, Mode, Reaction};

#[test]
fn decode_bytes() {
    assert_eq!(decode(0), None);
    assert_eq!(decode(0x08), Some(EditCommand::Backspace));
    assert_eq!(decode(0x0D), Some(EditCommand::NewLine));
    assert_eq!(decode(b'a'), Some(EditCommand::AppendChar('a')));
    assert_eq!(decode(0xE9), Some(EditCommand::AppendChar('\u{e9}')));
}

#[test]
fn zero_byte_changes_nothing() {
    for mode in [Mode::Console, Mode::BrightnessSweep, Mode::PassThrough] {
        let mut d = Dispatcher::new(mode, 16);
        assert!(matches!(d.on_poll(Some(0)), Ok(Reaction::Idle)));
        assert!(matches!(d.on_poll(None), Ok(Reaction::Idle)));
        assert_eq!(d.console.cursor(), (30, 30));
        assert!(d.console.text().is_empty());
        assert_eq!(d.dimmer.level(), 16);
        assert!(!d.dimmer.is_busy());
    }
}

#[test]
fn console_mode_edits() {
    let mut d = Dispatcher::new(Mode::Console, 16);
    match d.on_poll(Some(b'H')) {
        Ok(Reaction::Draw(ops)) => {
            assert_eq!(ops[1], DrawOp::DrawGlyph { c: 'H', x: 30, y: 30 })
        }
        other => panic!("unexpected {:?}", other),
    }
    assert!(matches!(d.on_poll(Some(0x0D)), Ok(Reaction::Draw(_))));
    assert_eq!(d.console.cursor(), (30, 50));
    assert!(matches!(d.on_poll(Some(0x08)), Ok(Reaction::Draw(_))));
    assert_eq!(d.console.cursor(), (40, 30));
    assert_eq!(d.dimmer.level(), 16);
}

#[test]
fn sweep_mode_steps_backlight_down() {
    let mut d = Dispatcher::new(Mode::BrightnessSweep, 16);
    match d.on_poll(Some(b' ')) {
        Ok(Reaction::Dim(steps)) => {
            assert_eq!(
                steps,
                vec![
                    PinStep::High,
                    PinStep::WaitUs(30),
                    PinStep::Low,
                    PinStep::High,
                    PinStep::WaitUs(30),
                    PinStep::WaitMs(3),
                ]
            );
        }
        other => panic!("unexpected {:?}", other),
    }
    assert!(d.on_poll(Some(b' ')).is_err());
    d.dimmer.finish(true).unwrap();
    assert_eq!(d.dimmer.level(), 15);
    assert!(d.console.text().is_empty());
}

#[test]
fn pass_through_echoes() {
    let mut d = Dispatcher::new(Mode::PassThrough, 16);
    assert!(matches!(d.on_poll(Some(0x41)), Ok(Reaction::Echo(0x41))));
    assert!(d.console.text().is_empty());
}

//! The input dispatcher: decodes keyboard bytes and routes them to the
//! console or, in the brightness sweep mode, to the dimmer.
//!
//! The firmware's loop polls the keyboard, hands what it read to `on_poll`,
//! carries out the reaction on the surface or the backlight line, and sleeps
//! for the poll interval.
use crate::console::{edit_ops, edit_text, fits, Console, ConsoleError, DrawOp, EditCommand};
use crate::dimmer::{
    begin_error,
    begin_state,
    next_lower,
    next_lower_spec,
    plan_spec,
    Dimmer,
    DimmerError,
    PinStep,
    MAX_LEVEL,
};
use vstd::prelude::*;

verus! {

/// How long to wait for a byte from the keyboard, in the bus's ticks.
pub const POLL_TIMEOUT: u32 = 100000;

/// Pause between two polls, in milliseconds.
pub const POLL_INTERVAL_MS: u32 = 100;

/// The byte that means "no key pressed".
pub const NO_KEY: u8 = 0;

pub const BACKSPACE_BYTE: u8 = 0x08;

pub const RETURN_BYTE: u8 = 0x0D;

/// The edit that a byte from the keyboard stands for; none for the "no key"
/// byte.
pub open spec fn decode_spec(byte: u8) -> Option<EditCommand> {
    if byte == NO_KEY {
        None
    } else if byte == BACKSPACE_BYTE {
        Some(EditCommand::Backspace)
    } else if byte == RETURN_BYTE {
        Some(EditCommand::NewLine)
    } else {
        Some(EditCommand::AppendChar(byte as char))
    }
}

/// Whether a poll delivered a key.
pub open spec fn is_key(polled: Option<u8>) -> bool {
    match polled {
        Some(b) => b != NO_KEY,
        None => false,
    }
}

/// Decodes one byte from the keyboard.
pub fn decode(byte: u8) -> (r: Option<EditCommand>)
    ensures
        r == decode_spec(byte),
{
    if byte == NO_KEY {
        None
    } else if byte == BACKSPACE_BYTE {
        Some(EditCommand::Backspace)
    } else if byte == RETURN_BYTE {
        Some(EditCommand::NewLine)
    } else {
        Some(EditCommand::AppendChar(byte as char))
    }
}

/// What keys do.
#[derive(Clone, Copy, Debug, PartialEq, Eq, Structural)]
pub enum Mode {
    /// Keys edit the console.
    Console,
    /// Each key moves the backlight one step down the ring.
    BrightnessSweep,
    /// Keys are only reported back.
    PassThrough,
}

/// What the firmware has to do after a poll.
#[derive(Debug)]
pub enum Reaction {
    /// Nothing: no key was pressed.
    Idle,
    /// Perform these operations on the surface.
    Draw(Vec<DrawOp>),
    /// Perform these steps on the backlight line, then report to the dimmer's
    /// `finish` whether they all succeeded.
    Dim(Vec<PinStep>),
    /// Report this byte.
    Echo(u8),
}

/// Why a key could not be handled.
#[derive(Clone, Copy, Debug, PartialEq, Eq, Structural)]
pub enum DispatchError {
    Console(ConsoleError),
    Dimmer(DimmerError),
}

/// The console and the dimmer, and the mode that routes keys between them.
pub struct Dispatcher {
    pub console: Console,
    pub dimmer: Dimmer,
    pub mode: Mode,
}

impl Dispatcher {
    pub open spec fn wf(&self) -> bool {
        self.console.wf() && self.dimmer.wf()
    }

    /// An empty console, and a dimmer that assumes the backlight stands at
    /// `initial_level`.
    pub fn new(mode: Mode, initial_level: u8) -> (r: Dispatcher)
        requires
            initial_level <= MAX_LEVEL,
        ensures
            r.wf(),
            r.mode == mode,
            r.console@ == Seq::<char>::empty(),
            r.dimmer@.level == initial_level as int,
            r.dimmer@.pending is None,
    {
        Dispatcher { console: Console::new(), dimmer: Dimmer::new(initial_level), mode }
    }

    /// Handles the outcome of one poll of the keyboard: `None` when nothing
    /// came before the timeout.
    ///
    /// Without a key nothing changes. In console mode the key's edit is
    /// applied to the console; in sweep mode the dimmer starts a change to the
    /// next level down; in pass-through mode the byte is handed back.
    pub fn on_poll(&mut self, polled: Option<u8>) -> (r: Result<Reaction, DispatchError>)
        requires
            old(self).wf(),
        ensures
            final(self).wf(),
            final(self).mode == old(self).mode,
            !is_key(polled) ==> r matches Ok(Reaction::Idle),
            !is_key(polled) || old(self).mode != Mode::Console ==> final(self).console@ == old(
                self,
            ).console@,
            !is_key(polled) || old(self).mode != Mode::BrightnessSweep ==> final(self).dimmer@
                == old(self).dimmer@,
            is_key(polled) ==> match old(self).mode {
                Mode::Console => {
                    let e = decode_spec(polled.unwrap()).unwrap();
                    let s = old(self).console@;
                    match r {
                        Ok(Reaction::Draw(ops)) => fits(edit_text(s, e)) && final(self).console@
                            == edit_text(s, e) && ops@ == edit_ops(s, e),
                        Err(DispatchError::Console(ConsoleError::NoRoom)) => !fits(
                            edit_text(s, e),
                        ) && final(self).console@ == s,
                        _ => false,
                    }
                },
                Mode::BrightnessSweep => {
                    let d = old(self).dimmer@;
                    let t = next_lower_spec(d.level);
                    &&& final(self).dimmer@ == begin_state(d, t)
                    &&& match r {
                        Ok(Reaction::Dim(steps)) => begin_error(d, t) is None && steps@
                            == plan_spec(d.level, t),
                        Err(DispatchError::Dimmer(e)) => begin_error(d, t) == Some(e),
                        _ => false,
                    }
                },
                Mode::PassThrough => r matches Ok(Reaction::Echo(b)) && polled == Some(b),
            },
    {
        let byte = match polled {
            Some(b) => b,
            None => return Ok(Reaction::Idle),
        };
        let edit = match decode(byte) {
            Some(e) => e,
            None => return Ok(Reaction::Idle),
        };
        match self.mode {
            Mode::Console => match self.console.apply(edit) {
                Ok(ops) => Ok(Reaction::Draw(ops)),
                Err(e) => Err(DispatchError::Console(e)),
            },
            Mode::BrightnessSweep => {
                let target = next_lower(self.dimmer.level());
                match self.dimmer.begin(target) {
                    Ok(steps) => Ok(Reaction::Dim(steps)),
                    Err(e) => Err(DispatchError::Dimmer(e)),
                }
            },
            Mode::PassThrough => Ok(Reaction::Echo(byte)),
        }
    }
}

} // verus!

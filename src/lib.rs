//! A backlight dimmer driven by a decrement-only pulse protocol, a text console
//! that turns edits into draw operations on a live surface, and the dispatcher
//! that decodes keyboard bytes into edits.
//!
//! Nothing here touches hardware: every component decides what to do and hands
//! back the pin steps or draw operations that the firmware then performs.
use vstd::prelude::*;

pub mod console;
pub mod dimmer;
pub mod dispatch;

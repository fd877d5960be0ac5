//! Drivers for the peripherals of a Nucleo-L476RG audio board: a PCM5122
//! DAC on the I2C bus and a status LED.
//!
//! Every operation is a script of device commands, run by a
//! [`session::Session`] that hands out one command at a time and stops at the
//! first one that fails; the caller does the device work itself.
pub mod pcm5122;
pub mod session;

use crate::session::{Session, SessionModel};
use vstd::prelude::*;

verus! {

/// One step of work on an output pin.
#[derive(Clone, Copy, Debug, PartialEq, Eq)]
pub enum PinCommand {
    /// Drive the pin high.
    High,
    /// Drive the pin low.
    Low,
    /// Wait this many milliseconds.
    Pause(u32),
}

/// Flaring the LED: high, low, high, low, with a pause of 1 ms after each
/// change.
pub open spec fn flare_script() -> Seq<PinCommand> {
    seq![
        PinCommand::High,
        PinCommand::Pause(1),
        PinCommand::Low,
        PinCommand::Pause(1),
        PinCommand::High,
        PinCommand::Pause(1),
        PinCommand::Low,
        PinCommand::Pause(1),
    ]
}

/// Flashes the LED twice, briefly, leaving it low.
pub fn flare_led<E>() -> (s: Session<PinCommand, E>)
    ensures
        s@ == SessionModel::<PinCommand, E>::fresh(flare_script()),
{
    let mut script: Vec<PinCommand> = Vec::new();
    let mut i: usize = 0;
    while i < 2
        invariant
            i <= 2,
            script@ == flare_script().take(4 * i as int),
        decreases 2 - i,
    {
        script.push(PinCommand::High);
        script.push(PinCommand::Pause(1));
        script.push(PinCommand::Low);
        script.push(PinCommand::Pause(1));
        assert(script@ =~= flare_script().take(4 * (i + 1) as int));
        i = i + 1;
    }
    assert(script@ =~= flare_script());
    Session::new(script)
}

/// Every pin change of the flare is followed by a pause of 1 ms, the
/// changes alternate high and low, starting high, and the last one leaves
/// the LED low.
pub proof fn lemma_flare_alternates_and_ends_low()
    ensures
        flare_script().len() == 8,
        forall|i: int|
            0 <= i < 4 ==> #[trigger] flare_script()[2 * i] == (if i % 2 == 0 {
                PinCommand::High
            } else {
                PinCommand::Low
            }) && flare_script()[2 * i + 1] == PinCommand::Pause(1),
        flare_script().last() == PinCommand::Pause(1),
        flare_script()[6] == PinCommand::Low,
{
    assert forall|i: int| 0 <= i < 4 implies #[trigger] flare_script()[2 * i] == (if i % 2 == 0 {
        PinCommand::High
    } else {
        PinCommand::Low
    }) && flare_script()[2 * i + 1] == PinCommand::Pause(1) by {
        if i == 0 {
        } else if i == 1 {
        } else if i == 2 {
        } else {
        }
    }
}

} // verus!

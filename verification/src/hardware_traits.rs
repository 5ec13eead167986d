use vstd::prelude::*;

verus! {

/// Whether an output (a LED, the modem's transmit enable) is switched on or off.
#[derive(Copy, Clone, PartialEq, Eq, Debug, Structural)]
pub enum PowerState {
    On,
    Off,
}

/// Switches the system status LED.
pub trait LedControl {
    fn set_system(&mut self, state: PowerState);
}

/// Switches the RS-485 modem between transmitting (`On`) and receiving (`Off`).
pub trait ModemControlInterface {
    fn set_enable(&mut self, state: PowerState);
}

} // verus!

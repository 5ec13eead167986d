use vstd::prelude::*;

verus! {

/// The Modbus slave address this meter answers to.
pub const MODBUS_SLAVE_ADDR: u8 = 1;

} // verus!

use vstd::prelude::*;

verus! {

/// Why receiving a Modbus frame on the UART failed.
#[derive(Clone, Copy, Debug, PartialEq, Eq, Structural)]
pub enum ModbusRxError {
    Framing,
    Noise,
    Overrun,
    Parity,
    BufferTooLong,
    Other,
}

} // verus!

//! Measurement storage and a Modbus RTU "read input registers" responder
//! for a four-channel current and voltage meter.

pub mod adc_converter;
pub mod constants;
pub mod hardware_traits;
pub mod modbus;
pub mod modem;
pub mod responder;

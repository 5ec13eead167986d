use vstd::prelude::*;

use crate::adc_converter::StoredValues;
use crate::modbus::{
    byte_or, crc_mismatch_report, handle_outcome, handle_request, quantity_field,
    spec_crc_mismatch_report, start_address_field, CrcMismatchReport, RequestError,
    parse_quantity, parse_start_address,
};
use crate::modem::ModbusRxError;

verus! {

/// Slave, function, start address and quantity of a refused request, as they are logged.
#[derive(Copy, Clone, Debug, PartialEq, Eq, Structural)]
pub struct RequestSummary {
    pub slave: u8,
    pub function: u8,
    pub start_address: u16,
    pub quantity: u16,
}

/// What the Modbus task does after one attempt to receive a frame.
#[derive(Copy, Clone, Debug, PartialEq, Eq, Structural)]
pub enum ModbusAction {
    /// Nothing was received: listen again.
    Listen,
    /// Receiving failed: report the error and listen again.
    ReportRxError(ModbusRxError),
    /// Switch the modem to transmit, send this many bytes of the transmit buffer,
    /// and switch back to receive.
    Transmit(usize),
    /// The frame needs no reply.
    StaySilent,
    /// The frame of this length was too short to be a request.
    ReportFrameTooShort(usize),
    /// The frame's CRC did not match.
    ReportCrcMismatch(CrcMismatchReport),
    /// The request named an unsupported function (slave and function bytes).
    ReportIllegalFunction(u8, u8),
    /// The request named a register that does not exist.
    ReportIllegalDataAddress(RequestSummary),
    /// The request asked for an unsupported quantity of registers.
    ReportIllegalDataValue(RequestSummary),
    /// The transmit buffer could not hold the reply.
    ReportResponseBufferTooSmall,
}

/// The logged summary of a refused request: slave and function come from the start of
/// the receive buffer, start address and quantity from the received frame.
pub open spec fn spec_request_summary(rx_buf: Seq<u8>, frame: Seq<u8>) -> RequestSummary {
    RequestSummary {
        slave: byte_or(rx_buf, 0, 0),
        function: byte_or(rx_buf, 1, 0),
        start_address: start_address_field(frame),
        quantity: quantity_field(frame),
    }
}

/// The action for the outcome of handling a received frame.
pub open spec fn action_for(
    result: Result<Option<usize>, RequestError>,
    rx_buf: Seq<u8>,
    frame: Seq<u8>,
) -> ModbusAction {
    match result {
        Ok(Some(len)) => ModbusAction::Transmit(len),
        Ok(None) => ModbusAction::StaySilent,
        Err(RequestError::FrameTooShort) => ModbusAction::ReportFrameTooShort(frame.len() as usize),
        Err(RequestError::CrcMismatch) => ModbusAction::ReportCrcMismatch(
            spec_crc_mismatch_report(frame),
        ),
        Err(RequestError::IllegalFunction) => ModbusAction::ReportIllegalFunction(
            byte_or(rx_buf, 0, 0),
            byte_or(rx_buf, 1, 0),
        ),
        Err(RequestError::IllegalDataAddress) => ModbusAction::ReportIllegalDataAddress(
            spec_request_summary(rx_buf, frame),
        ),
        Err(RequestError::IllegalDataValue) => ModbusAction::ReportIllegalDataValue(
            spec_request_summary(rx_buf, frame),
        ),
        Err(RequestError::ResponseBufferTooSmall) => ModbusAction::ReportResponseBufferTooSmall,
        Err(RequestError::NotForThisSlave) => ModbusAction::StaySilent,
    }
}

/// The action after one receive attempt, and what the transmit buffer holds afterwards:
/// a received frame (the first `len` bytes of the receive buffer) is answered from the
/// stored readings.
pub open spec fn spec_modbus_step(
    received: Result<usize, ModbusRxError>,
    rx_buf: Seq<u8>,
    slave_address: u8,
    store: StoredValues,
    tx_buf: Seq<u8>,
) -> (ModbusAction, Seq<u8>) {
    match received {
        Err(error) => (ModbusAction::ReportRxError(error), tx_buf),
        Ok(len) => if len == 0 {
            (ModbusAction::Listen, tx_buf)
        } else {
            let frame = rx_buf.take(len as int);
            let (result, out) = handle_outcome(frame, slave_address, store@, tx_buf);
            (action_for(result, rx_buf, frame), out)
        },
    }
}

/// Decides what the Modbus task does with the result of one receive attempt into
/// `rx_buf`, writing any reply into `tx_buf`.
pub fn modbus_task_step(
    received: Result<usize, ModbusRxError>,
    rx_buf: &[u8],
    slave_address: u8,
    store: &StoredValues,
    tx_buf: &mut [u8],
) -> (action: ModbusAction)
    requires
        received matches Ok(len) ==> len <= rx_buf@.len(),
    ensures
        (action, final(tx_buf)@) == spec_modbus_step(
            received,
            rx_buf@,
            slave_address,
            *store,
            old(tx_buf)@,
        ),
{
    let bytes_read = match received {
        Ok(size) => {
            if size == 0 {
                return ModbusAction::Listen;
            }
            size
        },
        Err(error) => {
            return ModbusAction::ReportRxError(error);
        },
    };
    let frame = vstd::slice::slice_subrange(rx_buf, 0, bytes_read);
    let snapshot = store.snapshot();
    let slave = if rx_buf.len() > 0 {
        rx_buf[0]
    } else {
        0
    };
    let function = if rx_buf.len() > 1 {
        rx_buf[1]
    } else {
        0
    };
    match handle_request(frame, slave_address, &snapshot, tx_buf) {
        Ok(Some(response_len)) => ModbusAction::Transmit(response_len),
        Ok(None) => ModbusAction::StaySilent,
        Err(RequestError::FrameTooShort) => ModbusAction::ReportFrameTooShort(bytes_read),
        Err(RequestError::CrcMismatch) => ModbusAction::ReportCrcMismatch(
            crc_mismatch_report(frame),
        ),
        Err(RequestError::IllegalFunction) => ModbusAction::ReportIllegalFunction(slave, function),
        Err(RequestError::IllegalDataAddress) => ModbusAction::ReportIllegalDataAddress(
            RequestSummary {
                slave,
                function,
                start_address: parse_start_address(frame),
                quantity: parse_quantity(frame),
            },
        ),
        Err(RequestError::IllegalDataValue) => ModbusAction::ReportIllegalDataValue(
            RequestSummary {
                slave,
                function,
                start_address: parse_start_address(frame),
                quantity: parse_quantity(frame),
            },
        ),
        Err(RequestError::ResponseBufferTooSmall) => ModbusAction::ReportResponseBufferTooSmall,
        Err(RequestError::NotForThisSlave) => ModbusAction::StaySilent,
    }
}

} // verus!

use vstd::prelude::*;

use crate::adc_converter::MeasurementSnapshot;

verus! {

/// Modbus function code "read input registers".
pub const READ_INPUT_REGISTERS: u8 = 0x04;
/// Bit set in the function code of an exception reply.
pub const EXCEPTION_OFFSET: u8 = 0x80;
/// Exception code: the function is not supported.
pub const ILLEGAL_FUNCTION: u8 = 0x01;
/// Exception code: a requested register does not exist.
pub const ILLEGAL_DATA_ADDRESS: u8 = 0x02;
/// Exception code: the requested quantity is out of range.
pub const ILLEGAL_DATA_VALUE: u8 = 0x03;
/// The largest number of registers one request may read.
pub const MAX_READ_REGISTERS: u16 = 125;
/// Length of a read input registers request frame.
const REQUEST_LEN: usize = 8;

/// A decoded "read input registers" request.
#[derive(Copy, Clone, Debug, PartialEq, Eq, Structural)]
pub struct ReadInputRegistersRequest {
    pub slave: u8,
    pub start_address: u16,
    pub quantity: u16,
}

/// Why a request frame could not be answered with register values.
#[derive(Copy, Clone, Debug, PartialEq, Eq, Structural)]
pub enum RequestError {
    FrameTooShort,
    CrcMismatch,
    NotForThisSlave,
    IllegalFunction,
    IllegalDataAddress,
    IllegalDataValue,
    ResponseBufferTooSmall,
}

/// The Modbus exception code that reports an error to the master, if any.
pub open spec fn spec_exception_code(error: RequestError) -> Option<u8> {
    match error {
        RequestError::IllegalFunction => Some(ILLEGAL_FUNCTION),
        RequestError::IllegalDataAddress => Some(ILLEGAL_DATA_ADDRESS),
        RequestError::IllegalDataValue => Some(ILLEGAL_DATA_VALUE),
        _ => None,
    }
}

impl RequestError {
    /// The exception code sent back to the master for this error; `None` for the
    /// errors that are answered with silence.
    pub fn exception_code(self) -> (code: Option<u8>)
        ensures
            code == spec_exception_code(self),
    {
        match self {
            RequestError::IllegalFunction => Some(ILLEGAL_FUNCTION),
            RequestError::IllegalDataAddress => Some(ILLEGAL_DATA_ADDRESS),
            RequestError::IllegalDataValue => Some(ILLEGAL_DATA_VALUE),
            _ => None,
        }
    }
}

/// One step of the reflected CRC-16/MODBUS shift register (polynomial 0xA001).
pub open spec fn crc_shift(crc: u16) -> u16 {
    if crc & 1u16 != 0u16 {
        (crc >> 1u16) ^ 0xA001u16
    } else {
        crc >> 1u16
    }
}

/// The register after `n` shift steps.
pub open spec fn crc_shifts(crc: u16, n: nat) -> u16
    decreases n,
{
    if n == 0 {
        crc
    } else {
        crc_shift(crc_shifts(crc, (n - 1) as nat))
    }
}

/// The register after feeding one byte.
pub open spec fn crc_feed(crc: u16, byte: u8) -> u16 {
    crc_shifts(crc ^ (byte as u16), 8)
}

/// CRC-16/MODBUS of a byte sequence: initial value 0xFFFF, reflected polynomial 0xA001,
/// no final xor.
pub open spec fn spec_crc16(data: Seq<u8>) -> u16
    decreases data.len(),
{
    if data.len() == 0 {
        0xFFFFu16
    } else {
        crc_feed(spec_crc16(data.drop_last()), data.last())
    }
}

/// Computes the Modbus RTU CRC-16 of `data`.
pub fn crc16(data: &[u8]) -> (crc: u16)
    ensures
        crc == spec_crc16(data@),
{
    let mut crc: u16 = 0xFFFF;
    let mut i: usize = 0;
    while i < data.len()
        invariant
            i <= data@.len(),
            crc == spec_crc16(data@.take(i as int)),
        decreases data@.len() - i,
    {
        let byte: u8 = data[i];
        assert(data@.take(i + 1).drop_last() =~= data@.take(i as int));
        crc = crc ^ (byte as u16);
        let ghost start: u16 = crc;
        let mut bit: usize = 0;
        while bit < 8
            invariant
                bit <= 8,
                crc == crc_shifts(start, bit as nat),
            decreases 8 - bit,
        {
            if crc & 0x0001 != 0 {
                crc = (crc >> 1) ^ 0xA001;
            } else {
                crc = crc >> 1;
            }
            bit = bit + 1;
        }
        i = i + 1;
    }
    assert(data@.take(data@.len() as int) =~= data@);
    crc
}


/// The high byte of a 16-bit value.
pub open spec fn hi_byte(value: u16) -> u8 {
    (value / 256) as u8
}

/// The low byte of a 16-bit value.
pub open spec fn lo_byte(value: u16) -> u8 {
    (value % 256) as u8
}

/// The 16-bit value whose high byte is `hi` and low byte is `lo`.
pub open spec fn u16_of_bytes(hi: u8, lo: u8) -> u16 {
    (hi as int * 256 + lo as int) as u16
}

/// `buf` with its first `prefix.len()` bytes replaced by `prefix`.
pub open spec fn overwrite(buf: Seq<u8>, prefix: Seq<u8>) -> Seq<u8> {
    prefix + buf.skip(prefix.len() as int)
}

/// `body` followed by its CRC, low byte first, as Modbus RTU frames it.
pub open spec fn with_crc(body: Seq<u8>) -> Seq<u8> {
    body + seq![lo_byte(spec_crc16(body)), hi_byte(spec_crc16(body))]
}

/// The CRC carried by the last two bytes of a frame (low byte first).
pub open spec fn received_crc(frame: Seq<u8>) -> u16 {
    u16_of_bytes(frame[frame.len() - 1], frame[frame.len() - 2])
}

/// The frame's last two bytes hold the CRC of the bytes before them.
pub open spec fn crc_ok(frame: Seq<u8>) -> bool {
    &&& frame.len() >= 2
    &&& spec_crc16(frame.take(frame.len() - 2)) == received_crc(frame)
}

/// Register addresses 0x1000..=0x1003 hold the voltages, 0x1004..=0x1007 the currents.
pub open spec fn is_register_address(address: int) -> bool {
    0x1000 <= address <= 0x1007
}

/// The value held at a register address, if there is such a register.
pub open spec fn spec_register_value(snapshot: MeasurementSnapshot, address: int) -> Option<u16> {
    if 0x1000 <= address <= 0x1003 {
        Some(snapshot.voltages@[address - 0x1000])
    } else if 0x1004 <= address <= 0x1007 {
        Some(snapshot.currents@[address - 0x1004])
    } else {
        None
    }
}

/// The `offset`-th register of a request starting at `start` exists.
pub open spec fn requested_register_exists(start: u16, offset: int) -> bool {
    is_register_address(start + offset)
}

/// Every one of the `quantity` registers from `start` on exists.
pub open spec fn registers_exist(start: u16, quantity: u16) -> bool {
    forall|offset: int| 0 <= offset < quantity ==> #[trigger] requested_register_exists(start, offset)
}

/// The request that a frame encodes, or the first check that it fails, in the order:
/// length, CRC, slave address, function code, quantity, register addresses.
pub open spec fn spec_parse_request(frame: Seq<u8>, expected_slave: u8) -> Result<ReadInputRegistersRequest, RequestError> {
    if frame.len() < 8 {
        Err(RequestError::FrameTooShort)
    } else if !crc_ok(frame) {
        Err(RequestError::CrcMismatch)
    } else if frame[0] != expected_slave {
        Err(RequestError::NotForThisSlave)
    } else if frame[1] != READ_INPUT_REGISTERS {
        Err(RequestError::IllegalFunction)
    } else {
        let start_address = u16_of_bytes(frame[2], frame[3]);
        let quantity = u16_of_bytes(frame[4], frame[5]);
        if quantity == 0 || quantity > MAX_READ_REGISTERS {
            Err(RequestError::IllegalDataValue)
        } else if !registers_exist(start_address, quantity) {
            Err(RequestError::IllegalDataAddress)
        } else {
            Ok(ReadInputRegistersRequest { slave: expected_slave, start_address, quantity })
        }
    }
}

/// Reads a big-endian 16-bit value.
fn u16_from_be(hi: u8, lo: u8) -> (value: u16)
    ensures
        value == u16_of_bytes(hi, lo),
{
    (hi as u16) * 256 + (lo as u16)
}

/// The high byte of `value`.
fn high_byte(value: u16) -> (byte: u8)
    ensures
        byte == hi_byte(value),
{
    (value / 256) as u8
}

/// The low byte of `value`.
fn low_byte(value: u16) -> (byte: u8)
    ensures
        byte == lo_byte(value),
{
    (value % 256) as u8
}

/// Whether `address` is outside the register map.
fn snapshot_address_unavailable(address: u16) -> (unavailable: bool)
    ensures
        unavailable == !is_register_address(address as int),
{
    !(0x1000 <= address && address <= 0x1007)
}

/// Decodes a "read input registers" request addressed to `expected_slave`.
#[verifier::loop_isolation(false)]
pub fn parse_read_input_registers_request(frame: &[u8], expected_slave: u8) -> (result: Result<
    ReadInputRegistersRequest,
    RequestError,
>)
    ensures
        result == spec_parse_request(frame@, expected_slave),
{
    if frame.len() < REQUEST_LEN {
        return Err(RequestError::FrameTooShort);
    }
    let payload = vstd::slice::slice_subrange(frame, 0, frame.len() - 2);
    let received = u16_from_be(frame[frame.len() - 1], frame[frame.len() - 2]);
    if crc16(payload) != received {
        return Err(RequestError::CrcMismatch);
    }
    if frame[0] != expected_slave {
        return Err(RequestError::NotForThisSlave);
    }
    if frame[1] != READ_INPUT_REGISTERS {
        return Err(RequestError::IllegalFunction);
    }
    let start_address = u16_from_be(frame[2], frame[3]);
    let quantity = u16_from_be(frame[4], frame[5]);
    if quantity == 0 || quantity > MAX_READ_REGISTERS {
        return Err(RequestError::IllegalDataValue);
    }
    let end_address = match start_address.checked_add(quantity - 1) {
        Some(end) => end,
        None => {
            assert(!requested_register_exists(start_address, quantity - 1));
            return Err(RequestError::IllegalDataAddress);
        },
    };
    let mut offset: u16 = 0;
    while offset < quantity
        invariant
            0 < quantity,
            start_address + quantity - 1 == end_address,
            offset <= quantity,
            forall|k: int| 0 <= k < offset ==> #[trigger] requested_register_exists(start_address, k),
        decreases quantity - offset,
    {
        let address = start_address + offset;
        if snapshot_address_unavailable(address) {
            assert(!requested_register_exists(start_address, offset as int));
            return Err(RequestError::IllegalDataAddress);
        }
        offset = offset + 1;
    }
    Ok(ReadInputRegistersRequest { slave: expected_slave, start_address, quantity })
}

/// Byte `index` of the big-endian register values of a read starting at `start`.
pub open spec fn register_byte(snapshot: MeasurementSnapshot, start: u16, index: int) -> u8 {
    let value = spec_register_value(snapshot, start + index / 2).unwrap();
    if index % 2 == 0 {
        hi_byte(value)
    } else {
        lo_byte(value)
    }
}

/// The values of `count` registers from `start` on, two bytes each, high byte first.
pub open spec fn register_bytes(snapshot: MeasurementSnapshot, start: u16, count: nat) -> Seq<u8> {
    Seq::new(2 * count, |index: int| register_byte(snapshot, start, index))
}

/// Slave address, function code and byte count of a read reply (the byte count is
/// truncated to one byte).
pub open spec fn read_header(request: ReadInputRegistersRequest) -> Seq<u8> {
    seq![request.slave, READ_INPUT_REGISTERS, ((2 * request.quantity) % 256) as u8]
}

/// A read reply without its CRC.
pub open spec fn read_response_body(
    request: ReadInputRegistersRequest,
    snapshot: MeasurementSnapshot,
) -> Seq<u8> {
    read_header(request) + register_bytes(snapshot, request.start_address, request.quantity as nat)
}

/// How many registers from `start` on exist before the first one that does not
/// (at most `quantity`).
pub open spec fn leading_registers(start: u16, quantity: u16) -> nat {
    if !is_register_address(start as int) {
        0
    } else if 0x1008 - start < quantity {
        (0x1008 - start) as nat
    } else {
        quantity as nat
    }
}

/// The result of building a read reply in `buf`, and what `buf` holds afterwards.
/// On a missing register the header and the registers before it have been written.
pub open spec fn read_response_outcome(
    request: ReadInputRegistersRequest,
    snapshot: MeasurementSnapshot,
    buf: Seq<u8>,
) -> (Result<usize, RequestError>, Seq<u8>) {
    let frame_len = 5 + 2 * request.quantity;
    if buf.len() < frame_len {
        (Err(RequestError::ResponseBufferTooSmall), buf)
    } else if registers_exist(request.start_address, request.quantity) {
        (Ok(frame_len as usize), overwrite(buf, with_crc(read_response_body(request, snapshot))))
    } else {
        (
            Err(RequestError::IllegalDataAddress),
            overwrite(
                buf,
                read_header(request) + register_bytes(
                    snapshot,
                    request.start_address,
                    leading_registers(request.start_address, request.quantity),
                ),
            ),
        )
    }
}

/// The value of the register at `address` in `snapshot`, if the register exists.
pub fn get_register_value(snapshot: &MeasurementSnapshot, address: u16) -> (value: Option<u16>)
    ensures
        value == spec_register_value(*snapshot, address as int),
        0x1000 <= address <= 0x1003 ==> value == Some(snapshot.voltages[address - 0x1000]),
        0x1004 <= address <= 0x1007 ==> value == Some(snapshot.currents[address - 0x1004]),
        address < 0x1000 || address > 0x1007 ==> value is None,
{
    if 0x1000 <= address && address <= 0x1003 {
        Some(snapshot.voltages[(address - 0x1000) as usize])
    } else if 0x1004 <= address && address <= 0x1007 {
        Some(snapshot.currents[(address - 0x1004) as usize])
    } else {
        None
    }
}

/// Writes the reply to `request` (register values from `snapshot`, then the CRC) at the
/// start of `response` and returns its length.
pub fn build_read_input_registers_response(
    request: ReadInputRegistersRequest,
    snapshot: &MeasurementSnapshot,
    response: &mut [u8],
) -> (result: Result<usize, RequestError>)
    ensures
        (result, final(response)@) == read_response_outcome(request, *snapshot, old(response)@),
{
    let byte_count: usize = request.quantity as usize * 2;
    let frame_len: usize = 3 + byte_count + 2;
    if response.len() < frame_len {
        return Err(RequestError::ResponseBufferTooSmall);
    }
    let ghost original = response@;
    let ghost start = request.start_address;
    response[0] = request.slave;
    response[1] = READ_INPUT_REGISTERS;
    response[2] = (byte_count % 256) as u8;
    assert(response@ =~= overwrite(original, read_header(request) + register_bytes(*snapshot, start, 0)));
    let mut index: usize = 0;
    while index < request.quantity as usize
        invariant
            start == request.start_address,
            original == old(response)@,
            frame_len == 5 + 2 * request.quantity,
            frame_len <= original.len(),
            response@.len() == original.len(),
            index <= request.quantity,
            forall|k: int| 0 <= k < index ==> #[trigger] requested_register_exists(start, k),
            response@ == overwrite(
                original,
                read_header(request) + register_bytes(*snapshot, start, index as nat),
            ),
        decreases request.quantity - index,
    {
        if index > 0 {
            assert(requested_register_exists(start, index - 1));
        }
        let address: u16 = request.start_address + index as u16;
        let value = match get_register_value(snapshot, address) {
            Some(value) => value,
            None => {
                assert(!requested_register_exists(start, index as int));
                assert(!registers_exist(start, request.quantity));
                if index > 0 {
                    assert(requested_register_exists(start, 0));
                }
                assert(index == leading_registers(start, request.quantity));
                return Err(RequestError::IllegalDataAddress);
            },
        };
        assert(requested_register_exists(start, index as int));
        let offset: usize = 3 + index * 2;
        response[offset] = high_byte(value);
        response[offset + 1] = low_byte(value);
        assert(response@ =~= overwrite(
            original,
            read_header(request) + register_bytes(*snapshot, start, (index + 1) as nat),
        ));
        index = index + 1;
    }
    assert(registers_exist(start, request.quantity));
    let ghost body = read_response_body(request, *snapshot);
    assert(response@.subrange(0, frame_len - 2) =~= body);
    let crc = crc16(vstd::slice::slice_subrange(response, 0, frame_len - 2));
    response[frame_len - 2] = low_byte(crc);
    response[frame_len - 1] = high_byte(crc);
    assert(response@ =~= overwrite(original, with_crc(body)));
    Ok(frame_len)
}

/// An exception reply without its CRC.
pub open spec fn exception_body(slave: u8, function: u8, exception_code: u8) -> Seq<u8> {
    seq![slave, function | EXCEPTION_OFFSET, exception_code]
}

/// The result of building an exception reply in `buf`, and what `buf` holds afterwards.
pub open spec fn exception_response_outcome(
    slave: u8,
    function: u8,
    exception_code: u8,
    buf: Seq<u8>,
) -> (Result<usize, RequestError>, Seq<u8>) {
    if buf.len() < 5 {
        (Err(RequestError::ResponseBufferTooSmall), buf)
    } else {
        (Ok(5), overwrite(buf, with_crc(exception_body(slave, function, exception_code))))
    }
}

/// Writes the exception reply (slave, function with the exception bit, exception code,
/// CRC) at the start of `response` and returns its length.
pub fn build_exception_response(
    slave: u8,
    function: u8,
    exception_code: u8,
    response: &mut [u8],
) -> (result: Result<usize, RequestError>)
    ensures
        (result, final(response)@) == exception_response_outcome(
            slave,
            function,
            exception_code,
            old(response)@,
        ),
        result is Ok ==> {
            &&& final(response)@[0] == slave
            &&& final(response)@[1] == function | 0x80u8
            &&& final(response)@[2] == exception_code
        },
{
    if response.len() < 5 {
        return Err(RequestError::ResponseBufferTooSmall);
    }
    let ghost body = exception_body(slave, function, exception_code);
    response[0] = slave;
    response[1] = function | EXCEPTION_OFFSET;
    response[2] = exception_code;
    assert(response@.subrange(0, 3) =~= body);
    let crc = crc16(vstd::slice::slice_subrange(response, 0, 3));
    response[3] = low_byte(crc);
    response[4] = high_byte(crc);
    assert(response@ =~= overwrite(old(response)@, with_crc(body)));
    Ok(5)
}

/// A reply length as the answer of `handle_request`.
pub open spec fn as_answer(outcome: (Result<usize, RequestError>, Seq<u8>)) -> (
    Result<Option<usize>, RequestError>,
    Seq<u8>,
) {
    (
        match outcome.0 {
            Ok(len) => Ok(Some(len)),
            Err(error) => Err(error),
        },
        outcome.1,
    )
}

/// The function code that an exception reply to `frame` echoes.
pub open spec fn echoed_function(frame: Seq<u8>) -> u8 {
    if frame.len() > 1 {
        frame[1]
    } else {
        READ_INPUT_REGISTERS
    }
}

/// What `handle_request` returns for `frame` and what the response buffer holds afterwards:
/// a read reply for a valid request, nothing for another slave's frame, an exception reply
/// for an illegal function, address or quantity, and the error otherwise.
pub open spec fn handle_outcome(
    frame: Seq<u8>,
    expected_slave: u8,
    snapshot: MeasurementSnapshot,
    buf: Seq<u8>,
) -> (Result<Option<usize>, RequestError>, Seq<u8>) {
    match spec_parse_request(frame, expected_slave) {
        Ok(request) => as_answer(read_response_outcome(request, snapshot, buf)),
        Err(RequestError::NotForThisSlave) => (Ok(None), buf),
        Err(error) => match spec_exception_code(error) {
            Some(code) => as_answer(
                exception_response_outcome(expected_slave, echoed_function(frame), code, buf),
            ),
            None => (Err(error), buf),
        },
    }
}

/// Answers one received frame: writes the reply into `response` and returns its length,
/// returns `None` when the frame is addressed to another slave, and returns the error
/// when the frame is too short or its CRC is wrong (or the buffer cannot hold the reply).
pub fn handle_request(
    frame: &[u8],
    expected_slave: u8,
    snapshot: &MeasurementSnapshot,
    response: &mut [u8],
) -> (result: Result<Option<usize>, RequestError>)
    ensures
        (result, final(response)@) == handle_outcome(
            frame@,
            expected_slave,
            *snapshot,
            old(response)@,
        ),
{
    match parse_read_input_registers_request(frame, expected_slave) {
        Ok(request) => match build_read_input_registers_response(request, snapshot, response) {
            Ok(len) => Ok(Some(len)),
            Err(error) => Err(error),
        },
        Err(RequestError::NotForThisSlave) => Ok(None),
        Err(error) => {
            match error.exception_code() {
                Some(exception_code) => {
                    let function = if frame.len() > 1 {
                        frame[1]
                    } else {
                        READ_INPUT_REGISTERS
                    };
                    match build_exception_response(
                        expected_slave,
                        function,
                        exception_code,
                        response,
                    ) {
                        Ok(len) => Ok(Some(len)),
                        Err(error) => Err(error),
                    }
                },
                None => Err(error),
            }
        },
    }
}

/// The start address field of a frame (bytes 2 and 3, big-endian), or 0 when the frame
/// is too short to hold it.
pub fn parse_start_address(frame: &[u8]) -> (start_address: u16)
    ensures
        start_address == start_address_field(frame@),
{
    if frame.len() >= 4 {
        u16_from_be(frame[2], frame[3])
    } else {
        0
    }
}

/// The quantity field of a frame (bytes 4 and 5, big-endian), or 0 when the frame is
/// too short to hold it.
pub fn parse_quantity(frame: &[u8]) -> (quantity: u16)
    ensures
        quantity == quantity_field(frame@),
{
    if frame.len() >= 6 {
        u16_from_be(frame[4], frame[5])
    } else {
        0
    }
}

/// What is logged about a frame whose CRC does not match.
#[derive(Copy, Clone, Debug, PartialEq, Eq, Structural)]
pub struct CrcMismatchReport {
    pub len: usize,
    pub slave: u8,
    pub function: u8,
    pub calculated_crc: u16,
    pub received_crc: u16,
    pub start_address: u16,
    pub quantity: u16,
}

/// Byte `index` of a frame, or `default` when the frame is too short.
pub open spec fn byte_or(frame: Seq<u8>, index: int, default: u8) -> u8 {
    if 0 <= index < frame.len() {
        frame[index]
    } else {
        default
    }
}

/// The start address field of a frame, or 0 when the frame is too short to hold it.
pub open spec fn start_address_field(frame: Seq<u8>) -> u16 {
    if frame.len() >= 4 {
        u16_of_bytes(frame[2], frame[3])
    } else {
        0
    }
}

/// The quantity field of a frame, or 0 when the frame is too short to hold it.
pub open spec fn quantity_field(frame: Seq<u8>) -> u16 {
    if frame.len() >= 6 {
        u16_of_bytes(frame[4], frame[5])
    } else {
        0
    }
}

/// The report on a frame whose CRC does not match: both CRCs are 0 for a frame
/// shorter than two bytes.
pub open spec fn spec_crc_mismatch_report(frame: Seq<u8>) -> CrcMismatchReport {
    CrcMismatchReport {
        len: frame.len() as usize,
        slave: byte_or(frame, 0, 0),
        function: byte_or(frame, 1, READ_INPUT_REGISTERS),
        calculated_crc: if frame.len() >= 2 {
            spec_crc16(frame.take(frame.len() - 2))
        } else {
            0
        },
        received_crc: if frame.len() >= 2 {
            received_crc(frame)
        } else {
            0
        },
        start_address: start_address_field(frame),
        quantity: quantity_field(frame),
    }
}

/// Gathers what is logged about a frame whose CRC does not match.
pub fn crc_mismatch_report(frame: &[u8]) -> (report: CrcMismatchReport)
    ensures
        report == spec_crc_mismatch_report(frame@),
{
    let received_crc = if frame.len() >= 2 {
        u16_from_be(frame[frame.len() - 1], frame[frame.len() - 2])
    } else {
        0
    };
    let calculated_crc = if frame.len() >= 2 {
        crc16(vstd::slice::slice_subrange(frame, 0, frame.len() - 2))
    } else {
        0
    };
    CrcMismatchReport {
        len: frame.len(),
        slave: if frame.len() > 0 {
            frame[0]
        } else {
            0
        },
        function: if frame.len() > 1 {
            frame[1]
        } else {
            READ_INPUT_REGISTERS
        },
        calculated_crc,
        received_crc,
        start_address: parse_start_address(frame),
        quantity: parse_quantity(frame),
    }
}

/// A request frame as a Modbus master sends it: slave, function, start address and
/// quantity (both big-endian), then the CRC.
pub open spec fn request_frame(slave: u8, function: u8, start_address: u16, quantity: u16) -> Seq<u8> {
    with_crc(
        seq![
            slave,
            function,
            hi_byte(start_address),
            lo_byte(start_address),
            hi_byte(quantity),
            lo_byte(quantity),
        ],
    )
}

/// Splitting a 16-bit value into its high and low byte and joining them again gives it back.
pub proof fn lemma_bytes_join(value: u16)
    ensures
        u16_of_bytes(hi_byte(value), lo_byte(value)) == value,
{
}

/// A frame that ends in the CRC of its body, low byte first, passes the CRC check.
pub proof fn law_framed_body_passes_crc_check(body: Seq<u8>)
    ensures
        crc_ok(with_crc(body)),
        with_crc(body).take(body.len() as int) == body,
{
    let frame = with_crc(body);
    assert(frame.take(frame.len() - 2) =~= body);
    lemma_bytes_join(spec_crc16(body));
}

/// A well-formed request for existing registers, addressed to this slave, decodes to
/// exactly the request that was framed.
pub proof fn law_request_frame_decodes(slave: u8, start_address: u16, quantity: u16)
    requires
        1 <= quantity <= MAX_READ_REGISTERS,
        registers_exist(start_address, quantity),
    ensures
        spec_parse_request(request_frame(slave, READ_INPUT_REGISTERS, start_address, quantity), slave)
            == Ok::<ReadInputRegistersRequest, RequestError>(
            ReadInputRegistersRequest { slave, start_address, quantity },
        ),
{
    let body = seq![
        slave,
        READ_INPUT_REGISTERS,
        hi_byte(start_address),
        lo_byte(start_address),
        hi_byte(quantity),
        lo_byte(quantity),
    ];
    law_framed_body_passes_crc_check(body);
    lemma_bytes_join(start_address);
    lemma_bytes_join(quantity);
}

/// A frame with a correct CRC that is addressed to another slave is ignored: no reply,
/// and the response buffer is left as it was.
pub proof fn law_other_slave_is_ignored(
    frame: Seq<u8>,
    expected_slave: u8,
    snapshot: MeasurementSnapshot,
    buf: Seq<u8>,
)
    requires
        frame.len() >= 8,
        crc_ok(frame),
        frame[0] != expected_slave,
    ensures
        handle_outcome(frame, expected_slave, snapshot, buf) == (
            Ok::<Option<usize>, RequestError>(None),
            buf,
        ),
{
}

/// `handle_request` writes into the response buffer only when it answers, and then only
/// the reply: everything after the reply's length is left as it was.
pub proof fn law_only_the_reply_is_written(
    frame: Seq<u8>,
    expected_slave: u8,
    snapshot: MeasurementSnapshot,
    buf: Seq<u8>,
)
    ensures
        ({
            let (result, out) = handle_outcome(frame, expected_slave, snapshot, buf);
            &&& out.len() == buf.len()
            &&& match result {
                Ok(Some(len)) => len <= buf.len() && out.skip(len as int) == buf.skip(len as int),
                _ => out == buf,
            }
        }),
{
    let (result, out) = handle_outcome(frame, expected_slave, snapshot, buf);
    match spec_parse_request(frame, expected_slave) {
        Ok(request) => {
            let frame_len = 5 + 2 * request.quantity;
            if buf.len() >= frame_len {
                assert(out.skip(frame_len) =~= buf.skip(frame_len));
            }
        },
        Err(error) => {
            if error != RequestError::NotForThisSlave && spec_exception_code(error) is Some
                && buf.len() >= 5 {
                assert(out.skip(5) =~= buf.skip(5));
            }
        },
    }
}

/// Every reply that `handle_request` writes is addressed from this slave and ends in a
/// correct CRC.
pub proof fn law_every_reply_carries_its_crc(
    frame: Seq<u8>,
    expected_slave: u8,
    snapshot: MeasurementSnapshot,
    buf: Seq<u8>,
)
    ensures
        ({
            let (result, out) = handle_outcome(frame, expected_slave, snapshot, buf);
            result matches Ok(Some(len)) ==> {
                &&& 5 <= len <= out.len()
                &&& out[0] == expected_slave
                &&& crc_ok(out.take(len as int))
                &&& out[len - 2] as int == spec_crc16(out.take(len - 2)) % 256
                &&& out[len - 1] as int == spec_crc16(out.take(len - 2)) / 256
            }
        }),
{
    let (result, out) = handle_outcome(frame, expected_slave, snapshot, buf);
    if let Ok(Some(len)) = result {
        assert(out.take(len as int).take(len - 2) =~= out.take(len - 2));
    }
    match spec_parse_request(frame, expected_slave) {
        Ok(request) => {
            let body = read_response_body(request, snapshot);
            let frame_len = 5 + 2 * request.quantity;
            if buf.len() >= frame_len {
                law_framed_body_passes_crc_check(body);
                assert(out.take(frame_len) =~= with_crc(body));
            }
        },
        Err(error) => {
            if error != RequestError::NotForThisSlave && spec_exception_code(error) is Some
                && buf.len() >= 5 {
                let body = exception_body(
                    expected_slave,
                    echoed_function(frame),
                    spec_exception_code(error).unwrap(),
                );
                law_framed_body_passes_crc_check(body);
                assert(out.take(5) =~= with_crc(body));
            }
        },
    }
}

/// The reply to a valid read request carries, for each requested register in order,
/// the value that register holds in the snapshot, high byte first.
pub proof fn law_read_reply_carries_register_values(
    frame: Seq<u8>,
    expected_slave: u8,
    snapshot: MeasurementSnapshot,
    buf: Seq<u8>,
    index: int,
)
    requires
        spec_parse_request(frame, expected_slave) is Ok,
        handle_outcome(frame, expected_slave, snapshot, buf).0 is Ok,
        0 <= index < spec_parse_request(frame, expected_slave)->Ok_0.quantity,
    ensures
        ({
            let request = spec_parse_request(frame, expected_slave)->Ok_0;
            let out = handle_outcome(frame, expected_slave, snapshot, buf).1;
            &&& spec_register_value(snapshot, request.start_address + index) is Some
            &&& u16_of_bytes(out[3 + 2 * index], out[4 + 2 * index]) == spec_register_value(
                snapshot,
                request.start_address + index,
            ).unwrap()
        }),
{
    let request = spec_parse_request(frame, expected_slave)->Ok_0;
    let out = handle_outcome(frame, expected_slave, snapshot, buf).1;
    let start = request.start_address;
    assert(requested_register_exists(start, index));
    let value = spec_register_value(snapshot, start + index).unwrap();
    let body = read_response_body(request, snapshot);
    assert(out[3 + 2 * index] == body[3 + 2 * index]);
    assert(out[4 + 2 * index] == body[4 + 2 * index]);
    assert((2 * index) / 2 == index);
    assert((2 * index + 1) / 2 == index);
    lemma_bytes_join(value);
}

/// The register map holds exactly eight registers: 0x1000..=0x1003 are the four voltages
/// and 0x1004..=0x1007 the four currents, in channel order; no other address has one.
pub proof fn law_register_map(snapshot: MeasurementSnapshot, address: int)
    ensures
        0x1000 <= address <= 0x1003 ==> spec_register_value(snapshot, address) == Some(
            snapshot.voltages[address - 0x1000],
        ),
        0x1004 <= address <= 0x1007 ==> spec_register_value(snapshot, address) == Some(
            snapshot.currents[address - 0x1004],
        ),
        address < 0x1000 || address > 0x1007 ==> spec_register_value(snapshot, address) is None,
        is_register_address(address) <==> 0x1000 <= address <= 0x1007,
{
}

/// For a quantity of at least one, all requested registers exist exactly when the
/// request starts at 0x1000 or later and ends at 0x1007 or earlier.
pub proof fn lemma_registers_exist_bounds(start: u16, quantity: u16)
    requires
        quantity >= 1,
    ensures
        registers_exist(start, quantity) <==> (0x1000 <= start && start + quantity - 1 <= 0x1007),
{
    if registers_exist(start, quantity) {
        assert(requested_register_exists(start, 0));
        assert(requested_register_exists(start, quantity - 1));
    }
    law_register_map(MeasurementSnapshot { voltages: [0, 0, 0, 0], currents: [0, 0, 0, 0] }, start as int);
    if 0x1000 <= start && start + quantity - 1 <= 0x1007 {
        assert forall|offset: int| 0 <= offset < quantity implies #[trigger] requested_register_exists(
            start,
            offset,
        ) by {
            law_register_map(
                MeasurementSnapshot { voltages: [0, 0, 0, 0], currents: [0, 0, 0, 0] },
                start + offset,
            );
        }
    }
}

/// How a frame is decoded, check by check in this order: fewer than eight bytes; a CRC
/// (over all but the last two bytes) that differs from the last two bytes read low byte
/// first; another slave's address; a function code other than 0x04; a quantity of 0 or
/// above 125; a requested register outside 0x1000..=0x1007. A frame that passes every
/// check decodes to this slave, the big-endian start address in bytes 2 and 3, and the
/// big-endian quantity in bytes 4 and 5.
pub proof fn law_parse_checks_in_order(frame: Seq<u8>, slave: u8)
    ensures
        ({
            let result = spec_parse_request(frame, slave);
            let n = frame.len();
            let length_ok = n >= 8;
            let crc_matches = length_ok && spec_crc16(frame.take(n - 2)) == frame[n - 2] as int
                + 256 * frame[n - 1] as int;
            let for_us = crc_matches && frame[0] == slave;
            let reads_inputs = for_us && frame[1] == 0x04u8;
            let start = frame[2] as int * 256 + frame[3] as int;
            let quantity = frame[4] as int * 256 + frame[5] as int;
            let quantity_ok = reads_inputs && 1 <= quantity <= 125;
            let addresses_ok = quantity_ok && 0x1000 <= start && start + quantity - 1 <= 0x1007;
            &&& !length_ok ==> result == Err::<ReadInputRegistersRequest, RequestError>(
                RequestError::FrameTooShort,
            )
            &&& length_ok && !crc_matches ==> result == Err::<ReadInputRegistersRequest, RequestError>(
                RequestError::CrcMismatch,
            )
            &&& crc_matches && !for_us ==> result == Err::<ReadInputRegistersRequest, RequestError>(
                RequestError::NotForThisSlave,
            )
            &&& for_us && !reads_inputs ==> result == Err::<ReadInputRegistersRequest, RequestError>(
                RequestError::IllegalFunction,
            )
            &&& reads_inputs && !quantity_ok ==> result == Err::<
                ReadInputRegistersRequest,
                RequestError,
            >(RequestError::IllegalDataValue)
            &&& quantity_ok && !addresses_ok ==> result == Err::<
                ReadInputRegistersRequest,
                RequestError,
            >(RequestError::IllegalDataAddress)
            &&& addresses_ok ==> result is Ok && result->Ok_0.slave == slave
                && result->Ok_0.start_address == start && result->Ok_0.quantity == quantity
            &&& result is Ok ==> addresses_ok
        }),
{
    let n = frame.len();
    if n >= 8 {
        let start = u16_of_bytes(frame[2], frame[3]);
        let quantity = u16_of_bytes(frame[4], frame[5]);
        assert(start == frame[2] as int * 256 + frame[3] as int);
        assert(quantity == frame[4] as int * 256 + frame[5] as int);
        assert(received_crc(frame) == frame[n - 2] as int + 256 * frame[n - 1] as int);
        if quantity >= 1 {
            lemma_registers_exist_bounds(start, quantity);
        }
    }
}

/// A frame that passes the length, CRC and slave checks but names a function other
/// than 0x04 is refused as an illegal function, and only 0x04 frames decode.
pub proof fn law_only_function_0x04_decodes(frame: Seq<u8>, slave: u8)
    ensures
        frame.len() >= 8 && crc_ok(frame) && frame[0] == slave && frame[1] != 0x04u8
            ==> spec_parse_request(frame, slave) == Err::<ReadInputRegistersRequest, RequestError>(
            RequestError::IllegalFunction,
        ),
        spec_parse_request(frame, slave) is Ok ==> frame[1] == 0x04u8,
{
    law_parse_checks_in_order(frame, slave);
}

/// An exception reply echoes the requested function code with bit 0x80 set (the other
/// seven bits unchanged), carries the exception code, and ends in its CRC; it needs five
/// bytes of buffer.
pub proof fn law_exception_reply_bytes(slave: u8, function: u8, exception_code: u8, buf: Seq<u8>)
    ensures
        buf.len() < 5 ==> exception_response_outcome(slave, function, exception_code, buf) == (
            Err::<usize, RequestError>(RequestError::ResponseBufferTooSmall),
            buf,
        ),
        buf.len() >= 5 ==> {
            let (result, out) = exception_response_outcome(slave, function, exception_code, buf);
            &&& result == Ok::<usize, RequestError>(5)
            &&& out.len() == buf.len()
            &&& out[0] == slave
            &&& out[1] == function | 0x80u8
            &&& out[1] & 0x7Fu8 == function & 0x7Fu8
            &&& out[1] & 0x80u8 == 0x80u8
            &&& out[2] == exception_code
            &&& crc_ok(out.take(5))
            &&& out[3] as int == spec_crc16(out.take(3)) % 256
            &&& out[4] as int == spec_crc16(out.take(3)) / 256
            &&& out.skip(5) == buf.skip(5)
        },
{
    assert((function | 0x80u8) & 0x7Fu8 == function & 0x7Fu8) by (bit_vector);
    assert((function | 0x80u8) & 0x80u8 == 0x80u8) by (bit_vector);
    if buf.len() >= 5 {
        let body = exception_body(slave, function, exception_code);
        let out = exception_response_outcome(slave, function, exception_code, buf).1;
        law_framed_body_passes_crc_check(body);
        assert(out.take(5) =~= with_crc(body));
        assert(out.take(3) =~= body);
        assert(out.skip(5) =~= buf.skip(5));
    }
}

/// A read reply is this slave's address, function code 0x04, the byte count (twice the
/// quantity, in one byte), two bytes per requested register and the CRC: five bytes plus
/// two per register.
pub proof fn law_read_reply_layout(
    frame: Seq<u8>,
    slave: u8,
    snapshot: MeasurementSnapshot,
    buf: Seq<u8>,
)
    requires
        spec_parse_request(frame, slave) is Ok,
        handle_outcome(frame, slave, snapshot, buf).0 is Ok,
    ensures
        ({
            let quantity = frame[4] as int * 256 + frame[5] as int;
            let (result, out) = handle_outcome(frame, slave, snapshot, buf);
            &&& result == Ok::<Option<usize>, RequestError>(Some((5 + 2 * quantity) as usize))
            &&& out[0] == slave
            &&& out[1] == 0x04u8
            &&& out[2] as int == 2 * quantity
        }),
{
    law_parse_checks_in_order(frame, slave);
}

/// A refused request is answered with an exception reply from this slave that echoes the
/// frame's function code with bit 0x80 set and carries code 1 for an illegal function,
/// 2 for a missing register and 3 for a bad quantity.
pub proof fn law_refusals_are_answered_with_exceptions(
    frame: Seq<u8>,
    slave: u8,
    snapshot: MeasurementSnapshot,
    buf: Seq<u8>,
)
    requires
        buf.len() >= 5,
        spec_parse_request(frame, slave) == Err::<ReadInputRegistersRequest, RequestError>(
            RequestError::IllegalFunction,
        ) || spec_parse_request(frame, slave) == Err::<ReadInputRegistersRequest, RequestError>(
            RequestError::IllegalDataAddress,
        ) || spec_parse_request(frame, slave) == Err::<ReadInputRegistersRequest, RequestError>(
            RequestError::IllegalDataValue,
        ),
    ensures
        ({
            let (result, out) = handle_outcome(frame, slave, snapshot, buf);
            let error = spec_parse_request(frame, slave)->Err_0;
            &&& result == Ok::<Option<usize>, RequestError>(Some(5))
            &&& out[0] == slave
            &&& out[1] == frame[1] | 0x80u8
            &&& error == RequestError::IllegalFunction ==> out[2] == 1
            &&& error == RequestError::IllegalDataAddress ==> out[2] == 2
            &&& error == RequestError::IllegalDataValue ==> out[2] == 3
            &&& crc_ok(out.take(5))
        }),
{
    let error = spec_parse_request(frame, slave)->Err_0;
    law_exception_reply_bytes(slave, echoed_function(frame), spec_exception_code(error).unwrap(), buf);
}

/// The reply to a valid read request carries, for each requested register in order, the
/// channel reading at that address, high byte first: voltages for 0x1000..=0x1003 and
/// currents for 0x1004..=0x1007.
pub proof fn law_read_reply_carries_channel_readings(
    frame: Seq<u8>,
    slave: u8,
    snapshot: MeasurementSnapshot,
    buf: Seq<u8>,
    index: int,
)
    requires
        spec_parse_request(frame, slave) is Ok,
        handle_outcome(frame, slave, snapshot, buf).0 is Ok,
        0 <= index < spec_parse_request(frame, slave)->Ok_0.quantity,
    ensures
        ({
            let request = spec_parse_request(frame, slave)->Ok_0;
            let out = handle_outcome(frame, slave, snapshot, buf).1;
            let address = request.start_address + index;
            let value = out[3 + 2 * index] as int * 256 + out[4 + 2 * index] as int;
            &&& 0x1000 <= address <= 0x1007
            &&& address <= 0x1003 ==> value == snapshot.voltages[address - 0x1000]
            &&& address >= 0x1004 ==> value == snapshot.currents[address - 0x1004]
        }),
{
    let request = spec_parse_request(frame, slave)->Ok_0;
    let out = handle_outcome(frame, slave, snapshot, buf).1;
    let address = request.start_address + index;
    law_read_reply_carries_register_values(frame, slave, snapshot, buf, index);
    law_register_map(snapshot, address);
    assert(requested_register_exists(request.start_address, index));
}

} // verus!

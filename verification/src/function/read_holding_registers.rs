//! Function code 0x03 (Read Holding Registers): the request PDU and the
//! decoding of the server's reply PDU, normal or exception.
use crate::bytes::{
    be_bytes, be_word, high_byte, join_word, lemma_be_word_of_bytes, lemma_bytes_of_be_word, low_byte,
    split_word,
};
use vstd::prelude::*;

verus! {

pub const MINIMUM_QUANTITY: u16 = 1;

pub const MAXIMUM_QUANTITY: u16 = 125;

pub const FC03_EXCEPTION_FUNCTION_CODE: u8 = 0x83;

pub const FC03_FUNCTION_CODE: u8 = 0x03;

pub const FC03_RESPONSE_PREFIX_LENGTH: usize = 2;

pub const FC03_EXCEPTION_PDU_LENGTH: usize = 2;

/// Why a read request cannot be built.
#[derive(Debug, Clone, Copy, PartialEq, Eq)]
pub enum Fc03Error {
    QuantityOutOfRange { actual: u16, minimum: u16, maximum: u16 },
    AddressRangeOverflow { start_address: u16, quantity: u16 },
}

/// Why a reply PDU is refused.
#[allow(inconsistent_fields)]
#[derive(Debug, Clone, Copy, PartialEq, Eq)]
pub enum Fc03ResponseError {
    OddByteLength { actual: u8 },
    RegisterCountMismatch { actual: u16, expected: u16 },
    PduTooShort { actual: usize, minimum: usize },
    UnexpectedFunctionCode { actual: u8, expected: u8 },
    ExpectedQuantityOutOfRange { actual: u16, minimum: u16, maximum: u16 },
    PduLengthMismatch { actual: usize, expected: usize },
    UnknownExceptionCode { actual: u8 },
}

/// The exception codes that a server may answer a read with.
#[derive(Debug, Clone, Copy, PartialEq, Eq)]
pub enum Fc03Exception {
    IllegalFunction,
    IllegalDataAddress,
    IllegalDataValue,
    ServerDeviceFailure,
}

/// A decoded reply: the register values, or the server's exception.
#[derive(Debug, PartialEq, Eq)]
pub enum Fc03Response {
    Registers(Vec<u16>),
    Exception(Fc03Exception),
}

/// The mathematical content of a decoded reply.
pub ghost enum Fc03Reply {
    Registers(Seq<u16>),
    Exception(Fc03Exception),
}

impl View for Fc03Response {
    type V = Fc03Reply;

    open spec fn view(&self) -> Fc03Reply {
        match self {
            Fc03Response::Registers(v) => Fc03Reply::Registers(v@),
            Fc03Response::Exception(e) => Fc03Reply::Exception(*e),
        }
    }
}

// ---------------------------------------------------------------------------
// Request
// ---------------------------------------------------------------------------

/// Whether a register count is one that a single read may ask for.
pub open spec fn quantity_in_range(quantity: u16) -> bool {
    MINIMUM_QUANTITY <= quantity <= MAXIMUM_QUANTITY
}

/// Whether the last register of the block lies within the 16-bit address space.
pub open spec fn last_address_fits(start_address: u16, quantity: u16) -> bool {
    start_address + quantity - 1 <= u16::MAX
}

/// The error that building a request from these values gives, if any.
pub open spec fn request_error(start_address: u16, quantity: u16) -> Option<Fc03Error> {
    if !quantity_in_range(quantity) {
        Some(
            Fc03Error::QuantityOutOfRange {
                actual: quantity,
                minimum: MINIMUM_QUANTITY,
                maximum: MAXIMUM_QUANTITY,
            },
        )
    } else if !last_address_fits(start_address, quantity) {
        Some(Fc03Error::AddressRangeOverflow { start_address, quantity })
    } else {
        None
    }
}

/// The request PDU: function code, start address, register count.
pub open spec fn request_pdu(start_address: u16, quantity: u16) -> Seq<u8> {
    seq![FC03_FUNCTION_CODE] + be_bytes(start_address) + be_bytes(quantity)
}

/// A validated request for a block of holding registers.
pub struct ReadHoldingRegistersRequest {
    start_address: u16,
    quantity: u16,
}

impl View for ReadHoldingRegistersRequest {
    /// (start address, quantity)
    type V = (u16, u16);

    closed spec fn view(&self) -> (u16, u16) {
        (self.start_address, self.quantity)
    }
}

impl ReadHoldingRegistersRequest {
    #[verifier::type_invariant]
    spec fn well_formed(self) -> bool {
        quantity_in_range(self.quantity) && last_address_fits(self.start_address, self.quantity)
    }

    /// Builds a request for `quantity` registers from `start_address` on.
    /// Fails when the count is outside 1..=125 (checked first) or when the
    /// last register would lie beyond address 0xFFFF.
    pub fn new(start_address: u16, quantity: u16) -> (r: Result<Self, Fc03Error>)
        ensures
            r is Ok <==> request_error(start_address, quantity) is None,
            r matches Err(e) ==> request_error(start_address, quantity) == Some(e),
            r matches Ok(req) ==> req@ == (start_address, quantity),
            r is Ok <==> (1 <= quantity <= 125 && start_address as int + quantity as int - 1
                <= 0xFFFF),
    {
        proof {
            lemma_request_validity(start_address, quantity);
        }
        if !(MINIMUM_QUANTITY <= quantity && quantity <= MAXIMUM_QUANTITY) {
            return Err(
                Fc03Error::QuantityOutOfRange {
                    actual: quantity,
                    minimum: MINIMUM_QUANTITY,
                    maximum: MAXIMUM_QUANTITY,
                },
            );
        }
        let offset: u16 = quantity - 1;
        match start_address.checked_add(offset) {
            None => Err(Fc03Error::AddressRangeOverflow { start_address, quantity }),
            Some(_) => Ok(ReadHoldingRegistersRequest { start_address, quantity }),
        }
    }

    /// The first register address of the block.
    pub fn start_address(&self) -> (r: u16)
        ensures
            r == self@.0,
            last_address_fits(r, self@.1),
    {
        proof {
            use_type_invariant(self);
        }
        self.start_address
    }

    /// The number of registers asked for; always within 1..=125.
    pub fn quantity(&self) -> (r: u16)
        ensures
            r == self@.1,
            quantity_in_range(r),
    {
        proof {
            use_type_invariant(self);
        }
        self.quantity
    }

    /// The five-byte request PDU.
    pub fn encode(&self) -> (pdu: [u8; 5])
        ensures
            pdu@ == request_pdu(self@.0, self@.1),
            pdu[0] == 0x03,
            pdu[1] as int * 256 + pdu[2] as int == self@.0 as int,
            pdu[3] as int * 256 + pdu[4] as int == self@.1 as int,
    {
        proof {
            lemma_request_pdu_layout(self@.0, self@.1);
        }
        let (start_hi, start_lo) = split_word(self.start_address);
        let (qty_hi, qty_lo) = split_word(self.quantity);
        let pdu: [u8; 5] = [FC03_FUNCTION_CODE, start_hi, start_lo, qty_hi, qty_lo];
        assert(pdu@ =~= request_pdu(self@.0, self@.1));
        pdu
    }
}


// ---------------------------------------------------------------------------
// Reply
// ---------------------------------------------------------------------------

/// The register values carried, two bytes each, most significant first.
pub open spec fn registers_from_bytes(data: Seq<u8>) -> Seq<u16> {
    Seq::new(data.len() / 2, |i: int| be_word(data[2 * i], data[2 * i + 1]))
}

/// The bytes that carry the given register values.
pub open spec fn register_bytes(registers: Seq<u16>) -> Seq<u8> {
    Seq::new(
        2 * registers.len(),
        |i: int|
            if i % 2 == 0 {
                high_byte(registers[i / 2])
            } else {
                low_byte(registers[i / 2])
            },
    )
}

/// The normal reply PDU that carries the given register values.
pub open spec fn fc03_response_pdu(registers: Seq<u16>) -> Seq<u8> {
    seq![FC03_FUNCTION_CODE, (2 * registers.len()) as u8] + register_bytes(registers)
}

/// What decoding a normal reply PDU gives, checks in order: the expected
/// count, the prefix, the function code, the declared byte count against the
/// PDU length, its parity, and the register count against the expected one.
pub open spec fn decode_success_spec(pdu: Seq<u8>, expected_quantity: u16) -> Result<
    Seq<u16>,
    Fc03ResponseError,
> {
    if !quantity_in_range(expected_quantity) {
        Err(
            Fc03ResponseError::ExpectedQuantityOutOfRange {
                actual: expected_quantity,
                minimum: MINIMUM_QUANTITY,
                maximum: MAXIMUM_QUANTITY,
            },
        )
    } else if pdu.len() < FC03_RESPONSE_PREFIX_LENGTH {
        Err(
            Fc03ResponseError::PduTooShort {
                actual: pdu.len() as usize,
                minimum: FC03_RESPONSE_PREFIX_LENGTH,
            },
        )
    } else if pdu[0] != FC03_FUNCTION_CODE {
        Err(Fc03ResponseError::UnexpectedFunctionCode { actual: pdu[0], expected: FC03_FUNCTION_CODE })
    } else if pdu.len() != FC03_RESPONSE_PREFIX_LENGTH + pdu[1] {
        Err(
            Fc03ResponseError::PduLengthMismatch {
                actual: pdu.len() as usize,
                expected: (FC03_RESPONSE_PREFIX_LENGTH + pdu[1]) as usize,
            },
        )
    } else if pdu[1] % 2 != 0 {
        Err(Fc03ResponseError::OddByteLength { actual: pdu[1] })
    } else if pdu[1] / 2 != expected_quantity {
        Err(
            Fc03ResponseError::RegisterCountMismatch {
                actual: (pdu[1] / 2) as u16,
                expected: expected_quantity,
            },
        )
    } else {
        Ok(registers_from_bytes(pdu.subrange(2, pdu.len() as int)))
    }
}

/// The exception code byte that stands for an exception.
pub open spec fn exception_code(e: Fc03Exception) -> u8 {
    match e {
        Fc03Exception::IllegalFunction => 0x01,
        Fc03Exception::IllegalDataAddress => 0x02,
        Fc03Exception::IllegalDataValue => 0x03,
        Fc03Exception::ServerDeviceFailure => 0x04,
    }
}

/// The exception an exception code byte stands for, if any.
pub open spec fn exception_of_code(code: u8) -> Option<Fc03Exception> {
    if code == 0x01 {
        Some(Fc03Exception::IllegalFunction)
    } else if code == 0x02 {
        Some(Fc03Exception::IllegalDataAddress)
    } else if code == 0x03 {
        Some(Fc03Exception::IllegalDataValue)
    } else if code == 0x04 {
        Some(Fc03Exception::ServerDeviceFailure)
    } else {
        None
    }
}

/// What decoding an exception reply PDU gives: exactly two bytes, the
/// exception function code, then a known exception code.
pub open spec fn decode_exception_spec(pdu: Seq<u8>) -> Result<Fc03Exception, Fc03ResponseError> {
    if pdu.len() != FC03_EXCEPTION_PDU_LENGTH {
        Err(
            Fc03ResponseError::PduLengthMismatch {
                actual: pdu.len() as usize,
                expected: FC03_EXCEPTION_PDU_LENGTH,
            },
        )
    } else if pdu[0] != FC03_EXCEPTION_FUNCTION_CODE {
        Err(
            Fc03ResponseError::UnexpectedFunctionCode {
                actual: pdu[0],
                expected: FC03_EXCEPTION_FUNCTION_CODE,
            },
        )
    } else {
        match exception_of_code(pdu[1]) {
            Some(e) => Ok(e),
            None => Err(Fc03ResponseError::UnknownExceptionCode { actual: pdu[1] }),
        }
    }
}

/// What decoding any reply PDU gives: a PDU that starts with the exception
/// function code is read as an exception reply, any other as a normal one.
pub open spec fn decode_response_spec(pdu: Seq<u8>, expected_quantity: u16) -> Result<
    Fc03Reply,
    Fc03ResponseError,
> {
    if pdu.len() > 0 && pdu[0] == FC03_EXCEPTION_FUNCTION_CODE {
        match decode_exception_spec(pdu) {
            Ok(e) => Ok(Fc03Reply::Exception(e)),
            Err(err) => Err(err),
        }
    } else {
        match decode_success_spec(pdu, expected_quantity) {
            Ok(regs) => Ok(Fc03Reply::Registers(regs)),
            Err(err) => Err(err),
        }
    }
}

/// Decodes a reply PDU, normal or exception.
pub fn decode_fc03_response(pdu: &[u8], expected_quantity: u16) -> (r: Result<
    Fc03Response,
    Fc03ResponseError,
>)
    ensures
        match r {
            Ok(resp) => decode_response_spec(pdu@, expected_quantity) == Ok::<
                Fc03Reply,
                Fc03ResponseError,
            >(resp@),
            Err(e) => decode_response_spec(pdu@, expected_quantity) == Err::<
                Fc03Reply,
                Fc03ResponseError,
            >(e),
        },
        r matches Ok(Fc03Response::Registers(v)) ==> v.len() == expected_quantity && pdu.len() == 2
            + 2 * v.len() && pdu[0] == 0x03 && pdu[1] == 2 * v.len(),
        r matches Ok(Fc03Response::Exception(_)) ==> pdu.len() == 2 && pdu[0] == 0x83,
{
    proof {
        lemma_decoded_reply_is_exact(pdu@, expected_quantity);
    }
    if pdu.len() > 0 && pdu[0] == FC03_EXCEPTION_FUNCTION_CODE {
        match decode_fc03_exception_response(pdu) {
            Ok(e) => Ok(Fc03Response::Exception(e)),
            Err(err) => Err(err),
        }
    } else {
        match decode_fc03_success_response(pdu, expected_quantity) {
            Ok(regs) => Ok(Fc03Response::Registers(regs)),
            Err(err) => Err(err),
        }
    }
}

/// Decodes a normal reply PDU into the register values it carries.
pub fn decode_fc03_success_response(pdu: &[u8], expected_quantity: u16) -> (r: Result<
    Vec<u16>,
    Fc03ResponseError,
>)
    ensures
        match r {
            Ok(regs) => decode_success_spec(pdu@, expected_quantity) == Ok::<
                Seq<u16>,
                Fc03ResponseError,
            >(regs@),
            Err(e) => decode_success_spec(pdu@, expected_quantity) == Err::<
                Seq<u16>,
                Fc03ResponseError,
            >(e),
        },
{
    if !(MINIMUM_QUANTITY <= expected_quantity && expected_quantity <= MAXIMUM_QUANTITY) {
        return Err(
            Fc03ResponseError::ExpectedQuantityOutOfRange {
                actual: expected_quantity,
                minimum: MINIMUM_QUANTITY,
                maximum: MAXIMUM_QUANTITY,
            },
        );
    }
    if pdu.len() < FC03_RESPONSE_PREFIX_LENGTH {
        return Err(
            Fc03ResponseError::PduTooShort {
                actual: pdu.len(),
                minimum: FC03_RESPONSE_PREFIX_LENGTH,
            },
        );
    }
    if pdu[0] != FC03_FUNCTION_CODE {
        return Err(
            Fc03ResponseError::UnexpectedFunctionCode {
                actual: pdu[0],
                expected: FC03_FUNCTION_CODE,
            },
        );
    }
    let byte_count: u8 = pdu[1];
    let data_length: usize = byte_count as usize;
    let expected_pdu_length: usize = FC03_RESPONSE_PREFIX_LENGTH + data_length;
    if pdu.len() != expected_pdu_length {
        return Err(
            Fc03ResponseError::PduLengthMismatch {
                actual: pdu.len(),
                expected: expected_pdu_length,
            },
        );
    }
    if data_length % 2 != 0 {
        return Err(Fc03ResponseError::OddByteLength { actual: byte_count });
    }
    let actual_quantity: u16 = (byte_count as u16) / 2;
    if actual_quantity != expected_quantity {
        return Err(
            Fc03ResponseError::RegisterCountMismatch {
                actual: actual_quantity,
                expected: expected_quantity,
            },
        );
    }
    let count: usize = expected_quantity as usize;
    let ghost data = pdu@.subrange(2, pdu@.len() as int);
    let mut registers: Vec<u16> = Vec::with_capacity(count);
    let mut i: usize = 0;
    while i < count
        invariant
            count == expected_quantity,
            pdu@.len() == 2 + 2 * count,
            data == pdu@.subrange(2, pdu@.len() as int),
            i <= count,
            registers@.len() == i,
            forall|j: int|
                0 <= j < i ==> #[trigger] registers@[j] == be_word(data[2 * j], data[2 * j + 1]),
        decreases count - i,
    {
        let value: u16 = join_word(pdu[2 + 2 * i], pdu[3 + 2 * i]);
        registers.push(value);
        i = i + 1;
    }
    assert(registers@ =~= registers_from_bytes(data));
    Ok(registers)
}

/// Decodes an exception reply PDU into the exception it reports.
pub fn decode_fc03_exception_response(pdu: &[u8]) -> (r: Result<Fc03Exception, Fc03ResponseError>)
    ensures
        r == decode_exception_spec(pdu@),
{
    if pdu.len() != FC03_EXCEPTION_PDU_LENGTH {
        return Err(
            Fc03ResponseError::PduLengthMismatch {
                actual: pdu.len(),
                expected: FC03_EXCEPTION_PDU_LENGTH,
            },
        );
    }
    if pdu[0] != FC03_EXCEPTION_FUNCTION_CODE {
        return Err(
            Fc03ResponseError::UnexpectedFunctionCode {
                actual: pdu[0],
                expected: FC03_EXCEPTION_FUNCTION_CODE,
            },
        );
    }
    match pdu[1] {
        0x01 => Ok(Fc03Exception::IllegalFunction),
        0x02 => Ok(Fc03Exception::IllegalDataAddress),
        0x03 => Ok(Fc03Exception::IllegalDataValue),
        0x04 => Ok(Fc03Exception::ServerDeviceFailure),
        actual => Err(Fc03ResponseError::UnknownExceptionCode { actual }),
    }
}

// ---------------------------------------------------------------------------
// Laws
// ---------------------------------------------------------------------------

proof fn lemma_registers_from_register_bytes(registers: Seq<u16>)
    ensures
        registers_from_bytes(register_bytes(registers)) =~= registers,
{
    let data = register_bytes(registers);
    assert forall|i: int| 0 <= i < registers.len() implies #[trigger] registers_from_bytes(
        data,
    )[i] == registers[i] by {
        assert((2 * i) % 2 == 0 && (2 * i) / 2 == i);
        assert((2 * i + 1) % 2 == 1 && (2 * i + 1) / 2 == i);
        lemma_be_word_of_bytes(registers[i]);
    }
}

proof fn lemma_register_bytes_of_registers(data: Seq<u8>)
    requires
        data.len() % 2 == 0,
    ensures
        register_bytes(registers_from_bytes(data)) =~= data,
{
    let regs = registers_from_bytes(data);
    assert forall|i: int| 0 <= i < data.len() implies #[trigger] register_bytes(regs)[i]
        == data[i] by {
        let k = i / 2;
        lemma_bytes_of_be_word(data[2 * k], data[2 * k + 1]);
        if i % 2 == 0 {
            assert(i == 2 * k);
        } else {
            assert(i == 2 * k + 1);
        }
    }
}

/// Decoding the normal reply that carries 1 to 125 register values, with
/// that count expected, gives exactly those values back.
pub proof fn lemma_success_reply_roundtrip(registers: Seq<u16>)
    requires
        MINIMUM_QUANTITY <= registers.len() <= MAXIMUM_QUANTITY,
    ensures
        decode_success_spec(fc03_response_pdu(registers), registers.len() as u16) == Ok::<
            Seq<u16>,
            Fc03ResponseError,
        >(registers),
        decode_response_spec(fc03_response_pdu(registers), registers.len() as u16) == Ok::<
            Fc03Reply,
            Fc03ResponseError,
        >(Fc03Reply::Registers(registers)),
{
    let pdu = fc03_response_pdu(registers);
    assert(pdu.subrange(2, pdu.len() as int) =~= register_bytes(registers));
    lemma_registers_from_register_bytes(registers);
}

/// A normal reply is accepted in one form only: a PDU that decodes to a list
/// of register values has as many values as were expected, and is exactly
/// the reply PDU that carries them.
pub proof fn lemma_success_reply_canonical(pdu: Seq<u8>, expected_quantity: u16)
    requires
        decode_success_spec(pdu, expected_quantity) is Ok,
    ensures
        ({
            let registers = decode_success_spec(pdu, expected_quantity)->Ok_0;
            &&& registers.len() == expected_quantity
            &&& pdu == fc03_response_pdu(registers)
        }),
{
    let data = pdu.subrange(2, pdu.len() as int);
    let registers = registers_from_bytes(data);
    lemma_register_bytes_of_registers(data);
    assert(pdu =~= seq![pdu[0], pdu[1]] + data);
    assert(pdu =~= fc03_response_pdu(registers));
}

/// Decoding the two-byte exception reply for an exception gives that
/// exception back, whatever register count was expected.
pub proof fn lemma_exception_reply_roundtrip(e: Fc03Exception, expected_quantity: u16)
    ensures
        decode_exception_spec(seq![FC03_EXCEPTION_FUNCTION_CODE, exception_code(e)]) == Ok::<
            Fc03Exception,
            Fc03ResponseError,
        >(e),
        decode_response_spec(seq![FC03_EXCEPTION_FUNCTION_CODE, exception_code(e)], expected_quantity)
            == Ok::<Fc03Reply, Fc03ResponseError>(Fc03Reply::Exception(e)),
{
}

/// An exception reply is accepted in one form only: a PDU that decodes to an
/// exception is the exception function code followed by that exception's code.
pub proof fn lemma_exception_reply_canonical(pdu: Seq<u8>)
    requires
        decode_exception_spec(pdu) is Ok,
    ensures
        pdu == seq![FC03_EXCEPTION_FUNCTION_CODE, exception_code(decode_exception_spec(pdu)->Ok_0)],
{
    assert(pdu =~= seq![FC03_EXCEPTION_FUNCTION_CODE, exception_code(decode_exception_spec(pdu)->Ok_0)]);
}

/// Building a request succeeds exactly when 1 to 125 registers are asked for
/// and the last of them, start + quantity - 1, is at most 0xFFFF.  A count
/// out of range is reported first; otherwise the overflowing block.
pub proof fn lemma_request_validity(start_address: u16, quantity: u16)
    ensures
        request_error(start_address, quantity) is None <==> (1 <= quantity <= 125
            && start_address as int + quantity as int - 1 <= 0xFFFF),
        !(1 <= quantity <= 125) ==> request_error(start_address, quantity) == Some(
            Fc03Error::QuantityOutOfRange { actual: quantity, minimum: 1, maximum: 125 },
        ),
        (1 <= quantity <= 125 && start_address as int + quantity as int - 1 > 0xFFFF)
            ==> request_error(start_address, quantity) == Some(
            Fc03Error::AddressRangeOverflow { start_address, quantity },
        ),
{
}

/// The request PDU is five bytes: 0x03, then the start address and the
/// quantity, each as two bytes with the most significant first.
pub proof fn lemma_request_pdu_layout(start_address: u16, quantity: u16)
    ensures
        ({
            let p = request_pdu(start_address, quantity);
            &&& p.len() == 5
            &&& p[0] == 0x03
            &&& p[1] as int * 256 + p[2] as int == start_address as int
            &&& p[3] as int * 256 + p[4] as int == quantity as int
        }),
{
}

/// A reply PDU decodes to register values only when it is exactly a normal
/// reply for the expected count: 0x03, a byte count of twice that count,
/// and that many bytes, no more, read two at a time most significant first.
/// It decodes to an exception only when it is exactly 0x83 followed by the
/// exception's code.
pub proof fn lemma_decoded_reply_is_exact(pdu: Seq<u8>, expected_quantity: u16)
    ensures
        decode_response_spec(pdu, expected_quantity) matches Ok(Fc03Reply::Registers(r)) ==> {
            &&& 1 <= expected_quantity <= 125
            &&& r.len() == expected_quantity
            &&& pdu.len() == 2 + 2 * r.len()
            &&& pdu[0] == 0x03
            &&& pdu[1] == 2 * r.len()
            &&& forall|i: int|
                0 <= i < r.len() ==> #[trigger] r[i] as int == pdu[2 + 2 * i] as int * 256 + pdu[3
                    + 2 * i] as int
        },
        decode_response_spec(pdu, expected_quantity) matches Ok(Fc03Reply::Exception(e)) ==> {
            &&& pdu.len() == 2
            &&& pdu[0] == 0x83
            &&& pdu[1] == match e {
                Fc03Exception::IllegalFunction => 1u8,
                Fc03Exception::IllegalDataAddress => 2u8,
                Fc03Exception::IllegalDataValue => 3u8,
                Fc03Exception::ServerDeviceFailure => 4u8,
            }
        },
{
    if let Ok(Fc03Reply::Registers(r)) = decode_response_spec(pdu, expected_quantity) {
        let data = pdu.subrange(2, pdu.len() as int);
        assert forall|i: int| 0 <= i < r.len() implies #[trigger] r[i] as int == pdu[2 + 2 * i] as int
            * 256 + pdu[3 + 2 * i] as int by {
            assert(data[2 * i] == pdu[2 + 2 * i]);
            assert(data[2 * i + 1] == pdu[3 + 2 * i]);
        }
    }
}

/// Every well-formed normal reply is accepted: 0x03, a byte count of twice
/// the expected count q (1 to 125), and exactly 2q data bytes decode to the q
/// words those bytes carry, most significant byte first.
pub proof fn lemma_well_formed_reply_accepted(pdu: Seq<u8>, expected_quantity: u16)
    requires
        1 <= expected_quantity <= 125,
        pdu.len() == 2 + 2 * expected_quantity,
        pdu[0] == 0x03,
        pdu[1] == 2 * expected_quantity,
    ensures
        decode_response_spec(pdu, expected_quantity) matches Ok(Fc03Reply::Registers(r)) && r.len()
            == expected_quantity && forall|i: int|
            0 <= i < r.len() ==> #[trigger] r[i] as int == pdu[2 + 2 * i] as int * 256 + pdu[3 + 2
                * i] as int,
{
    lemma_decoded_reply_is_exact(pdu, expected_quantity);
}

/// Every well-formed exception reply is accepted: 0x83 followed by a code
/// from 1 to 4 decodes to the exception with that code, whatever register
/// count was expected.
pub proof fn lemma_well_formed_exception_accepted(code: u8, expected_quantity: u16)
    requires
        1 <= code <= 4,
    ensures
        decode_response_spec(seq![0x83u8, code], expected_quantity) matches Ok(
            Fc03Reply::Exception(e),
        ) && code == match e {
            Fc03Exception::IllegalFunction => 1u8,
            Fc03Exception::IllegalDataAddress => 2u8,
            Fc03Exception::IllegalDataValue => 3u8,
            Fc03Exception::ServerDeviceFailure => 4u8,
        },
{
}

/// The normal-reply decoder accepts exactly the well-formed normal replies
/// for the expected count q (1 to 125): 0x03, the byte count 2q, and exactly
/// 2q bytes after it; it gives the q words those bytes carry, most
/// significant byte first.
pub proof fn lemma_success_decoder_exact(pdu: Seq<u8>, expected_quantity: u16)
    ensures
        decode_success_spec(pdu, expected_quantity) is Ok <==> (1 <= expected_quantity <= 125
            && pdu.len() == 2 + 2 * expected_quantity && pdu[0] == 0x03 && pdu[1] == 2
            * expected_quantity),
        decode_success_spec(pdu, expected_quantity) matches Ok(r) ==> r.len() == expected_quantity
            && forall|i: int|
            0 <= i < r.len() ==> #[trigger] r[i] as int == pdu[2 + 2 * i] as int * 256 + pdu[3 + 2
                * i] as int,
{
    if decode_success_spec(pdu, expected_quantity) is Ok {
        let r = decode_success_spec(pdu, expected_quantity)->Ok_0;
        let data = pdu.subrange(2, pdu.len() as int);
        assert forall|i: int| 0 <= i < r.len() implies #[trigger] r[i] as int == pdu[2 + 2 * i] as int
            * 256 + pdu[3 + 2 * i] as int by {
            assert(data[2 * i] == pdu[2 + 2 * i]);
            assert(data[2 * i + 1] == pdu[3 + 2 * i]);
        }
    }
}

/// How the normal-reply decoder fails; the first failing check decides:
/// the expected count, then the two-byte prefix, the function code, the
/// length the byte count declares, its parity, and the register count.
pub proof fn lemma_success_decoder_errors(pdu: Seq<u8>, q: u16)
    ensures
        !(1 <= q <= 125) ==> decode_success_spec(pdu, q) == Err::<Seq<u16>, Fc03ResponseError>(
            Fc03ResponseError::ExpectedQuantityOutOfRange { actual: q, minimum: 1, maximum: 125 },
        ),
        1 <= q <= 125 && pdu.len() < 2 ==> decode_success_spec(pdu, q) == Err::<
            Seq<u16>,
            Fc03ResponseError,
        >(Fc03ResponseError::PduTooShort { actual: pdu.len() as usize, minimum: 2 }),
        1 <= q <= 125 && pdu.len() >= 2 && pdu[0] != 0x03 ==> decode_success_spec(pdu, q) == Err::<
            Seq<u16>,
            Fc03ResponseError,
        >(Fc03ResponseError::UnexpectedFunctionCode { actual: pdu[0], expected: 0x03 }),
        1 <= q <= 125 && pdu.len() >= 2 && pdu[0] == 0x03 && pdu.len() != 2 + pdu[1]
            ==> decode_success_spec(pdu, q) == Err::<Seq<u16>, Fc03ResponseError>(
            Fc03ResponseError::PduLengthMismatch {
                actual: pdu.len() as usize,
                expected: (2 + pdu[1]) as usize,
            },
        ),
        1 <= q <= 125 && pdu.len() >= 2 && pdu[0] == 0x03 && pdu.len() == 2 + pdu[1] && pdu[1] % 2
            == 1 ==> decode_success_spec(pdu, q) == Err::<Seq<u16>, Fc03ResponseError>(
            Fc03ResponseError::OddByteLength { actual: pdu[1] },
        ),
        1 <= q <= 125 && pdu.len() >= 2 && pdu[0] == 0x03 && pdu.len() == 2 + pdu[1] && pdu[1] % 2
            == 0 && pdu[1] / 2 != q ==> decode_success_spec(pdu, q) == Err::<
            Seq<u16>,
            Fc03ResponseError,
        >(Fc03ResponseError::RegisterCountMismatch { actual: (pdu[1] / 2) as u16, expected: q }),
{
}

/// The exception-reply decoder accepts exactly 0x83 followed by a code from
/// 1 to 4 and gives the exception with that code; otherwise, first failing
/// check deciding, it reports a length other than two, a function code other
/// than 0x83, or the unknown code.
pub proof fn lemma_exception_decoder_exact(pdu: Seq<u8>)
    ensures
        decode_exception_spec(pdu) is Ok <==> (pdu.len() == 2 && pdu[0] == 0x83 && 1 <= pdu[1] <= 4),
        decode_exception_spec(pdu) matches Ok(e) ==> pdu[1] == match e {
            Fc03Exception::IllegalFunction => 1u8,
            Fc03Exception::IllegalDataAddress => 2u8,
            Fc03Exception::IllegalDataValue => 3u8,
            Fc03Exception::ServerDeviceFailure => 4u8,
        },
        pdu.len() != 2 ==> decode_exception_spec(pdu) == Err::<Fc03Exception, Fc03ResponseError>(
            Fc03ResponseError::PduLengthMismatch { actual: pdu.len() as usize, expected: 2 },
        ),
        pdu.len() == 2 && pdu[0] != 0x83 ==> decode_exception_spec(pdu) == Err::<
            Fc03Exception,
            Fc03ResponseError,
        >(Fc03ResponseError::UnexpectedFunctionCode { actual: pdu[0], expected: 0x83 }),
        pdu.len() == 2 && pdu[0] == 0x83 && !(1 <= pdu[1] <= 4) ==> decode_exception_spec(pdu)
            == Err::<Fc03Exception, Fc03ResponseError>(
            Fc03ResponseError::UnknownExceptionCode { actual: pdu[1] },
        ),
{
}

/// The reply decoder reads a PDU that starts with 0x83 as an exception reply
/// and any other as a normal reply, and fails as that decoder fails.
pub proof fn lemma_reply_decoder_dispatch(pdu: Seq<u8>, q: u16)
    ensures
        pdu.len() > 0 && pdu[0] == 0x83 ==> match decode_response_spec(pdu, q) {
            Ok(reply) => decode_exception_spec(pdu) matches Ok(e) && reply == Fc03Reply::Exception(
                e,
            ),
            Err(err) => decode_exception_spec(pdu) == Err::<Fc03Exception, Fc03ResponseError>(err),
        },
        !(pdu.len() > 0 && pdu[0] == 0x83) ==> match decode_response_spec(pdu, q) {
            Ok(reply) => decode_success_spec(pdu, q) matches Ok(r) && reply == Fc03Reply::Registers(
                r,
            ),
            Err(err) => decode_success_spec(pdu, q) == Err::<Seq<u16>, Fc03ResponseError>(err),
        },
{
}

} // verus!

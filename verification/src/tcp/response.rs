//! Validation of a Modbus TCP response frame (ADU) and its correlation with
//! the request it answers, then decoding of the function 0x03 reply it holds.
use crate::bytes::{be_word, join_word, lemma_be_word_of_bytes};
use crate::function::read_holding_registers::{
    decode_fc03_response, decode_response_spec, exception_code, fc03_response_pdu,
    lemma_decoded_reply_is_exact, lemma_exception_reply_roundtrip, lemma_success_reply_roundtrip, request_error, request_pdu,
    Fc03Exception, Fc03Reply, Fc03Response, Fc03ResponseError, FC03_EXCEPTION_FUNCTION_CODE,
    MAXIMUM_QUANTITY, MINIMUM_QUANTITY,
};
use crate::tcp::mbap::{mbap_header_bytes, mbap_length_spec, MBAP_HEADER_LEN, MAX_PDU_LEN, MIN_PDU_LEN};
use crate::tcp::request::fc03_request_adu;
use vstd::prelude::*;

verus! {

/// Why a response frame is refused.
#[allow(inconsistent_fields)]
#[derive(Debug, Clone, Copy, PartialEq, Eq)]
pub enum TcpResponseError {
    HeaderTooShort { actual: usize, minimum: usize },
    UnsupportedProtocolId { actual: u16, expected: u16 },
    InvalidLength { actual: u16, minimum: u16, maximum: u16 },
    AduLengthMismatch { actual: usize, expected: usize },
    TransactionIdMismatch { actual: u16, expected: u16 },
    UnitIdMismatch { actual: u8, expected: u8 },
}

/// Why a function 0x03 response frame is refused: by the frame, or by the
/// PDU inside it.
#[derive(Debug, Clone, Copy, PartialEq, Eq)]
pub enum Fc03TcpResponseError {
    Frame(TcpResponseError),
    Pdu(Fc03ResponseError),
}

pub const MIN_MBAP_LENGTH: u16 = 2;

pub const MAX_MBAP_LENGTH: u16 = 254;

pub const MBAP_LENGTH_PREFIX_LEN: usize = 6;

pub const MODBUS_TCP_PROTOCOL_ID: u16 = 0x0000;

/// What validating a response frame gives, checks in order: a whole header,
/// protocol id 0, a length field in 2..=254, a frame length that matches it,
/// then the transaction id and the unit id of the request.  A frame that
/// passes gives the PDU that follows the header.
pub open spec fn decode_adu_spec(adu: Seq<u8>, expected_transaction_id: u16, expected_unit_id: u8) -> Result<
    Seq<u8>,
    TcpResponseError,
> {
    if adu.len() < MBAP_HEADER_LEN {
        Err(TcpResponseError::HeaderTooShort { actual: adu.len() as usize, minimum: MBAP_HEADER_LEN })
    } else if be_word(adu[2], adu[3]) != MODBUS_TCP_PROTOCOL_ID {
        Err(
            TcpResponseError::UnsupportedProtocolId {
                actual: be_word(adu[2], adu[3]),
                expected: MODBUS_TCP_PROTOCOL_ID,
            },
        )
    } else if !(MIN_MBAP_LENGTH <= be_word(adu[4], adu[5]) <= MAX_MBAP_LENGTH) {
        Err(
            TcpResponseError::InvalidLength {
                actual: be_word(adu[4], adu[5]),
                minimum: MIN_MBAP_LENGTH,
                maximum: MAX_MBAP_LENGTH,
            },
        )
    } else if adu.len() != MBAP_LENGTH_PREFIX_LEN + be_word(adu[4], adu[5]) {
        Err(
            TcpResponseError::AduLengthMismatch {
                actual: adu.len() as usize,
                expected: (MBAP_LENGTH_PREFIX_LEN + be_word(adu[4], adu[5])) as usize,
            },
        )
    } else if be_word(adu[0], adu[1]) != expected_transaction_id {
        Err(
            TcpResponseError::TransactionIdMismatch {
                actual: be_word(adu[0], adu[1]),
                expected: expected_transaction_id,
            },
        )
    } else if adu[6] != expected_unit_id {
        Err(TcpResponseError::UnitIdMismatch { actual: adu[6], expected: expected_unit_id })
    } else {
        Ok(adu.subrange(MBAP_HEADER_LEN as int, adu.len() as int))
    }
}

/// What decoding a function 0x03 response frame gives: frame errors first,
/// then whatever decoding the PDU inside gives.
pub open spec fn decode_fc03_adu_spec(
    adu: Seq<u8>,
    expected_transaction_id: u16,
    expected_unit_id: u8,
    expected_quantity: u16,
) -> Result<Fc03Reply, Fc03TcpResponseError> {
    match decode_adu_spec(adu, expected_transaction_id, expected_unit_id) {
        Err(e) => Err(Fc03TcpResponseError::Frame(e)),
        Ok(pdu) => match decode_response_spec(pdu, expected_quantity) {
            Ok(reply) => Ok(reply),
            Err(e) => Err(Fc03TcpResponseError::Pdu(e)),
        },
    }
}

/// Validates a complete response frame, checks that it answers the given
/// transaction and unit, and hands back the PDU it carries.
pub fn decode_response_adu<'a>(
    adu: &'a [u8],
    expected_transaction_id: u16,
    expected_unit_id: u8,
) -> (r: Result<&'a [u8], TcpResponseError>)
    ensures
        match r {
            Ok(pdu) => decode_adu_spec(adu@, expected_transaction_id, expected_unit_id) == Ok::<
                Seq<u8>,
                TcpResponseError,
            >(pdu@),
            Err(e) => decode_adu_spec(adu@, expected_transaction_id, expected_unit_id) == Err::<
                Seq<u8>,
                TcpResponseError,
            >(e),
        },
        r matches Ok(pdu) ==> {
            &&& adu.len() >= 7
            &&& adu[0] as int * 256 + adu[1] as int == expected_transaction_id as int
            &&& adu[2] == 0 && adu[3] == 0
            &&& adu[4] as int * 256 + adu[5] as int == adu.len() - 6
            &&& 2 <= adu.len() - 6 <= 254
            &&& adu[6] == expected_unit_id
            &&& pdu@ == adu@.subrange(7, adu.len() as int)
        },
{
    proof {
        lemma_accepted_frame_is_exact(adu@, expected_transaction_id, expected_unit_id);
    }
    if adu.len() < MBAP_HEADER_LEN {
        return Err(TcpResponseError::HeaderTooShort { actual: adu.len(), minimum: MBAP_HEADER_LEN });
    }
    let protocol_id: u16 = join_word(adu[2], adu[3]);
    if protocol_id != MODBUS_TCP_PROTOCOL_ID {
        return Err(
            TcpResponseError::UnsupportedProtocolId {
                actual: protocol_id,
                expected: MODBUS_TCP_PROTOCOL_ID,
            },
        );
    }
    let length: u16 = join_word(adu[4], adu[5]);
    if !(MIN_MBAP_LENGTH <= length && length <= MAX_MBAP_LENGTH) {
        return Err(
            TcpResponseError::InvalidLength {
                actual: length,
                minimum: MIN_MBAP_LENGTH,
                maximum: MAX_MBAP_LENGTH,
            },
        );
    }
    let expected_total_adu_len: usize = MBAP_LENGTH_PREFIX_LEN + length as usize;
    if adu.len() != expected_total_adu_len {
        return Err(
            TcpResponseError::AduLengthMismatch {
                actual: adu.len(),
                expected: expected_total_adu_len,
            },
        );
    }
    let transaction_id: u16 = join_word(adu[0], adu[1]);
    if transaction_id != expected_transaction_id {
        return Err(
            TcpResponseError::TransactionIdMismatch {
                actual: transaction_id,
                expected: expected_transaction_id,
            },
        );
    }
    let unit_id: u8 = adu[6];
    if unit_id != expected_unit_id {
        return Err(TcpResponseError::UnitIdMismatch { actual: unit_id, expected: expected_unit_id });
    }
    let (_header, pdu) = adu.split_at(MBAP_HEADER_LEN);
    Ok(pdu)
}

/// Validates a response frame and decodes the function 0x03 reply it holds.
pub fn decode_fc03_response_adu(
    adu: &[u8],
    expected_transaction_id: u16,
    expected_unit_id: u8,
    expected_quantity: u16,
) -> (r: Result<Fc03Response, Fc03TcpResponseError>)
    ensures
        match r {
            Ok(resp) => decode_fc03_adu_spec(
                adu@,
                expected_transaction_id,
                expected_unit_id,
                expected_quantity,
            ) == Ok::<Fc03Reply, Fc03TcpResponseError>(resp@),
            Err(e) => decode_fc03_adu_spec(
                adu@,
                expected_transaction_id,
                expected_unit_id,
                expected_quantity,
            ) == Err::<Fc03Reply, Fc03TcpResponseError>(e),
        },
        r is Ok ==> {
            &&& adu.len() >= 9
            &&& adu[0] as int * 256 + adu[1] as int == expected_transaction_id as int
            &&& adu[2] == 0 && adu[3] == 0
            &&& adu[4] as int * 256 + adu[5] as int == adu.len() - 6
            &&& adu[6] == expected_unit_id
        },
        r matches Ok(Fc03Response::Registers(v)) ==> v.len() == expected_quantity && adu.len() == 9
            + 2 * v.len(),
{
    proof {
        lemma_decoded_fc03_frame_is_exact(
            adu@,
            expected_transaction_id,
            expected_unit_id,
            expected_quantity,
        );
    }
    let pdu = match decode_response_adu(adu, expected_transaction_id, expected_unit_id) {
        Ok(pdu) => pdu,
        Err(e) => return Err(Fc03TcpResponseError::Frame(e)),
    };
    match decode_fc03_response(pdu, expected_quantity) {
        Ok(resp) => Ok(resp),
        Err(e) => Err(Fc03TcpResponseError::Pdu(e)),
    }
}

// ---------------------------------------------------------------------------
// Laws
// ---------------------------------------------------------------------------

/// A PDU of 1 to 253 bytes, framed with the header length that
/// `pdu_len_to_mbap_len` gives and protocol id 0, passes frame validation
/// for its own transaction and unit, which hands that PDU back.
pub proof fn lemma_frame_roundtrip(transaction_id: u16, unit_id: u8, pdu: Seq<u8>)
    requires
        MIN_PDU_LEN <= pdu.len() <= MAX_PDU_LEN,
    ensures
        mbap_length_spec(pdu.len() as usize) is Ok,
        decode_adu_spec(
            mbap_header_bytes(transaction_id, mbap_length_spec(pdu.len() as usize)->Ok_0, unit_id)
                + pdu,
            transaction_id,
            unit_id,
        ) == Ok::<Seq<u8>, TcpResponseError>(pdu),
{
    let length = mbap_length_spec(pdu.len() as usize)->Ok_0;
    let adu = mbap_header_bytes(transaction_id, length, unit_id) + pdu;
    lemma_be_word_of_bytes(transaction_id);
    lemma_be_word_of_bytes(length);
    lemma_be_word_of_bytes(0);
    assert(be_word(adu[2], adu[3]) == 0);
    assert(be_word(adu[4], adu[5]) == length);
    assert(be_word(adu[0], adu[1]) == transaction_id);
    assert(adu.subrange(MBAP_HEADER_LEN as int, adu.len() as int) =~= pdu);
}

/// A frame is accepted in one form only: a frame that passes validation is
/// the header for its transaction, unit and PDU length, followed by a PDU of
/// 1 to 253 bytes.
pub proof fn lemma_frame_canonical(adu: Seq<u8>, expected_transaction_id: u16, expected_unit_id: u8)
    requires
        decode_adu_spec(adu, expected_transaction_id, expected_unit_id) is Ok,
    ensures
        ({
            let pdu = decode_adu_spec(adu, expected_transaction_id, expected_unit_id)->Ok_0;
            &&& MIN_PDU_LEN <= pdu.len() <= MAX_PDU_LEN
            &&& mbap_length_spec(pdu.len() as usize) is Ok
            &&& adu == mbap_header_bytes(
                expected_transaction_id,
                mbap_length_spec(pdu.len() as usize)->Ok_0,
                expected_unit_id,
            ) + pdu
        }),
{
    let pdu = adu.subrange(MBAP_HEADER_LEN as int, adu.len() as int);
    let length = be_word(adu[4], adu[5]);
    crate::bytes::lemma_bytes_of_be_word(adu[0], adu[1]);
    crate::bytes::lemma_bytes_of_be_word(adu[2], adu[3]);
    crate::bytes::lemma_bytes_of_be_word(adu[4], adu[5]);
    assert(adu[2] == 0 && adu[3] == 0);
    assert(adu =~= mbap_header_bytes(expected_transaction_id, length, expected_unit_id) + pdu);
}

/// The request frame that `assemble_fc03_request` builds passes frame
/// validation for its own transaction and unit, which hands back the
/// request PDU.
pub proof fn lemma_request_frame_accepted(
    transaction_id: u16,
    unit_id: u8,
    start_address: u16,
    quantity: u16,
)
    requires
        request_error(start_address, quantity) is None,
    ensures
        decode_adu_spec(
            fc03_request_adu(transaction_id, unit_id, start_address, quantity),
            transaction_id,
            unit_id,
        ) == Ok::<Seq<u8>, TcpResponseError>(request_pdu(start_address, quantity)),
{
    let pdu = request_pdu(start_address, quantity);
    lemma_frame_roundtrip(transaction_id, unit_id, pdu);
}

/// Decoding the frame of a normal reply that carries 1 to 125 register
/// values, for its own transaction and unit and with that count expected,
/// gives exactly those values back.
pub proof fn lemma_fc03_reply_frame_roundtrip(transaction_id: u16, unit_id: u8, registers: Seq<u16>)
    requires
        MINIMUM_QUANTITY <= registers.len() <= MAXIMUM_QUANTITY,
    ensures
        decode_fc03_adu_spec(
            mbap_header_bytes(transaction_id, (2 * registers.len() + 3) as u16, unit_id)
                + fc03_response_pdu(registers),
            transaction_id,
            unit_id,
            registers.len() as u16,
        ) == Ok::<Fc03Reply, Fc03TcpResponseError>(Fc03Reply::Registers(registers)),
{
    let pdu = fc03_response_pdu(registers);
    lemma_frame_roundtrip(transaction_id, unit_id, pdu);
    lemma_success_reply_roundtrip(registers);
}

/// Decoding the frame of an exception reply, for its own transaction and
/// unit, gives that exception back, whatever register count was expected.
pub proof fn lemma_fc03_exception_frame_roundtrip(
    transaction_id: u16,
    unit_id: u8,
    e: Fc03Exception,
    expected_quantity: u16,
)
    ensures
        decode_fc03_adu_spec(
            mbap_header_bytes(transaction_id, 3, unit_id) + seq![
                FC03_EXCEPTION_FUNCTION_CODE,
                exception_code(e),
            ],
            transaction_id,
            unit_id,
            expected_quantity,
        ) == Ok::<Fc03Reply, Fc03TcpResponseError>(Fc03Reply::Exception(e)),
{
    let pdu = seq![FC03_EXCEPTION_FUNCTION_CODE, exception_code(e)];
    lemma_frame_roundtrip(transaction_id, unit_id, pdu);
    lemma_exception_reply_roundtrip(e, expected_quantity);
}

/// A frame passes validation only when it is whole and answers the request:
/// at least the seven header bytes, the transaction id expected (most
/// significant byte first), protocol id 0, a length field of 2 to 254 that
/// counts exactly the bytes after it (unit id and PDU, nothing more), and the
/// unit id expected.  What it hands back is everything after the header.
pub proof fn lemma_accepted_frame_is_exact(
    adu: Seq<u8>,
    expected_transaction_id: u16,
    expected_unit_id: u8,
)
    ensures
        decode_adu_spec(adu, expected_transaction_id, expected_unit_id) matches Ok(pdu) ==> {
            &&& adu.len() >= 7
            &&& adu[0] as int * 256 + adu[1] as int == expected_transaction_id as int
            &&& adu[2] == 0 && adu[3] == 0
            &&& adu[4] as int * 256 + adu[5] as int == adu.len() - 6
            &&& 2 <= adu.len() - 6 <= 254
            &&& adu[6] == expected_unit_id
            &&& pdu == adu.subrange(7, adu.len() as int)
        },
{
    if decode_adu_spec(adu, expected_transaction_id, expected_unit_id) is Ok {
        crate::bytes::lemma_bytes_of_be_word(adu[2], adu[3]);
    }
}

/// Every whole frame that answers the request is accepted: the expected
/// transaction id, protocol id 0, a length field of 2 to 254 counting
/// exactly the bytes after it, and the expected unit id hand back the bytes
/// after the header.
pub proof fn lemma_well_formed_frame_accepted(
    adu: Seq<u8>,
    expected_transaction_id: u16,
    expected_unit_id: u8,
)
    requires
        9 <= adu.len() <= 260,
        adu[0] as int * 256 + adu[1] as int == expected_transaction_id as int,
        adu[2] == 0 && adu[3] == 0,
        adu[4] as int * 256 + adu[5] as int == adu.len() - 6,
        adu[6] == expected_unit_id,
    ensures
        decode_adu_spec(adu, expected_transaction_id, expected_unit_id) == Ok::<
            Seq<u8>,
            TcpResponseError,
        >(adu.subrange(7, adu.len() as int)),
{
}

/// A function 0x03 response frame decodes to a reply only when it passes
/// frame validation for the expected transaction and unit (so it is the
/// header with length field = PDU length + 1 followed by the PDU, and
/// nothing more), and the reply is what the PDU after the header decodes to.
/// Register values come only from 0x03, a byte count of twice the expected
/// count, and those words, most significant byte first; an exception only
/// from 0x83 and its code.
pub proof fn lemma_decoded_fc03_frame_is_exact(
    adu: Seq<u8>,
    expected_transaction_id: u16,
    expected_unit_id: u8,
    expected_quantity: u16,
)
    ensures
        decode_fc03_adu_spec(adu, expected_transaction_id, expected_unit_id, expected_quantity) is Ok
            ==> {
            &&& decode_adu_spec(adu, expected_transaction_id, expected_unit_id) is Ok
            &&& adu.len() >= 9
            &&& adu[0] as int * 256 + adu[1] as int == expected_transaction_id as int
            &&& adu[2] == 0 && adu[3] == 0
            &&& adu[4] as int * 256 + adu[5] as int == adu.len() - 6
            &&& adu[6] == expected_unit_id
            &&& decode_response_spec(adu.subrange(7, adu.len() as int), expected_quantity) == Ok::<
                Fc03Reply,
                Fc03ResponseError,
            >(
                decode_fc03_adu_spec(
                    adu,
                    expected_transaction_id,
                    expected_unit_id,
                    expected_quantity,
                )->Ok_0,
            )
        },
        decode_fc03_adu_spec(adu, expected_transaction_id, expected_unit_id, expected_quantity) matches Ok(
            Fc03Reply::Registers(r),
        ) ==> {
            &&& r.len() == expected_quantity
            &&& adu.len() == 9 + 2 * r.len()
            &&& adu[7] == 0x03
            &&& adu[8] == 2 * r.len()
            &&& forall|i: int|
                0 <= i < r.len() ==> #[trigger] r[i] as int == adu[9 + 2 * i] as int * 256 + adu[10
                    + 2 * i] as int
        },
        decode_fc03_adu_spec(adu, expected_transaction_id, expected_unit_id, expected_quantity) matches Ok(
            Fc03Reply::Exception(_),
        ) ==> adu.len() == 9 && adu[7] == 0x83,
{
    lemma_accepted_frame_is_exact(adu, expected_transaction_id, expected_unit_id);
    if let Ok(pdu) = decode_adu_spec(adu, expected_transaction_id, expected_unit_id) {
        lemma_decoded_reply_is_exact(pdu, expected_quantity);
        if let Ok(Fc03Reply::Registers(r)) = decode_response_spec(pdu, expected_quantity) {
            assert forall|i: int| 0 <= i < r.len() implies #[trigger] r[i] as int == adu[9 + 2 * i] as int
                * 256 + adu[10 + 2 * i] as int by {
                assert(pdu[2 + 2 * i] == adu[9 + 2 * i]);
                assert(pdu[3 + 2 * i] == adu[10 + 2 * i]);
            }
        }
    }
}

/// How frame validation fails; the first failing check decides: a header
/// shorter than seven bytes, a protocol id other than 0, a length field
/// outside 2..=254, a frame length other than six plus the length field,
/// then the transaction id and the unit id.
pub proof fn lemma_frame_decoder_errors(adu: Seq<u8>, t: u16, u: u8)
    ensures
        adu.len() < 7 ==> decode_adu_spec(adu, t, u) == Err::<Seq<u8>, TcpResponseError>(
            TcpResponseError::HeaderTooShort { actual: adu.len() as usize, minimum: 7 },
        ),
        adu.len() >= 7 && adu[2] as int * 256 + adu[3] as int != 0 ==> decode_adu_spec(adu, t, u)
            == Err::<Seq<u8>, TcpResponseError>(
            TcpResponseError::UnsupportedProtocolId {
                actual: (adu[2] as int * 256 + adu[3] as int) as u16,
                expected: 0,
            },
        ),
        adu.len() >= 7 && adu[2] == 0 && adu[3] == 0 && !(2 <= adu[4] as int * 256 + adu[5] as int
            <= 254) ==> decode_adu_spec(adu, t, u) == Err::<Seq<u8>, TcpResponseError>(
            TcpResponseError::InvalidLength {
                actual: (adu[4] as int * 256 + adu[5] as int) as u16,
                minimum: 2,
                maximum: 254,
            },
        ),
        adu.len() >= 7 && adu[2] == 0 && adu[3] == 0 && 2 <= adu[4] as int * 256 + adu[5] as int
            <= 254 && adu.len() != 6 + adu[4] as int * 256 + adu[5] as int ==> decode_adu_spec(
            adu,
            t,
            u,
        ) == Err::<Seq<u8>, TcpResponseError>(
            TcpResponseError::AduLengthMismatch {
                actual: adu.len() as usize,
                expected: (6 + adu[4] as int * 256 + adu[5] as int) as usize,
            },
        ),
        adu.len() >= 7 && adu[2] == 0 && adu[3] == 0 && 2 <= adu[4] as int * 256 + adu[5] as int
            <= 254 && adu.len() == 6 + adu[4] as int * 256 + adu[5] as int && adu[0] as int * 256
            + adu[1] as int != t ==> decode_adu_spec(adu, t, u) == Err::<Seq<u8>, TcpResponseError>(
            TcpResponseError::TransactionIdMismatch {
                actual: (adu[0] as int * 256 + adu[1] as int) as u16,
                expected: t,
            },
        ),
        adu.len() >= 7 && adu[2] == 0 && adu[3] == 0 && 2 <= adu[4] as int * 256 + adu[5] as int
            <= 254 && adu.len() == 6 + adu[4] as int * 256 + adu[5] as int && adu[0] as int * 256
            + adu[1] as int == t && adu[6] != u ==> decode_adu_spec(adu, t, u) == Err::<
            Seq<u8>,
            TcpResponseError,
        >(TcpResponseError::UnitIdMismatch { actual: adu[6], expected: u }),
{
    if adu.len() >= 7 {
        crate::bytes::lemma_bytes_of_be_word(adu[2], adu[3]);
    }
}

/// Decoding a function 0x03 response frame reports frame errors as frame
/// errors, before looking at the PDU, and PDU errors only for frames that
/// passed validation, as the PDU inside them fails to decode.
pub proof fn lemma_fc03_frame_error_layers(adu: Seq<u8>, t: u16, u: u8, q: u16)
    ensures
        decode_adu_spec(adu, t, u) matches Err(e) ==> decode_fc03_adu_spec(adu, t, u, q) == Err::<
            Fc03Reply,
            Fc03TcpResponseError,
        >(Fc03TcpResponseError::Frame(e)),
        decode_fc03_adu_spec(adu, t, u, q) matches Err(Fc03TcpResponseError::Pdu(e)) ==> decode_adu_spec(
            adu,
            t,
            u,
        ) is Ok && decode_response_spec(adu.subrange(7, adu.len() as int), q) == Err::<
            Fc03Reply,
            Fc03ResponseError,
        >(e),
        decode_fc03_adu_spec(adu, t, u, q) matches Err(Fc03TcpResponseError::Frame(e))
            ==> decode_adu_spec(adu, t, u) == Err::<Seq<u8>, TcpResponseError>(e),
{
}

} // verus!

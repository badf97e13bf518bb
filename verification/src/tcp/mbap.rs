//! The MBAP header that frames every Modbus TCP PDU.
use crate::bytes::{be_bytes, split_word};
use vstd::prelude::*;

verus! {

/// Why no header can frame a PDU of a given length.
#[derive(Debug, Clone, Copy, PartialEq, Eq)]
pub enum MbapError {
    EmptyPdu,
    PduTooLarge { actual: usize, maximum: usize },
}

pub const MBAP_HEADER_LEN: usize = 7;

pub const MIN_PDU_LEN: usize = 1;

pub const MAX_PDU_LEN: usize = 253;

pub const UNIT_IDENTIFIER_SIZE: usize = 1;

/// The seven header bytes: transaction id, protocol id 0, length, unit id.
pub open spec fn mbap_header_bytes(transaction_id: u16, length: u16, unit_id: u8) -> Seq<u8> {
    be_bytes(transaction_id) + seq![0u8, 0u8] + be_bytes(length) + seq![unit_id]
}

/// The header's length field for a PDU of `pdu_len` bytes: the PDU plus the
/// unit identifier, for PDUs of 1 to 253 bytes.
pub open spec fn mbap_length_spec(pdu_len: usize) -> Result<u16, MbapError> {
    if pdu_len < MIN_PDU_LEN {
        Err(MbapError::EmptyPdu)
    } else if pdu_len > MAX_PDU_LEN {
        Err(MbapError::PduTooLarge { actual: pdu_len, maximum: MAX_PDU_LEN })
    } else {
        Ok((pdu_len + UNIT_IDENTIFIER_SIZE) as u16)
    }
}

/// Writes the header bytes for the given fields.
pub fn encode_mbap_header(transaction_id: u16, length: u16, unit_id: u8) -> (header: [u8; 7])
    ensures
        header@ == mbap_header_bytes(transaction_id, length, unit_id),
{
    let (tid_hi, tid_lo) = split_word(transaction_id);
    let (len_hi, len_lo) = split_word(length);
    let header: [u8; 7] = [tid_hi, tid_lo, 0, 0, len_hi, len_lo, unit_id];
    assert(header@ =~= mbap_header_bytes(transaction_id, length, unit_id));
    header
}

/// The header's length field for a PDU of `pdu_len` bytes.
pub fn pdu_len_to_mbap_len(pdu_len: usize) -> (r: Result<u16, MbapError>)
    ensures
        r == mbap_length_spec(pdu_len),
{
    if pdu_len < MIN_PDU_LEN {
        return Err(MbapError::EmptyPdu);
    }
    if pdu_len > MAX_PDU_LEN {
        return Err(MbapError::PduTooLarge { actual: pdu_len, maximum: MAX_PDU_LEN });
    }
    let mbap_len: usize = pdu_len + UNIT_IDENTIFIER_SIZE;
    Ok(mbap_len as u16)
}

/// The header that frames one PDU.
pub struct MbapHeader {
    transaction_id: u16,
    length: u16,
    unit_id: u8,
}

impl View for MbapHeader {
    /// (transaction id, length field, unit id)
    type V = (u16, u16, u8);

    closed spec fn view(&self) -> (u16, u16, u8) {
        (self.transaction_id, self.length, self.unit_id)
    }
}

impl MbapHeader {
    /// The header for a PDU of `pdu_len` bytes; fails as
    /// `pdu_len_to_mbap_len` does.
    pub fn new(transaction_id: u16, unit_id: u8, pdu_len: usize) -> (r: Result<Self, MbapError>)
        ensures
            match r {
                Ok(h) => mbap_length_spec(pdu_len) == Ok::<u16, MbapError>(h@.1) && h@.0
                    == transaction_id && h@.2 == unit_id,
                Err(e) => mbap_length_spec(pdu_len) == Err::<u16, MbapError>(e),
            },
    {
        match pdu_len_to_mbap_len(pdu_len) {
            Ok(length) => Ok(MbapHeader { transaction_id, length, unit_id }),
            Err(e) => Err(e),
        }
    }

    /// The seven header bytes.
    pub fn encode(&self) -> (header: [u8; 7])
        ensures
            header@ == mbap_header_bytes(self@.0, self@.1, self@.2),
    {
        encode_mbap_header(self.transaction_id, self.length, self.unit_id)
    }
}

/// The header is seven bytes: the transaction id (most significant byte
/// first), protocol id 0 as two zero bytes, the length field (most
/// significant byte first), then the unit id.
pub proof fn lemma_mbap_header_layout(transaction_id: u16, length: u16, unit_id: u8)
    ensures
        ({
            let h = mbap_header_bytes(transaction_id, length, unit_id);
            &&& h.len() == 7
            &&& h[0] as int * 256 + h[1] as int == transaction_id as int
            &&& h[2] == 0 && h[3] == 0
            &&& h[4] as int * 256 + h[5] as int == length as int
            &&& h[6] == unit_id
        }),
{
}

/// A PDU can be framed exactly when it has 1 to 253 bytes, and the length
/// field then counts the PDU and the unit id byte; an empty PDU and an
/// oversized one are reported as such.
pub proof fn lemma_mbap_length(pdu_len: usize)
    ensures
        mbap_length_spec(pdu_len) is Ok <==> 1 <= pdu_len <= 253,
        mbap_length_spec(pdu_len) matches Ok(length) ==> length as int == pdu_len as int + 1,
        pdu_len == 0 ==> mbap_length_spec(pdu_len) == Err::<u16, MbapError>(MbapError::EmptyPdu),
        pdu_len > 253 ==> mbap_length_spec(pdu_len) == Err::<u16, MbapError>(
            MbapError::PduTooLarge { actual: pdu_len, maximum: 253 },
        ),
{
}

} // verus!

//! Assembly of a complete Modbus TCP request frame (ADU) for function 0x03.
use crate::function::read_holding_registers::{
    lemma_request_pdu_layout, request_error, request_pdu, Fc03Error, ReadHoldingRegistersRequest,
};
use crate::tcp::mbap::{lemma_mbap_header_layout, mbap_header_bytes, MbapError, MbapHeader};
use vstd::prelude::*;

verus! {

/// Why no request frame could be assembled.
#[derive(Debug, Clone, Copy, PartialEq, Eq)]
pub enum TcpRequestError {
    Request(Fc03Error),
    Header(MbapError),
}

/// The twelve-byte request frame: the MBAP header (length 6: five PDU bytes
/// and the unit identifier) followed by the request PDU.
pub open spec fn fc03_request_adu(
    transaction_id: u16,
    unit_id: u8,
    start_address: u16,
    quantity: u16,
) -> Seq<u8> {
    mbap_header_bytes(transaction_id, 6, unit_id) + request_pdu(start_address, quantity)
}

/// Validates the requested block and frames its request PDU.  The only
/// failures are those of building the request; the header never fails.
pub fn assemble_fc03_request(
    transaction_id: u16,
    unit_id: u8,
    start_address: u16,
    quantity: u16,
) -> (r: Result<[u8; 12], TcpRequestError>)
    ensures
        r is Ok <==> request_error(start_address, quantity) is None,
        r matches Ok(adu) ==> adu@ == fc03_request_adu(
            transaction_id,
            unit_id,
            start_address,
            quantity,
        ),
        r matches Err(e) ==> request_error(start_address, quantity) matches Some(fe) && e
            == TcpRequestError::Request(fe),
{
    let request = match ReadHoldingRegistersRequest::new(start_address, quantity) {
        Ok(request) => request,
        Err(e) => return Err(TcpRequestError::Request(e)),
    };
    let pdu: [u8; 5] = request.encode();
    let header = match MbapHeader::new(transaction_id, unit_id, pdu.len()) {
        Ok(header) => header,
        Err(e) => return Err(TcpRequestError::Header(e)),
    };
    let h: [u8; 7] = header.encode();
    let adu: [u8; 12] = [h[0], h[1], h[2], h[3], h[4], h[5], h[6], pdu[0], pdu[1], pdu[2], pdu[3], pdu[4]];
    assert(adu@ =~= h@ + pdu@);
    Ok(adu)
}

/// The request frame is twelve bytes: the transaction id, protocol id 0, the
/// length field 6 (five PDU bytes and the unit id), the unit id, then 0x03,
/// the start address and the quantity, every word most significant byte
/// first.
pub proof fn lemma_request_adu_layout(
    transaction_id: u16,
    unit_id: u8,
    start_address: u16,
    quantity: u16,
)
    ensures
        ({
            let a = fc03_request_adu(transaction_id, unit_id, start_address, quantity);
            &&& a.len() == 12
            &&& a[0] as int * 256 + a[1] as int == transaction_id as int
            &&& a[2] == 0 && a[3] == 0
            &&& a[4] == 0 && a[5] == 6
            &&& a[6] == unit_id
            &&& a[7] == 0x03
            &&& a[8] as int * 256 + a[9] as int == start_address as int
            &&& a[10] as int * 256 + a[11] as int == quantity as int
        }),
{
    lemma_mbap_header_layout(transaction_id, 6, unit_id);
    lemma_request_pdu_layout(start_address, quantity);
    let h = mbap_header_bytes(transaction_id, 6, unit_id);
    let p = request_pdu(start_address, quantity);
    let a = fc03_request_adu(transaction_id, unit_id, start_address, quantity);
    assert(a == h + p);
    assert(a[4] as int * 256 + a[5] as int == 6);
}

} // verus!

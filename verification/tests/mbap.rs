use modbus::tcp::mbap::{encode_mbap_header, pdu_len_to_mbap_len, MbapError, MAX_PDU_LEN};

#[test]
fn encodes_valid_mbap_header() {
    let transaction_id = 0x1234;
    let length = 0x0006;
    let unit_id = 0x11;

    let actual = encode_mbap_header(transaction_id, length, unit_id);
    let expected: [u8; 7] = [0x12, 0x34, 0x00, 0x00, 0x00, 0x06, 0x11];

    assert_eq!(actual, expected);
}

#[test]
fn converts_valid_pdu_lengths() {
    assert_eq!(pdu_len_to_mbap_len(1), Ok(2));
    assert_eq!(pdu_len_to_mbap_len(5), Ok(6));
    assert_eq!(pdu_len_to_mbap_len(253), Ok(254));
}

#[test]
fn rejects_invalid_pdu_lengths() {
    assert_eq!(pdu_len_to_mbap_len(0), Err(MbapError::EmptyPdu));
    assert_eq!(
        pdu_len_to_mbap_len(254),
        Err(MbapError::PduTooLarge {
            actual: 254,
            maximum: MAX_PDU_LEN
        })
    )
}

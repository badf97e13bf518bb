use modbus::function::read_holding_registers::{
    decode_fc03_exception_response, decode_fc03_response, decode_fc03_success_response, Fc03Error,
    Fc03Exception, Fc03Response, Fc03ResponseError, ReadHoldingRegistersRequest,
    FC03_EXCEPTION_FUNCTION_CODE, FC03_EXCEPTION_PDU_LENGTH, FC03_FUNCTION_CODE,
    FC03_RESPONSE_PREFIX_LENGTH, MAXIMUM_QUANTITY, MINIMUM_QUANTITY,
};

#[test]
fn constructs_valid_request() -> Result<(), Fc03Error> {
    let request = ReadHoldingRegistersRequest::new(0x006b, 3)?;
    assert_eq!(request.start_address(), 0x006b);
    assert_eq!(request.quantity(), 3);
    assert_eq!(request.encode(), [0x03, 0x00, 0x6b, 0x00, 0x03]);

    Ok(())
}

#[test]
fn rejects_quantities_outside_valid_range() {
    assert_eq!(
        ReadHoldingRegistersRequest::new(0, 0).err(),
        Some(Fc03Error::QuantityOutOfRange {
            actual: 0,
            minimum: MINIMUM_QUANTITY,
            maximum: MAXIMUM_QUANTITY,
        })
    );

    assert_eq!(
        ReadHoldingRegistersRequest::new(0, 126).err(),
        Some(Fc03Error::QuantityOutOfRange {
            actual: 126,
            minimum: MINIMUM_QUANTITY,
            maximum: MAXIMUM_QUANTITY,
        })
    );
}

#[test]
fn accepts_minimum_and_maximum_quantities() {
    assert!(ReadHoldingRegistersRequest::new(0, MINIMUM_QUANTITY).is_ok());
    assert!(ReadHoldingRegistersRequest::new(0, MAXIMUM_QUANTITY).is_ok());
}

#[test]
fn validates_last_address_in_requested_range() {
    assert_eq!(
        ReadHoldingRegistersRequest::new(u16::MAX, 2).err(),
        Some(Fc03Error::AddressRangeOverflow {
            start_address: u16::MAX,
            quantity: 2,
        })
    );
    assert!(ReadHoldingRegistersRequest::new(u16::MAX, 1).is_ok());
}

#[test]
fn accepts_valid_fc03_response() {
    let pdu: [u8; 8] = [0x03, 0x06, 0x02, 0x2b, 0x00, 0x00, 0x00, 0x64];
    let expected: Result<Vec<u16>, Fc03ResponseError> = Ok(vec![0x022b, 0x0000, 0x0064]);
    let actual = decode_fc03_success_response(&pdu, 3);

    assert_eq!(actual, expected);
}

#[test]
fn rejects_empty_pdu() {
    let pdu: [u8; 0] = [];
    let expected = Err(Fc03ResponseError::PduTooShort {
        actual: pdu.len(),
        minimum: FC03_RESPONSE_PREFIX_LENGTH,
    });
    let actual = decode_fc03_success_response(&pdu, 2);
    assert_eq!(actual, expected);
}

#[test]
fn rejects_one_byte_pdu() {
    let pdu = [0x00];
    let expected = Err(Fc03ResponseError::PduTooShort {
        actual: pdu.len(),
        minimum: FC03_RESPONSE_PREFIX_LENGTH,
    });
    let actual = decode_fc03_success_response(&pdu, 2);

    assert_eq!(actual, expected);
}

#[test]
fn rejects_unexpected_fc() {
    let pdu = [0x04, 0x02, 0x00, 0x01];
    let expected = Err(Fc03ResponseError::UnexpectedFunctionCode {
        actual: pdu[0],
        expected: FC03_FUNCTION_CODE,
    });
    let actual = decode_fc03_success_response(&pdu, 1);
    assert_eq!(actual, expected);
}

#[test]
fn rejects_zero_quantity() {
    let pdu: [u8; 2] = [0x03, 0x00];
    let expected_quantity = 0;
    let expected: Result<_, Fc03ResponseError> =
        Err(Fc03ResponseError::ExpectedQuantityOutOfRange {
            actual: expected_quantity,
            minimum: MINIMUM_QUANTITY,
            maximum: MAXIMUM_QUANTITY,
        });
    let actual = decode_fc03_success_response(&pdu, expected_quantity);
    assert_eq!(actual, expected);
}

#[test]
fn rejects_upper_bound_qty_exceed() {
    let pdu = [0x03, 0x02, 0x00, 0x01];
    let expected_quantity = 126;
    let expected = Err(Fc03ResponseError::ExpectedQuantityOutOfRange {
        actual: expected_quantity,
        minimum: MINIMUM_QUANTITY,
        maximum: MAXIMUM_QUANTITY,
    });
    let actual = decode_fc03_success_response(&pdu, expected_quantity);

    assert_eq!(actual, expected);
}

#[test]
fn rejects_odd_bytes_count() {
    let pdu = [0x03, 0x03, 0x00, 0x01, 0x02];
    let expected_quantity = 1;
    let expected = Err(Fc03ResponseError::OddByteLength { actual: pdu[1] });
    let actual = decode_fc03_success_response(&pdu, expected_quantity);

    assert_eq!(actual, expected);
}

#[test]
fn rejects_pdu_length_mismatch() {
    let pdu = [0x03, 0x06, 0x02, 0x2b];
    let expected_quantity: u16 = 3;
    let expected = Err(Fc03ResponseError::PduLengthMismatch {
        actual: pdu.len(),
        expected: FC03_RESPONSE_PREFIX_LENGTH + usize::from(pdu[1]),
    });
    let actual = decode_fc03_success_response(&pdu, expected_quantity);
    assert_eq!(actual, expected);
}

#[test]
fn rejects_trailing_byte_after_declared_data() {
    let pdu = [0x03, 0x02, 0x00, 0x01, 0xff];
    let expected_quantity = 1;
    let expected = Err(Fc03ResponseError::PduLengthMismatch {
        actual: pdu.len(),
        expected: FC03_RESPONSE_PREFIX_LENGTH + usize::from(pdu[1]),
    });
    let actual = decode_fc03_success_response(&pdu, expected_quantity);
    assert_eq!(actual, expected);
}

#[test]
fn rejects_pdu_register_count_mismatch() {
    let pdu = [0x03, 0x02, 0x00, 0x01];
    let expected_quantity = 2;
    let actual = decode_fc03_success_response(&pdu, expected_quantity);
    let expected = Err(Fc03ResponseError::RegisterCountMismatch {
        actual: 1,
        expected: expected_quantity,
    });

    assert_eq!(actual, expected);
}

#[test]
fn accepts_minimum_response_quantity() {
    let pdu = [0x03, 0x02, 0x12, 0x34];
    let expected_quantity = 1;
    let actual = decode_fc03_success_response(&pdu, expected_quantity);
    let expected = Ok(vec![0x1234]);

    assert_eq!(actual, expected);
}

#[test]
fn accepts_maximum_response_quantity() {
    let mut pdu: Vec<u8> = vec![0x03, 0xfa];
    for _ in 0..MAXIMUM_QUANTITY {
        pdu.push(0x12);
        pdu.push(0x34);
    }

    let expected = Ok(vec![0x1234; usize::from(MAXIMUM_QUANTITY)]);

    assert_eq!(
        decode_fc03_success_response(&pdu, MAXIMUM_QUANTITY),
        expected
    );
}

#[test]
fn decodes_illegal_data_address_exception() {
    let pdu = [0x83, 0x02];
    let expected = Ok(Fc03Exception::IllegalDataAddress);
    let actual = decode_fc03_exception_response(&pdu);
    assert_eq!(actual, expected);
}

#[test]
fn rejects_empty_exception_pdu() {
    let pdu: [u8; 0] = [];
    let expected = Err(Fc03ResponseError::PduLengthMismatch {
        actual: pdu.len(),
        expected: FC03_EXCEPTION_PDU_LENGTH,
    });
    let actual = decode_fc03_exception_response(&pdu);

    assert_eq!(actual, expected);
}

#[test]
fn rejects_one_byte_exception_pdu() {
    let pdu = [0x83];
    let expected = Err(Fc03ResponseError::PduLengthMismatch {
        actual: pdu.len(),
        expected: FC03_EXCEPTION_PDU_LENGTH,
    });
    let actual = decode_fc03_exception_response(&pdu);

    assert_eq!(actual, expected);
}

#[test]
fn rejects_trailing_byte_in_exception_pdu() {
    let pdu = [0x83, 0x02, 0xff];
    let expected = Err(Fc03ResponseError::PduLengthMismatch {
        actual: pdu.len(),
        expected: FC03_EXCEPTION_PDU_LENGTH,
    });
    let actual = decode_fc03_exception_response(&pdu);
    assert_eq!(actual, expected);
}

#[test]
fn rejects_wrong_exception_function_code() {
    let pdu = [0x84, 0x02];
    let expected = Err(Fc03ResponseError::UnexpectedFunctionCode {
        actual: pdu[0],
        expected: FC03_EXCEPTION_FUNCTION_CODE,
    });
    let actual = decode_fc03_exception_response(&pdu);

    assert_eq!(actual, expected);
}

#[test]
fn decodes_illegal_function_exception() {
    let pdu = [0x83, 0x01];
    let expected = Ok(Fc03Exception::IllegalFunction);
    let actual = decode_fc03_exception_response(&pdu);
    assert_eq!(actual, expected);
}

#[test]
fn decodes_illegal_data_value_exception() {
    let pdu = [0x83, 0x03];
    let expected = Ok(Fc03Exception::IllegalDataValue);
    let actual = decode_fc03_exception_response(&pdu);
    assert_eq!(actual, expected);
}

#[test]
fn decodes_server_device_failure_exception() {
    let pdu = [0x83, 0x04];
    let expected = Ok(Fc03Exception::ServerDeviceFailure);
    let actual = decode_fc03_exception_response(&pdu);
    assert_eq!(actual, expected);
}

#[test]
fn rejects_unknown_exception_code() {
    let pdu = [0x83, 0x07];
    let expected = Err(Fc03ResponseError::UnknownExceptionCode { actual: pdu[1] });
    let actual = decode_fc03_exception_response(&pdu);
    assert_eq!(actual, expected);
}

#[test]
fn decodes_success_response_through_outer_decoder() {
    let pdu = [0x03, 0x02, 0x12, 0x34];
    let expected_quantity = 1;
    let expected = Ok(Fc03Response::Registers(vec![0x1234]));
    let actual = decode_fc03_response(&pdu, expected_quantity);
    assert_eq!(actual, expected);
}

#[test]
fn decodes_exception_response_through_outer_decoder() {
    let pdu = [0x83, 0x02];
    let expected_quantity = 1;
    let expected = Ok(Fc03Response::Exception(Fc03Exception::IllegalDataAddress));
    let actual = decode_fc03_response(&pdu, expected_quantity);
    assert_eq!(actual, expected);
}

#[test]
fn rejects_empty_pdu_through_outer_decoder() {
    let pdu: [u8; 0] = [];
    let expected_quantity = 1;
    let expected = Err(Fc03ResponseError::PduTooShort {
        actual: 0,
        minimum: FC03_RESPONSE_PREFIX_LENGTH,
    });
    let actual = decode_fc03_response(&pdu, expected_quantity);
    assert_eq!(actual, expected);
}

#[test]
fn rejects_truncated_exception_through_outer_decoder() {
    let pdu = [0x83];
    let expected_quantity = 1;
    let expected = Err(Fc03ResponseError::PduLengthMismatch {
        actual: 1,
        expected: FC03_EXCEPTION_PDU_LENGTH,
    });
    let actual = decode_fc03_response(&pdu, expected_quantity);
    assert_eq!(actual, expected);
}

#[test]
fn rejects_unrelated_function_code_through_outer_decoder() {
    let pdu = [0x84, 0x02];
    let expected_quantity = 1;
    let expected = Err(Fc03ResponseError::UnexpectedFunctionCode {
        actual: 0x84,
        expected: FC03_FUNCTION_CODE,
    });
    let actual = decode_fc03_response(&pdu, expected_quantity);
    assert_eq!(actual, expected);
}

use modbus::function::read_holding_registers::Fc03Error;
use modbus::tcp::request::{assemble_fc03_request, TcpRequestError};

#[test]
fn encodes_exact_fc03_tcp_request() -> Result<(), TcpRequestError> {
    let expected: [u8; 12] = [
        0x12, 0x34, 0x00, 0x00, 0x00, 0x06, 0x11, 0x03, 0x00, 0x6b, 0x00, 0x03,
    ];
    let actual = assemble_fc03_request(0x1234, 0x11, 0x006b, 0x03)?;
    assert_eq!(actual, expected);

    Ok(())
}

#[test]
fn rejects_empty_quantity() {
    let expected = Some(TcpRequestError::Request(Fc03Error::QuantityOutOfRange {
        actual: 0,
        minimum: 1,
        maximum: 125,
    }));
    let actual = assemble_fc03_request(0x1234, 0x11, 0x00, 0x00).err();

    assert_eq!(actual, expected);
}

#[test]
fn rejects_address_range_overflow() {
    let expected = Some(TcpRequestError::Request(Fc03Error::AddressRangeOverflow {
        start_address: u16::MAX,
        quantity: 2,
    }));
    let actual = assemble_fc03_request(0x1234, 0x11, u16::MAX, 2).err();

    assert_eq!(actual, expected);
}

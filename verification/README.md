# modbus

A verified codec for Modbus TCP function 0x03 (Read Holding Registers).

- `src/bytes.rs`: big-endian word helpers and their spec.
- `src/function/read_holding_registers.rs`: the validated request and its
  PDU, the decoding of normal and exception reply PDUs, and the round-trip
  and canonical-form laws of the reply encoding.
- `src/tcp/mbap.rs`: the MBAP header and its length field.
- `src/tcp/request.rs`: assembly of the twelve-byte request frame.
- `src/tcp/response.rs`: validation and correlation of a response frame,
  decoding of the reply it carries, and the framing laws.

pub mod read_holding_registers;

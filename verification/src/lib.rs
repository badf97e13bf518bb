pub mod bytes;
pub mod function;
pub mod tcp;

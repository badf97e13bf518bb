pub mod mbap;
pub mod request;
pub mod response;

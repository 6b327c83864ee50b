pub mod driver;
pub mod errors;
pub mod json;
pub mod page;
pub mod request;

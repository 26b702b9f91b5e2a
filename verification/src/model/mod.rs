pub mod aggregate;
pub mod parse;
pub mod types;
pub mod users;
pub mod limits;

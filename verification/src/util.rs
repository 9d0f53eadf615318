pub mod jwt;
pub mod time;

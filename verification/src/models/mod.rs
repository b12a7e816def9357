pub mod crypto;
pub mod event;
pub mod file;
pub mod object;
pub mod session;
pub mod snowflake;
pub mod timestamp;

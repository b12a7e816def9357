pub mod auth;
pub mod error;
pub mod fs;
pub mod object;
pub mod session;

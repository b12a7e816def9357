pub mod api;
pub mod auth;
pub mod object;
pub mod status;
pub mod websocket;

pub mod object;
pub mod session;
pub mod websocket;

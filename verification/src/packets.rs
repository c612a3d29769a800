//! The typed message set that travels on the connection.

pub mod client;
pub mod server;
pub mod server_error;

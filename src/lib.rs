//! A server that answers every connection with one fixed HTTP response.
pub mod config;
pub mod response;

pub use config::{command_line_addr, listening_message, ServeConfig};
pub use response::{build_head, build_response, push_decimal, push_text};

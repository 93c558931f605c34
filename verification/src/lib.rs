//! Dynamic virtual channels of the remote desktop protocol, server side.
pub mod complete_data;
pub mod error;
pub mod format_laws;
pub mod gfx;
pub mod laws;
pub mod model;
pub mod pdu;
pub mod processor;
pub mod server;
pub mod svc;
pub mod text;
pub mod type_registry;
pub mod wire;

//! Verified core of netbeam: discovery packets, the handshake decisions, and the application state.
pub mod address;
pub mod common;
pub mod device;
pub mod packet;
pub mod registry;
pub mod protocol;
pub mod app;
pub mod event;
pub mod thread;

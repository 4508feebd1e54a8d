//! The objects of a device that the client addresses itself.

pub mod connection_manager;
pub mod message_router;

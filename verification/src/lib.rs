//! Client-side codec and session logic for EtherNet/IP encapsulation and the
//! Common Industrial Protocol carried inside it.
//!
//! Every wire type implements [`common::Serializable`]: it encodes to bytes
//! and parses from bytes, and both directions are pinned by specification
//! functions and tied together by a round-trip lemma. The session in
//! [`session`] decides what to send and what a reply means; it never touches
//! a socket, so a caller moves the bytes and hands back what arrived.

pub mod cip;
pub mod common;
pub mod cpf;
pub mod enip;
pub mod objects;
pub mod session;
pub mod transport;

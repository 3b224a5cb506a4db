//! Client side of a cloud data service: the wire encoding of dynamically typed
//! field values and collections, and the request/response exchanges built on it.
//!
//! Everything here works on plain bytes. Sending a request and waiting for the
//! reply is left to the caller, who hands the reply back as a byte buffer.

pub mod ipc_conn;

//! Retrieval of a named collection of files from a peer named by a ticket:
//! the lexical ticket filter, the connection decision, hash-verified chunk
//! storage, collection reconstruction, safe export paths and error reporting.
pub mod collection;
pub mod error;
pub mod export;
pub mod meta;
pub mod path;
pub mod session;
pub mod store;
pub mod ticket;

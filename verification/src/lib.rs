//! HTTP/1.1 messages for a small TCP server: reading request heads and
//! header fields, checking them, gathering a request from the bytes a
//! connection delivers, and forming and writing responses.
//!
//! Every function states what it does in its contract, over the models in
//! each module; `laws` holds the properties that span several functions.
pub mod text;
pub mod grammar;
pub mod error;
pub mod date;
pub mod value;
pub mod header;
pub mod map;
pub mod message;
pub mod parse;
pub mod reader;
pub mod server;
pub mod laws;

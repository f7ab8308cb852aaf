//! Core of a networked in-memory key–value cache: the binary frame codec
//! shared by server and client, the storage map with lazy TTL expiry, and the
//! per-request dispatch rules of the server.

pub mod connection;
pub mod db;
pub mod domain;
pub mod endian;
pub mod error;
pub mod frame;
pub mod parsing;
pub mod primitives;
pub mod request;
pub mod response;
pub mod server;

pub use crate::db::{DbRequest, DbResponse, DbValue, MainDB};
pub use crate::domain::{Key, TTLSinceUnixEpochInMillis, Value};
pub use crate::error::{ClientError, ConnectionError, Error, FrameError, Parse};
pub use crate::frame::{RequestFrame, ResponseFrame};
pub use crate::primitives::{OpCode, StatusCode};
pub use crate::request::Request;
pub use crate::response::{Response, ResponseBody, ResponseBodyGet, ResponseGet};

//! A verified core for a small HTTP/1.1 server: request parsing, routing,
//! handler decisions, response framing, and a worker pool for connections.
//!
//! The caller owns the transport and the file system: it reads a connection's
//! bytes, hands them to [`Request::parse`] and [`handlers::dispatch`],
//! performs the one file-system step an [`handlers::Action`] may ask for, and
//! writes back the bytes [`response::frame`] produced. Every decision in
//! between is made here, under contract.

pub mod bytes;
pub mod decode;
pub mod gzip;
pub mod handlers;
pub mod request;
pub mod response;
mod threadpool;

pub use request::Request;
pub use threadpool::POOL_SIZE;
pub use threadpool::ThreadPool;
pub use threadpool::Worker;

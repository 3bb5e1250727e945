//! A minimal concurrent HTTP server engine.
//!
//! The crate parses one request per connection from a fixed-size read,
//! dispatches it to a user-registered handler by exact (path, method)
//! match, and otherwise falls back to serving files from a configured
//! document root.  Each piece of protocol logic — request-line parsing,
//! parameter maps, the route table, static-file resolution, response
//! formatting, the job queue behind the worker pool, and log-line
//! formatting — carries a contract that pins its behaviour down.
//!
//! The crate itself never touches a socket, a file or a thread: a thin
//! runtime around it reads and writes, and hands plain values in and out.

pub mod logging;
pub mod params;
pub mod pool;
pub mod request;
pub mod response;
pub mod routes;
pub mod server;
pub mod static_files;

pub use request::Request;
pub use server::Server;

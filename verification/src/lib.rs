//! The core of a small static-file HTTP server, without its sockets and
//! files: how the text of a request becomes a route, a route the path of a
//! file, and a file a response; the machine that handles one connection;
//! and the queue that hands connections to workers.

pub mod handler;
pub mod mime;
pub mod path;
pub mod queue;
pub mod response;
pub mod route;
pub mod text;

pub use crate::handler::{Action, Event, Handler};
pub use crate::mime::get_mimetype;
pub use crate::queue::DispatchQueue;
pub use crate::route::get_route;

//! A small HTTP routing and dispatch core.
//!
//! The crate decides, for one request at a time, which handler runs, which
//! path parameters it sees, in which order the middlewares surround it, and
//! how the value it returns becomes a canonical response. Sockets, HTTP
//! framing and the execution of handlers belong to the embedding program.

pub mod chain;
pub mod dispatch;
pub mod header;
pub mod octets;
pub mod params;
pub mod path;
pub mod pattern;
pub mod response;
pub mod router;
pub mod status;

pub use crate::dispatch::{Dispatch, ErrorKind, RequestContext};
pub use crate::response::{IntoResponse, Response};
pub use crate::router::{Method, RouteTable};

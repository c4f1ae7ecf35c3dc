//! A minimal HTTP request-processing core: wire-format parsing and
//! serialization, routing through a middleware pipeline, and the decisions of
//! the connection lifecycle, each with a verified contract.

pub mod connection;
pub mod handler;
pub mod header;
pub mod http_method;
pub mod logger;
pub mod middleware;
pub mod request;
pub mod response;
pub mod router;
pub mod server;
pub mod text;

pub use handler::Handler;
pub use http_method::{HttpMethod, HttpMethodView, ParseHttpMethodError};
pub use middleware::{Middleware, Passthrough};
pub use request::{Request, RequestView};
pub use response::{Response, ResponseView};
pub use router::{Router, RouterView};

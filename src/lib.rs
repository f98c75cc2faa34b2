//! A minimal HTTP/1.1 server core: request parsing, response building and
//! serialization, and the routing of requests to handlers.
pub mod handler;
pub mod request;
pub mod response;
pub mod router;
pub mod server;
pub mod text;

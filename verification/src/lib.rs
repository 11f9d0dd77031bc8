pub mod connection;
pub mod context;
pub mod error;
pub mod request;
pub mod response;
pub mod route;
pub mod server;
pub mod table;
pub mod text;
pub mod websocket;

pub use connection::{Connection, HandshakeState};
pub use context::{AttributeValue, Context, InnerContext, StreamInfo};
pub use error::{RequestError, ResponseError, RouteError, ServerError};
pub use request::{HttpVersion, Request};
pub use response::Response;
pub use route::{RouteMatcher, RoutePattern, RouteSegment};
pub use server::{Server, ServerConfig};
pub use websocket::websocket_accept_token;

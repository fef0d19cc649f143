//! A minimal HTTP/1.1 server core: a frozen route table, a request-line
//! parser that degrades to defaults on malformed input, a byte-exact
//! response writer, and a worker-pool state model that bounds concurrency.

mod format;
mod http;
mod parse;
mod pool;
mod routes;

pub use format::format_response;
pub use http::HttpMethod;
pub use http::StatusCode;
pub use http::Request;
pub use http::RequestModel;
pub use http::Response;
pub use http::ResponseModel;
pub use http::html_response;
pub use parse::parse_request;
pub use pool::PoolConfigurationError;
pub use pool::PoolState;
pub use routes::Endpoint;
pub use routes::RouteTable;

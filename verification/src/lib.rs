//! Core of a logging reverse proxy.
//!
//! The library captures an inbound HTTP request and the upstream's response
//! as plain values, decodes query strings, renders one structured log event
//! for the request and one for the response (correlated by a request id),
//! and maps forwarding failures onto well-formed HTTP error responses.
//! The surrounding binary owns the sockets, the forwarding call and the log
//! sink; everything that decides or formats lives here, verified.

pub mod body;
pub mod handler;
pub mod message;
pub mod query;
pub mod render;
pub mod style;
pub mod text;

pub use handler::HandlerVerdict;
pub use handler::assign_request_id;
pub use handler::error_response;
pub use handler::failure_log_event;
pub use handler::handle_outcome;
pub use message::CapturedRequest;
pub use message::HttpResponse;
pub use message::Pair;
pub use message::ProxyFailure;
pub use message::find_header;
pub use query::decode_query;
pub use render::request_log_event;
pub use render::response_log_event;
pub use style::LogLevel;
pub use style::PrintStyle;

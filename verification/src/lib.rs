//! Cross-Origin Resource Sharing policy evaluation.
//!
//! A [`Config`] is an immutable policy, made with a [`CorsBuilder`].
//! [`Config::process_request`] decides whether a request is permitted and
//! builds the response headers that the decision calls for. A
//! [`CorsService`] turns that decision into what a middleware has to do
//! with the exchange: refuse it, answer a preflight, or call the handler
//! behind and tag its response.
//!
//! The engine works on plain bytes. [`read_request`], [`write_fields`],
//! [`to_header_map`] and [`room_for`] connect it to the header maps of the
//! `http` crate.

pub mod cors;

pub use cors::builder::CorsBuilder;
pub use cors::config::{AllowedOrigins, Config, CorsResource, InvalidRequest};
pub use cors::headers::HeaderSet;
pub use cors::layer::CorsLayer;
pub use cors::request::RequestView;
pub use cors::service::{CorsService, Handling, Reply};
pub use cors::wire::{read_request, room_for, to_header_map, write_fields};

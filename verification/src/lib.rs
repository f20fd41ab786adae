//! Derives that turn a struct of bare function types into an HTTP client,
//! and a struct of URL parameters into a path formatter; with the derives
//! that read their settings from attributes.
pub mod attrs;
pub mod client;
pub mod diorama_core;
pub mod model;
pub mod parse_utils;
pub mod request;
pub mod tokens;
pub mod traits;
pub mod url_params;

pub use client::{diorama, diorama_abort, field_request, impl_request};
pub use traits::{Deserializer, Serializer, UrlParams};
pub use url_params::{url_params, url_params_abort};

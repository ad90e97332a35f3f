//! Validated, normalised domain values.

pub mod http_method;
pub mod request;
pub mod resource_name;

//! Request construction and dispatch bookkeeping for an HTTP client.
//!
//! A [`request::RequestSpec`] describes one request; [`request::build_request`]
//! turns it into a [`request::BuiltRequest`] or reports why it cannot.

pub mod cli;
pub mod constants;
pub mod dispatch;
pub mod file;
pub mod form;
pub mod header;
pub mod method;
pub mod query;
pub mod report;
pub mod request;
pub mod text;
pub mod url;
pub mod wire;

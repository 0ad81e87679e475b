//! A small client for a question-answering web service: it percent-encodes a
//! query for a URL, frames the HTTP request that carries it, and pulls the
//! plaintext answer out of the service's reply.
pub mod encode;
pub mod extract;
pub mod request;

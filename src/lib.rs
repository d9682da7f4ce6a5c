//! An HTTP relay engine: turns a generic request description into an outbound
//! request, decides how a response body is read, splits the observed timing into
//! latency, processing and transfer, and wraps every outcome into an envelope.
pub mod text;
pub mod types;
pub mod headers;
pub mod error;
pub mod request;
pub mod classify;
pub mod timing;
pub mod response;
pub mod relay;

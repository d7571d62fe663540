//! Trace-context propagation over gRPC metadata, with the small pieces of
//! logic that the echo services around it need.

pub mod text;
pub mod grpc;
pub mod carrier;
pub mod echo;
pub mod stream;
pub mod tracer;

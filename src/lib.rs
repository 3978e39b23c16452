//! Trace-context propagation and span export for an RPC server.
pub mod carrier;
pub mod context;
pub mod hex;
pub mod pipeline;
pub mod propagation;
pub mod span;

//! The gRPC client core behind the `Grpc\` PHP classes.

pub mod batch;
pub mod call;
pub mod channel;
pub mod clock;
pub mod codec;
pub mod compat;
pub mod constants;
pub mod credentials;
pub mod delivery;
pub mod endpoint;
pub mod error;
pub mod laws;
pub mod metadata;
pub mod plugin;
pub mod request;
pub mod runtime;
pub mod sharing;
pub mod status;
pub mod stream;
pub mod streaming;
pub mod text;
pub mod timeval;
pub mod value;
pub mod wire;

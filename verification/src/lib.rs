//! A verified core for a protocol-agnostic TCP relay.

pub mod cli;
pub mod config;
pub mod duration;
pub mod duration_laws;
pub mod endpoint;
pub mod endpoint_laws;
pub mod error;
pub mod http;
pub mod http_laws;
pub mod load;
pub mod metrics;
pub mod metrics_laws;
pub mod paths;
pub mod relay;
pub mod relay_laws;
pub mod seconds;
pub mod server;
pub mod server_laws;
pub mod settings_laws;
pub mod text;
pub mod text_laws;

//! The hub: errors, gates, registries, schemas and routing.

pub mod capabilities;
pub mod connectome;
pub mod copies;
pub mod credential_envelope;
pub mod error;
pub mod forward_registry;
pub mod hub;
pub mod registry;
pub mod routing;
pub mod rpc;
pub mod schema;
pub mod scope_gate;
pub mod streaming;
pub mod tenant_mount;
pub mod told;
pub mod wire;

//! The decision core of a hub that dispatches methods to activations.

pub mod auth;
pub mod digest;
pub mod ir;
pub mod json;
pub mod outside;
pub mod plexus;
pub mod request;
pub mod runtime;
pub mod table;
pub mod text;

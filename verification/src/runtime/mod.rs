//! The turn: one call from its opening to its single terminal event.

pub mod bridge;
pub mod callback;
pub mod cancel;
pub mod codes;
pub mod declared;
pub mod entry;
pub mod error;
pub mod event;
pub mod handler;
pub mod ids;
pub mod profile;

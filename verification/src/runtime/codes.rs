//! The error codes that the runtime itself gives out.

use vstd::prelude::*;

verus! {

/// No such method on the activation.
pub const METHOD_NOT_FOUND: &'static str = "plexus.method_not_found";

/// The method is declared but has no handler.
pub const HANDLER_MISSING: &'static str = "plexus.handler_missing";

/// Params could not be decoded into the handler's request type.
pub const INVALID_PARAMS: &'static str = "plexus.invalid_params";

/// The method requires authentication and none was supplied.
pub const UNAUTHENTICATED: &'static str = "plexus.unauthenticated";

/// The peer has not advertised a callback that the method declares.
pub const CAPABILITY_MISMATCH: &'static str = "plexus.capability_mismatch";

/// The handler panicked, or its task was aborted.
pub const HANDLER_PANICKED: &'static str = "plexus.handler_panicked";

/// A server-to-client callback could not be completed.
pub const CALLBACK_FAILED: &'static str = "plexus.callback_failed";

/// A handler returned an error that names no domain type.
pub const EXECUTION_ERROR: &'static str = "plexus.execution_error";

/// The turn's terminal value could not be serialized.
pub const TERMINAL_UNSERIALIZABLE: &'static str = "plexus.terminal_unserializable";

/// An update could not be serialized.
pub const UPDATE_UNSERIALIZABLE: &'static str = "plexus.update_unserializable";

/// An update was emitted after the turn's channel had closed.
pub const TURN_CLOSED: &'static str = "plexus.turn_closed";

/// The error envelope itself could not be serialized.
pub const ERROR_ENVELOPE_UNSERIALIZABLE: &'static str = "plexus.error_envelope_unserializable";

} // verus!

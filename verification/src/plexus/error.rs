//! What can go wrong between a call and the method it names.

use crate::text::{decimal_text, dotted_text, join2, join3};
use crate::text;
use vstd::prelude::*;

verus! {

/// Why a call was not served.
#[derive(Debug, Clone, PartialEq, Eq)]
pub enum PlexusError {
    ActivationNotFound(String),
    MethodNotFound { activation: String, method: String },
    InvalidParams(String),
    ExecutionError(String),
    HandleNotSupported(String),
    TransportError(TransportErrorKind),
    Unauthenticated(String),
    Forbidden { reason: AuthzDenyReason },
}

/// Why an authenticated caller was turned away.
#[derive(Debug, Clone, PartialEq, Eq)]
pub enum AuthzDenyReason {
    MissingScope { scope: String },
    TenantBoundary,
    NotAccepted,
}

/// How a connection failed.
#[derive(Debug, Clone, PartialEq, Eq)]
pub enum TransportErrorKind {
    ConnectionRefused { host: String, port: u16 },
    ConnectionTimeout { host: String, port: u16 },
    ProtocolError { message: String },
    NetworkError { message: String },
}

/// What a `PlexusError` says.
pub enum PlexusErrorView {
    ActivationNotFound(Seq<char>),
    MethodNotFound { activation: Seq<char>, method: Seq<char> },
    InvalidParams(Seq<char>),
    ExecutionError(Seq<char>),
    HandleNotSupported(Seq<char>),
    TransportError(TransportErrorView),
    Unauthenticated(Seq<char>),
    Forbidden { reason: AuthzDenyView },
}

/// What an `AuthzDenyReason` says.
pub enum AuthzDenyView {
    MissingScope { scope: Seq<char> },
    TenantBoundary,
    NotAccepted,
}

/// What a `TransportErrorKind` says.
pub enum TransportErrorView {
    ConnectionRefused { host: Seq<char>, port: u16 },
    ConnectionTimeout { host: Seq<char>, port: u16 },
    ProtocolError { message: Seq<char> },
    NetworkError { message: Seq<char> },
}

impl View for AuthzDenyReason {
    type V = AuthzDenyView;

    open spec fn view(&self) -> AuthzDenyView {
        match *self {
            AuthzDenyReason::MissingScope { scope } => AuthzDenyView::MissingScope { scope: scope@ },
            AuthzDenyReason::TenantBoundary => AuthzDenyView::TenantBoundary,
            AuthzDenyReason::NotAccepted => AuthzDenyView::NotAccepted,
        }
    }
}

impl View for TransportErrorKind {
    type V = TransportErrorView;

    open spec fn view(&self) -> TransportErrorView {
        match *self {
            TransportErrorKind::ConnectionRefused { host, port } => TransportErrorView::ConnectionRefused {
                host: host@,
                port,
            },
            TransportErrorKind::ConnectionTimeout { host, port } => TransportErrorView::ConnectionTimeout {
                host: host@,
                port,
            },
            TransportErrorKind::ProtocolError { message } => TransportErrorView::ProtocolError { message: message@ },
            TransportErrorKind::NetworkError { message } => TransportErrorView::NetworkError { message: message@ },
        }
    }
}

impl View for PlexusError {
    type V = PlexusErrorView;

    open spec fn view(&self) -> PlexusErrorView {
        match *self {
            PlexusError::ActivationNotFound(s) => PlexusErrorView::ActivationNotFound(s@),
            PlexusError::MethodNotFound { activation, method } => PlexusErrorView::MethodNotFound {
                activation: activation@,
                method: method@,
            },
            PlexusError::InvalidParams(s) => PlexusErrorView::InvalidParams(s@),
            PlexusError::ExecutionError(s) => PlexusErrorView::ExecutionError(s@),
            PlexusError::HandleNotSupported(s) => PlexusErrorView::HandleNotSupported(s@),
            PlexusError::TransportError(k) => PlexusErrorView::TransportError(k@),
            PlexusError::Unauthenticated(s) => PlexusErrorView::Unauthenticated(s@),
            PlexusError::Forbidden { reason } => PlexusErrorView::Forbidden { reason: reason@ },
        }
    }
}

/// What a result that carries nothing but its error says.
pub open spec fn outcome_view(r: Result<(), PlexusError>) -> Result<(), PlexusErrorView> {
    match r {
        Ok(_) => Ok(()),
        Err(e) => Err(e@),
    }
}

/// The message of a failed connection.
pub open spec fn transport_message(k: TransportErrorView) -> Seq<char> {
    match k {
        TransportErrorView::ConnectionRefused { host, port } => "Connection refused to "@ + host + ":"@ + text::decimal(
            port as nat,
        ),
        TransportErrorView::ConnectionTimeout { host, port } => "Connection timeout to "@ + host + ":"@ + text::decimal(
            port as nat,
        ),
        TransportErrorView::ProtocolError { message } => "Protocol error: "@ + message,
        TransportErrorView::NetworkError { message } => "Network error: "@ + message,
    }
}

/// The message of an error.
pub open spec fn error_message(e: PlexusErrorView) -> Seq<char> {
    match e {
        PlexusErrorView::ActivationNotFound(name) => "Activation not found: "@ + name,
        PlexusErrorView::MethodNotFound { activation, method } => "Method not found: "@ + text::dotted(
            activation,
            method,
        ),
        PlexusErrorView::InvalidParams(msg) => "Invalid params: "@ + msg,
        PlexusErrorView::ExecutionError(msg) => "Execution error: "@ + msg,
        PlexusErrorView::HandleNotSupported(activation) => "Handle resolution not supported by activation: "@
            + activation,
        PlexusErrorView::TransportError(kind) => transport_message(kind),
        PlexusErrorView::Unauthenticated(msg) => "Authentication required: "@ + msg,
        PlexusErrorView::Forbidden { reason } => match reason {
            AuthzDenyView::MissingScope { scope } => "Forbidden: missing required scope '"@ + scope + "'"@,
            AuthzDenyView::TenantBoundary => "Forbidden: tenant boundary"@,
            AuthzDenyView::NotAccepted => "Forbidden: call not accepted"@,
        },
    }
}

/// The JSON-RPC code of an error: one for a missing sign-in, one for a refusal, the reserved
/// codes for bad parameters and for an unknown name, and one for the rest.
pub open spec fn error_code(e: PlexusErrorView) -> int {
    match e {
        PlexusErrorView::Unauthenticated(_) => -32001,
        PlexusErrorView::Forbidden { .. } => -32003,
        PlexusErrorView::InvalidParams(_) => -32602,
        PlexusErrorView::MethodNotFound { .. } => -32601,
        PlexusErrorView::ActivationNotFound(_) => -32601,
        _ => -32000,
    }
}

impl TransportErrorKind {
    /// The message of a failed connection.
    pub fn message(&self) -> (r: String)
        ensures
            r@ == transport_message(self@),
    {
        match self {
            TransportErrorKind::ConnectionRefused { host, port } => {
                let mut s = join3("Connection refused to ", host.as_str(), ":");
                s.append(decimal_text(*port as u64).as_str());
                s
            },
            TransportErrorKind::ConnectionTimeout { host, port } => {
                let mut s = join3("Connection timeout to ", host.as_str(), ":");
                s.append(decimal_text(*port as u64).as_str());
                s
            },
            TransportErrorKind::ProtocolError { message } => join2("Protocol error: ", message.as_str()),
            TransportErrorKind::NetworkError { message } => join2("Network error: ", message.as_str()),
        }
    }
}

impl PlexusError {
    /// The message of the error.
    pub fn message(&self) -> (r: String)
        ensures
            r@ == error_message(self@),
    {
        match self {
            PlexusError::ActivationNotFound(name) => join2("Activation not found: ", name.as_str()),
            PlexusError::MethodNotFound { activation, method } => join2(
                "Method not found: ",
                dotted_text(activation.as_str(), method.as_str()).as_str(),
            ),
            PlexusError::InvalidParams(msg) => join2("Invalid params: ", msg.as_str()),
            PlexusError::ExecutionError(msg) => join2("Execution error: ", msg.as_str()),
            PlexusError::HandleNotSupported(activation) => join2(
                "Handle resolution not supported by activation: ",
                activation.as_str(),
            ),
            PlexusError::TransportError(kind) => kind.message(),
            PlexusError::Unauthenticated(msg) => join2("Authentication required: ", msg.as_str()),
            PlexusError::Forbidden { reason } => match reason {
                AuthzDenyReason::MissingScope { scope } => join3(
                    "Forbidden: missing required scope '",
                    scope.as_str(),
                    "'",
                ),
                AuthzDenyReason::TenantBoundary => "Forbidden: tenant boundary".to_owned(),
                AuthzDenyReason::NotAccepted => "Forbidden: call not accepted".to_owned(),
            },
        }
    }
}

/// The JSON-RPC code of an error.
pub fn plexus_error_code(e: &PlexusError) -> (r: i32)
    ensures
        r == error_code(e@),
{
    match e {
        PlexusError::Unauthenticated(_) => -32001,
        PlexusError::Forbidden { .. } => -32003,
        PlexusError::InvalidParams(_) => -32602,
        PlexusError::MethodNotFound { .. } => -32601,
        PlexusError::ActivationNotFound(_) => -32601,
        _ => -32000,
    }
}

/// The code of an error tells its kind as far as codes go: a missing sign-in, a refusal and bad
/// parameters have one each, an unknown activation and an unknown method share one, and the rest
/// share another.
pub proof fn law_a_code_tells_the_kind(e: PlexusErrorView)
    ensures
        error_code(e) == -32001 <==> e is Unauthenticated,
        error_code(e) == -32003 <==> e is Forbidden,
        error_code(e) == -32602 <==> e is InvalidParams,
        error_code(e) == -32601 <==> e is MethodNotFound || e is ActivationNotFound,
        error_code(e) == -32000 <==> e is ExecutionError || e is HandleNotSupported || e is TransportError,
{
}

/// A message ends with what the error is about, but for the quotes and the port that may follow.
pub proof fn law_a_message_says_what_it_is_about(s: Seq<char>, t: Seq<char>, port: u16)
    ensures
        text::ends_with(error_message(PlexusErrorView::ActivationNotFound(s)), s),
        text::ends_with(
            error_message(PlexusErrorView::MethodNotFound { activation: s, method: t }),
            s + seq!['.'] + t,
        ),
        text::ends_with(error_message(PlexusErrorView::InvalidParams(s)), s),
        text::ends_with(error_message(PlexusErrorView::ExecutionError(s)), s),
        text::ends_with(error_message(PlexusErrorView::HandleNotSupported(s)), s),
        text::ends_with(error_message(PlexusErrorView::Unauthenticated(s)), s),
        text::ends_with(
            error_message(PlexusErrorView::Forbidden { reason: AuthzDenyView::MissingScope { scope: s } }),
            s + "'"@,
        ),
        text::ends_with(
            error_message(
                PlexusErrorView::TransportError(TransportErrorView::ConnectionRefused { host: s, port }),
            ),
            s + ":"@ + text::decimal(port as nat),
        ),
        text::ends_with(
            error_message(
                PlexusErrorView::TransportError(TransportErrorView::ConnectionTimeout { host: s, port }),
            ),
            s + ":"@ + text::decimal(port as nat),
        ),
        text::ends_with(
            error_message(PlexusErrorView::TransportError(TransportErrorView::ProtocolError { message: s })),
            s,
        ),
        text::ends_with(
            error_message(PlexusErrorView::TransportError(TransportErrorView::NetworkError { message: s })),
            s,
        ),
{
    lemma_ends("Activation not found: "@, s);
    lemma_ends("Method not found: "@, s + seq!['.'] + t);
    lemma_ends("Invalid params: "@, s);
    lemma_ends("Execution error: "@, s);
    lemma_ends("Handle resolution not supported by activation: "@, s);
    lemma_ends("Authentication required: "@, s);
    lemma_ends("Forbidden: missing required scope '"@, s + "'"@);
    assert("Forbidden: missing required scope '"@ + s + "'"@ =~= "Forbidden: missing required scope '"@ + (s
        + "'"@));
    let at = s + ":"@ + text::decimal(port as nat);
    lemma_ends("Connection refused to "@, at);
    lemma_ends("Connection timeout to "@, at);
    assert("Connection refused to "@ + s + ":"@ + text::decimal(port as nat) =~= "Connection refused to "@ + at);
    assert("Connection timeout to "@ + s + ":"@ + text::decimal(port as nat) =~= "Connection timeout to "@ + at);
    lemma_ends("Protocol error: "@, s);
    lemma_ends("Network error: "@, s);
}

proof fn lemma_ends(a: Seq<char>, b: Seq<char>)
    ensures
        text::ends_with(a + b, b),
{
    assert((a + b).skip(a.len() as int) =~= b);
}

/// An error says what its fields hold, and an outcome is a success or what its error says.
pub proof fn law_an_error_says_what_it_holds(e: PlexusError)
    ensures
        match e {
            PlexusError::ActivationNotFound(s) => e@ is ActivationNotFound && e@->ActivationNotFound_0 == s@,
            PlexusError::MethodNotFound { activation, method } => e@ is MethodNotFound && e@->activation == activation@
                && e@->method == method@,
            PlexusError::InvalidParams(s) => e@ is InvalidParams && e@->InvalidParams_0 == s@,
            PlexusError::ExecutionError(s) => e@ is ExecutionError && e@->ExecutionError_0 == s@,
            PlexusError::HandleNotSupported(s) => e@ is HandleNotSupported && e@->HandleNotSupported_0 == s@,
            PlexusError::TransportError(k) => e@ is TransportError && match k {
                TransportErrorKind::ConnectionRefused { host, port } => e@->TransportError_0 is ConnectionRefused
                    && e@->TransportError_0->ConnectionRefused_host == host@
                    && e@->TransportError_0->ConnectionRefused_port == port,
                TransportErrorKind::ConnectionTimeout { host, port } => e@->TransportError_0 is ConnectionTimeout
                    && e@->TransportError_0->ConnectionTimeout_host == host@
                    && e@->TransportError_0->ConnectionTimeout_port == port,
                TransportErrorKind::ProtocolError { message } => e@->TransportError_0 is ProtocolError
                    && e@->TransportError_0->ProtocolError_message == message@,
                TransportErrorKind::NetworkError { message } => e@->TransportError_0 is NetworkError
                    && e@->TransportError_0->NetworkError_message == message@,
            },
            PlexusError::Unauthenticated(s) => e@ is Unauthenticated && e@->Unauthenticated_0 == s@,
            PlexusError::Forbidden { reason } => e@ is Forbidden && match reason {
                AuthzDenyReason::MissingScope { scope } => e@->reason is MissingScope && e@->reason->scope == scope@,
                AuthzDenyReason::TenantBoundary => e@->reason is TenantBoundary,
                AuthzDenyReason::NotAccepted => e@->reason is NotAccepted,
            },
        },
        outcome_view(Ok(())) is Ok,
        outcome_view(Err(e)) is Err,
        outcome_view(Err(e))->Err_0 == e@,
{
}

/// What is told of a failed connection names the host and, behind a colon, the port; what is told
/// of another failure on the way ends with its message.
pub proof fn law_a_failed_connection_is_named(host: Seq<char>, port: u16, message: Seq<char>)
    ensures
        transport_message(TransportErrorView::ConnectionRefused { host, port }) == "Connection refused to "@ + host
            + ":"@ + text::decimal(port as nat),
        transport_message(TransportErrorView::ConnectionTimeout { host, port }) == "Connection timeout to "@ + host
            + ":"@ + text::decimal(port as nat),
        transport_message(TransportErrorView::ProtocolError { message }) == "Protocol error: "@ + message,
        transport_message(TransportErrorView::NetworkError { message }) == "Network error: "@ + message,
{
}

} // verus!

//! The two records that travel over the bus: an invocation and its response.

use vstd::prelude::*;
use vstd::string::StringExecFns;

verus! {

/// A call addressed to a subject on the lattice.
#[derive(Clone, Debug, PartialEq, Eq)]
pub struct Invocation {
    /// Identity of this call; the response carries it back.
    pub id: String,
    /// Who issued the call.
    pub origin: String,
    /// The subject the call is addressed to.
    pub target: String,
    /// Name of the operation asked for.
    pub operation: String,
    /// Opaque argument bytes.
    pub payload: Vec<u8>,
    /// The self-signing artifact by which a receiver checks that the call is
    /// authentic and intact.
    pub antiforgery: String,
}

/// What an [`Invocation`] holds, as mathematical values.
pub struct InvocationView {
    pub id: Seq<char>,
    pub origin: Seq<char>,
    pub target: Seq<char>,
    pub operation: Seq<char>,
    pub payload: Seq<u8>,
    pub antiforgery: Seq<char>,
}

impl View for Invocation {
    type V = InvocationView;

    open spec fn view(&self) -> InvocationView {
        InvocationView {
            id: self.id@,
            origin: self.origin@,
            target: self.target@,
            operation: self.operation@,
            payload: self.payload@,
            antiforgery: self.antiforgery@,
        }
    }
}

/// The reply to one invocation: a payload on success, a message on failure.
#[derive(Clone, Debug, PartialEq, Eq)]
pub struct InvocationResponse {
    /// Identity of the invocation that this answers.
    pub invocation_id: String,
    /// Result bytes; empty in an error response.
    pub payload: Vec<u8>,
    /// The failure, if the invocation failed.
    pub error: Option<String>,
}

/// What an [`InvocationResponse`] holds, as mathematical values.
pub struct InvocationResponseView {
    pub invocation_id: Seq<char>,
    pub payload: Seq<u8>,
    pub error: Option<Seq<char>>,
}

impl View for InvocationResponse {
    type V = InvocationResponseView;

    open spec fn view(&self) -> InvocationResponseView {
        InvocationResponseView {
            invocation_id: self.invocation_id@,
            payload: self.payload@,
            error: match self.error {
                Some(message) => Some(message@),
                None => None,
            },
        }
    }
}

/// The successful response to `inv` that carries `payload`.
pub open spec fn success_response(inv: InvocationView, payload: Seq<u8>) -> InvocationResponseView {
    InvocationResponseView { invocation_id: inv.id, payload, error: None }
}

/// The failed response to `inv` that carries `message`.
pub open spec fn error_response(inv: InvocationView, message: Seq<char>) -> InvocationResponseView {
    InvocationResponseView { invocation_id: inv.id, payload: Seq::empty(), error: Some(message) }
}

/// A successful response hands back the very bytes it was given, names the
/// invocation it answers and reports no failure; an error response carries
/// its message and no bytes.
pub proof fn lemma_response_carries_what_it_was_given(
    inv: InvocationView,
    payload: Seq<u8>,
    message: Seq<char>,
)
    ensures
        success_response(inv, payload).payload == payload,
        success_response(inv, payload).invocation_id == inv.id,
        success_response(inv, payload).error is None,
        error_response(inv, message).error == Some(message),
        error_response(inv, message).invocation_id == inv.id,
        error_response(inv, message).payload.len() == 0,
{
}

impl InvocationResponse {
    /// Answers `inv` with `payload`.
    pub fn success(inv: &Invocation, payload: Vec<u8>) -> (response: InvocationResponse)
        ensures
            response@ == success_response(inv@, payload@),
    {
        InvocationResponse { invocation_id: inv.id.clone(), payload, error: None }
    }

    /// Answers `inv` with the failure `message`.
    pub fn error(inv: &Invocation, message: &str) -> (response: InvocationResponse)
        ensures
            response@ == error_response(inv@, message@),
    {
        InvocationResponse {
            invocation_id: inv.id.clone(),
            payload: Vec::new(),
            error: Some(String::from_str(message)),
        }
    }
}

} // verus!

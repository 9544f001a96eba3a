use vstd::prelude::*;

verus! {

/// How the credential-challenge handler answers the provider: proceed with
/// what is already set on the operation, or abort the attempt.
#[derive(Debug, Clone, Copy, PartialEq, Eq, Structural)]
pub enum AuthReply {
    Handled,
    Aborted,
}

/// Per-attempt authentication state, owned by one mount task and never
/// shared across requests: whether anonymous access was already granted
/// once for this attempt.
#[derive(Debug, Clone, Copy, PartialEq, Eq, Structural)]
pub struct AuthAttemptState {
    pub asked_anonymous_once: bool,
}

impl AuthAttemptState {
    /// The state of a fresh attempt: anonymous access not yet granted.
    pub fn new() -> (s: Self)
        ensures
            !s.asked_anonymous_once,
    {
        AuthAttemptState { asked_anonymous_once: false }
    }
}

/// The decision table of the credential-challenge handler, evaluated in
/// order: an anonymous request whose target supports anonymous access
/// proceeds on the first challenge and aborts on every later one; otherwise
/// an available authentication ticket lets the provider proceed; otherwise
/// the attempt is aborted — this tool runs unattended and never prompts.
pub open spec fn spec_ask_password(
    state: AuthAttemptState,
    is_anonymous: bool,
    anonymous_supported: bool,
    has_ticket: bool,
) -> (AuthReply, AuthAttemptState) {
    if is_anonymous && anonymous_supported {
        if state.asked_anonymous_once {
            (AuthReply::Aborted, state)
        } else {
            (AuthReply::Handled, AuthAttemptState { asked_anonymous_once: true })
        }
    } else if has_ticket {
        (AuthReply::Handled, state)
    } else {
        (AuthReply::Aborted, state)
    }
}

/// Answers one credential challenge for the attempt that owns `state`.
/// `is_anonymous` says whether the request asked for an anonymous mount,
/// `anonymous_supported` whether the provider signals anonymous support for
/// this target, and `has_ticket` whether an externally managed
/// authentication ticket is available to the session.
pub fn ask_password(
    state: &mut AuthAttemptState,
    is_anonymous: bool,
    anonymous_supported: bool,
    has_ticket: bool,
) -> (reply: AuthReply)
    ensures
        (reply, *final(state)) == spec_ask_password(
            *old(state),
            is_anonymous,
            anonymous_supported,
            has_ticket,
        ),
{
    if is_anonymous && anonymous_supported {
        if state.asked_anonymous_once {
            AuthReply::Aborted
        } else {
            state.asked_anonymous_once = true;
            AuthReply::Handled
        }
    } else if has_ticket {
        AuthReply::Handled
    } else {
        AuthReply::Aborted
    }
}

/// Law (one-shot anonymous access): anonymous access is never granted more
/// than once per attempt. Whatever the attempt state, of two consecutive
/// anonymous-supported challenges for the same attempt the second is always
/// aborted.
pub proof fn lemma_anonymous_single_shot(
    state: AuthAttemptState,
    has_ticket_first: bool,
    has_ticket_second: bool,
)
    ensures
        ({
            let (first_reply, mid) = spec_ask_password(state, true, true, has_ticket_first);
            let (second_reply, last) = spec_ask_password(mid, true, true, has_ticket_second);
            second_reply == AuthReply::Aborted
        }),
{
}

} // verus!

use vstd::prelude::*;
use crate::auth::{extract_token, token_of, token_principal, AuthError};
use crate::broker::{registered, Broker};

verus! {

/// Seconds between two keep-alive signals on an open connection.
pub const KEEP_ALIVE_SECS: u64 = 15;

/// Where a subscriber connection stands in its lifecycle.
#[derive(Debug, Clone, Copy, PartialEq, Eq, Structural)]
pub enum ConnState {
    Connecting,
    Authenticating,
    Open,
    Closing,
    Closed,
    Unauthorized,
}

/// What happened to a connection.
#[derive(Debug, Clone, Copy, PartialEq, Eq, Structural)]
pub enum ConnEvent {
    /// The peer asked for a long-lived connection.
    Upgrade,
    /// The credential of the handshake named this principal.
    Authenticated { principal: u64 },
    /// The credential was absent, malformed, badly signed or expired.
    AuthFailed,
    /// The keep-alive interval elapsed.
    KeepAliveDue,
    /// A keep-alive signal or a delivery could not be sent.
    SendFailed,
    /// The peer went away.
    PeerClosed,
    /// The server is shutting the connection down.
    Shutdown,
    /// The remaining queued messages were discarded.
    Drained,
}

/// What the connection's runner does next.
#[derive(Debug, Clone, Copy, PartialEq, Eq, Structural)]
pub enum ConnAction {
    Nothing,
    /// Read the credential from the handshake and verify it.
    Authenticate,
    /// Register with the broker under this principal and start forwarding.
    Register { principal: u64 },
    /// Refuse the upgrade without registering.
    Reject,
    /// Send a keep-alive signal and arm the timer again.
    SendKeepAlive,
    /// Stop the timer, deregister from the broker and discard the queue.
    Deregister,
}

/// The lifecycle of a subscriber connection.
pub open spec fn transition(s: ConnState, e: ConnEvent) -> (ConnState, ConnAction) {
    match (s, e) {
        (ConnState::Connecting, ConnEvent::Upgrade) => (
            ConnState::Authenticating,
            ConnAction::Authenticate,
        ),
        (ConnState::Authenticating, ConnEvent::Authenticated { principal }) => (
            ConnState::Open,
            ConnAction::Register { principal },
        ),
        (ConnState::Authenticating, ConnEvent::AuthFailed) => (
            ConnState::Unauthorized,
            ConnAction::Reject,
        ),
        (ConnState::Open, ConnEvent::KeepAliveDue) => (ConnState::Open, ConnAction::SendKeepAlive),
        (ConnState::Open, ConnEvent::SendFailed) => (ConnState::Closing, ConnAction::Deregister),
        (ConnState::Open, ConnEvent::PeerClosed) => (ConnState::Closing, ConnAction::Deregister),
        (ConnState::Open, ConnEvent::Shutdown) => (ConnState::Closing, ConnAction::Deregister),
        (ConnState::Closing, ConnEvent::Drained) => (ConnState::Closed, ConnAction::Nothing),
        _ => (s, ConnAction::Nothing),
    }
}

/// Advances a connection by one event.
pub fn step(s: ConnState, e: ConnEvent) -> (r: (ConnState, ConnAction))
    ensures
        r == transition(s, e),
{
    match (s, e) {
        (ConnState::Connecting, ConnEvent::Upgrade) => (
            ConnState::Authenticating,
            ConnAction::Authenticate,
        ),
        (ConnState::Authenticating, ConnEvent::Authenticated { principal }) => (
            ConnState::Open,
            ConnAction::Register { principal },
        ),
        (ConnState::Authenticating, ConnEvent::AuthFailed) => (
            ConnState::Unauthorized,
            ConnAction::Reject,
        ),
        (ConnState::Open, ConnEvent::KeepAliveDue) => (ConnState::Open, ConnAction::SendKeepAlive),
        (ConnState::Open, ConnEvent::SendFailed) => (ConnState::Closing, ConnAction::Deregister),
        (ConnState::Open, ConnEvent::PeerClosed) => (ConnState::Closing, ConnAction::Deregister),
        (ConnState::Open, ConnEvent::Shutdown) => (ConnState::Closing, ConnAction::Deregister),
        (ConnState::Closing, ConnEvent::Drained) => (ConnState::Closed, ConnAction::Nothing),
        _ => (s, ConnAction::Nothing),
    }
}

/// Only a successful authentication opens a connection, and it is the only
/// step that registers one.
pub proof fn lemma_open_only_after_authentication(s: ConnState, e: ConnEvent)
    ensures
        s != ConnState::Open && transition(s, e).0 == ConnState::Open ==> s
            == ConnState::Authenticating && e is Authenticated,
        transition(s, e).1 is Register ==> s == ConnState::Authenticating && e is Authenticated,
{
}

/// Terminal states stay as they are and ask for nothing.
pub proof fn lemma_terminal_states_are_final(s: ConnState, e: ConnEvent)
    requires
        s == ConnState::Closed || s == ConnState::Unauthorized,
    ensures
        transition(s, e) == (s, ConnAction::Nothing),
{
}

/// Opens a subscription under connection id `id` from the handshake's
/// credential (optionally written `Bearer <token>`). An absent or invalid
/// credential rejects the connection and leaves the registry as it was; a
/// valid one registers it with an empty queue.
pub fn subscriptions(
    broker: &mut Broker,
    id: u64,
    secret: &[u8],
    authorization: Option<&[u8]>,
    now: u64,
) -> (r: Result<u64, AuthError>)
    requires
        old(broker).wf(),
    ensures
        final(broker).wf(),
        match authorization {
            None => r == Err::<u64, AuthError>(AuthError::Unauthorized) && *final(broker) == *old(
                broker,
            ),
            Some(raw) => match token_principal(secret@, token_of(raw@), now) {
                None => r == Err::<u64, AuthError>(AuthError::Unauthorized) && *final(broker)
                    == *old(broker),
                Some(p) => {
                    &&& r == Ok::<u64, AuthError>(p)
                    &&& registered(final(broker).subscribers(), id)
                    &&& registered(old(broker).subscribers(), id) ==> *final(broker) == *old(
                        broker,
                    )
                    &&& !registered(old(broker).subscribers(), id) ==> {
                        &&& final(broker).subscribers().drop_last() == old(broker).subscribers()
                        &&& final(broker).subscribers().last().id == id
                        &&& final(broker).subscribers().last().principal == p
                        &&& final(broker).subscribers().last().queue@.len() == 0
                    }
                },
            },
        },
{
    match authorization {
        None => Err(AuthError::Unauthorized),
        Some(raw) => broker.connect(id, secret, extract_token(raw), now),
    }
}

} // verus!

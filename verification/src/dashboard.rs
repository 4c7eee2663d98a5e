//! Access to the dashboard: the API token and the live WebSocket feed.
use crate::ids::{hex_encode, hex_lower, mixed_random_bytes, random_bytes_16, is_uuid_v4_bytes};
use vstd::prelude::*;
use vstd::string::*;

verus! {

/// The configured key, where there is one that is not empty.
pub open spec fn usable_key(configured: Option<&str>) -> Option<Seq<char>> {
    match configured {
        Some(k) => if k@.len() == 0 {
            None
        } else {
            Some(k@)
        },
        None => None,
    }
}

/// A token made of 16 random bytes in lowercase hexadecimal.
pub open spec fn is_random_token(t: Seq<char>) -> bool {
    exists|a: Seq<u8>, b: Seq<u8>|
        is_uuid_v4_bytes(a) && is_uuid_v4_bytes(b) && t == hex_lower(mixed_random_bytes(a, b))
}

/// The dashboard token:
/// - a configured key that is not empty is used as it is;
/// - otherwise a fresh token: 16 random bytes (128 random bits) in lowercase
///   hexadecimal, 32 characters.
pub fn resolve_auth_token(configured: Option<&str>) -> (r: String)
    ensures
        match usable_key(configured) {
            Some(k) => r@ == k,
            None => is_random_token(r@),
        },
{
    if let Some(key) = configured {
        if !key.is_empty() {
            return String::from_str(key);
        }
    }
    let bytes = random_bytes_16();
    hex_encode(&bytes)
}

/// A freshly generated dashboard token, as `resolve_auth_token(None)` gives
/// it.  The caller, which owns the terminal, prints it.
pub fn generate_and_print_token() -> (r: String)
    ensures
        is_random_token(r@),
{
    resolve_auth_token(None)
}

/// The query of a live-feed WebSocket request.
#[derive(Debug)]
pub struct WsQuery {
    /// Bearer token passed as a query parameter because the browser WebSocket API
    /// does not support setting custom request headers.
    pub token: Option<String>,
}

/// Whether a live-feed request may be upgraded: its token equals the
/// dashboard token.  Any other request is answered 401.
pub fn ws_token_accepted(query: &WsQuery, auth_token: &str) -> (r: bool)
    ensures
        r == (query.token matches Some(t) && t@ == auth_token@),
{
    match &query.token {
        Some(t) => *t == String::from_str(auth_token),
        None => false,
    }
}

/// What happened on a live-feed connection.
#[derive(Debug)]
pub enum LiveEvent {
    /// A stored invocation arrived and serialised to this JSON text.
    Record(String),
    /// A stored invocation arrived but could not be serialised.
    RecordUnserializable,
    /// The feed skipped records because this subscriber fell behind.
    Lagged(u64),
    /// The feed has closed.
    FeedClosed,
    /// Sending to the client failed.
    SendFailed,
    /// The client sent a message (a close frame included).
    ClientMessage,
    /// The client's stream has ended.
    ClientGone,
}

/// What the connection does next.
#[derive(Debug)]
pub enum LiveAction {
    /// Send this text frame to the client.
    Send(String),
    /// Keep waiting.
    Continue,
    /// Close the connection.
    Stop,
}

/// One step of a live-feed connection: records go out as text frames; a
/// record that cannot be serialised and a lag are passed over; any message
/// from the client (close frames included), the end of its stream, the end of
/// the feed and a failed send close the connection.
pub fn live_feed_step(event: LiveEvent) -> (r: LiveAction)
    ensures
        match event {
            LiveEvent::Record(json) => r matches LiveAction::Send(s) && s@ == json@,
            LiveEvent::RecordUnserializable | LiveEvent::Lagged(_) => r is Continue,
            LiveEvent::FeedClosed | LiveEvent::SendFailed | LiveEvent::ClientMessage
            | LiveEvent::ClientGone => r is Stop,
        },
{
    match event {
        LiveEvent::Record(json) => LiveAction::Send(json),
        LiveEvent::RecordUnserializable => LiveAction::Continue,
        LiveEvent::Lagged(_) => LiveAction::Continue,
        LiveEvent::ClientMessage => LiveAction::Stop,
        LiveEvent::FeedClosed => LiveAction::Stop,
        LiveEvent::SendFailed => LiveAction::Stop,
        LiveEvent::ClientGone => LiveAction::Stop,
    }
}

} // verus!

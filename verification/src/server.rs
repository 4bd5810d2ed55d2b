//! The per-connection protocol state machine of the credential server, and the
//! formatting of the success response.
//!
//! One accepted connection moves `Accepted → Parsing → Resolving → Responding
//! → Closed`, with the terminal `Failed` reachable from every non-terminal
//! state. The socket work each step asks for — reading the request, the remote
//! token exchange, writing the response — is carried out outside this library
//! and reported back as the next event.

use vstd::prelude::*;
use vstd::string::StringExecFns;

use crate::parser::RepoInfo;
use crate::parser::parse_input;
use crate::parser::spec_parse;
use crate::token::TokenError;

verus! {

/// Where one connection stands.
#[derive(Debug)]
pub enum ConnState {
    /// The connection was accepted and nothing was read yet.
    Accepted,
    /// The request is being read and parsed.
    Parsing,
    /// The request parsed to this identity; a token is being resolved for it.
    Resolving(RepoInfo),
    /// A token was resolved; this response is being written.
    Responding(String),
    /// The response was written and the connection shut down orderly.
    Closed,
    /// The connection was given up without a response.
    Failed,
}

/// What the outside of the library reports to a connection's state machine.
#[derive(Debug)]
pub enum ConnEvent {
    /// The connection is ready to be served.
    Opened,
    /// The request's lines were read, up to a blank line or end of stream.
    RequestRead(Vec<String>),
    /// The token exchange finished with this secret.
    TokenResolved(String),
    /// The token exchange failed; the cache was left unchanged.
    TokenDenied(TokenError),
    /// The response was written out in full.
    ResponseWritten,
}

/// What a connection's state machine asks the outside to do next.
#[derive(Debug)]
pub enum ConnAction {
    /// Read the request's lines from the connection.
    ReadRequest,
    /// Obtain a token for this identity, from the cache or remotely.
    ResolveToken(RepoInfo),
    /// Write this response to the connection and flush it.
    WriteResponse(String),
    /// Shut both directions of the connection down orderly.
    CloseConnection,
    /// Close the connection without writing anything.
    DropConnection,
}

/// The success response: exactly a `username` line naming the token user, a
/// `password` line holding the secret, and a final line terminator.
pub open spec fn response_view(secret: Seq<char>) -> Seq<char> {
    "username=x-access-token\npassword="@ + secret + "\n"@
}

/// Renders the success response for a resolved secret.
pub fn format_response(secret: &str) -> (r: String)
    ensures
        r@ == response_view(secret@),
{
    let mut s = String::from_str("username=x-access-token\npassword=");
    s.append(secret);
    s.append("\n");
    proof {
        assert(s@ =~= response_view(secret@));
    }
    s
}

/// The connection state machine's transition relation: what follows `state`
/// on `event`, and what is asked of the outside. A parse failure or a failed
/// exchange drops the connection without a response; an event that its state
/// does not expect does too.
pub open spec fn conn_step_ok(
    state: ConnState,
    event: ConnEvent,
    next: ConnState,
    action: ConnAction,
) -> bool {
    match (state, event) {
        (ConnState::Accepted, ConnEvent::Opened) => next is Parsing && action is ReadRequest,
        (ConnState::Parsing, ConnEvent::RequestRead(lines)) => match spec_parse(
            lines.deep_view(),
        ) {
            Ok(identity) => {
                &&& next matches ConnState::Resolving(info) && info.organization@ == identity.0
                    && info.name@ == identity.1
                &&& action matches ConnAction::ResolveToken(info) && info.organization@
                    == identity.0 && info.name@ == identity.1
            },
            Err(_) => next is Failed && action is DropConnection,
        },
        (ConnState::Resolving(_), ConnEvent::TokenResolved(secret)) => {
            &&& next matches ConnState::Responding(resp) && resp@ == response_view(secret@)
            &&& action matches ConnAction::WriteResponse(resp) && resp@ == response_view(secret@)
        },
        (ConnState::Resolving(_), ConnEvent::TokenDenied(_)) => next is Failed
            && action is DropConnection,
        (ConnState::Responding(_), ConnEvent::ResponseWritten) => next is Closed
            && action is CloseConnection,
        _ => next is Failed && action is DropConnection,
    }
}

/// Advances one connection by one event.
pub fn conn_step(state: ConnState, event: ConnEvent) -> (r: (ConnState, ConnAction))
    ensures
        conn_step_ok(state, event, r.0, r.1),
{
    match (state, event) {
        (ConnState::Accepted, ConnEvent::Opened) => (ConnState::Parsing, ConnAction::ReadRequest),
        (ConnState::Parsing, ConnEvent::RequestRead(lines)) => match parse_input(&lines) {
            Ok(info) => {
                let wanted = info.clone();
                (ConnState::Resolving(info), ConnAction::ResolveToken(wanted))
            },
            Err(_) => (ConnState::Failed, ConnAction::DropConnection),
        },
        (ConnState::Resolving(_), ConnEvent::TokenResolved(secret)) => {
            let response = format_response(secret.as_str());
            let copy = response.clone();
            (ConnState::Responding(response), ConnAction::WriteResponse(copy))
        },
        (ConnState::Resolving(_), ConnEvent::TokenDenied(_)) => (
            ConnState::Failed,
            ConnAction::DropConnection,
        ),
        (ConnState::Responding(_), ConnEvent::ResponseWritten) => (
            ConnState::Closed,
            ConnAction::CloseConnection,
        ),
        _ => (ConnState::Failed, ConnAction::DropConnection),
    }
}

} // verus!

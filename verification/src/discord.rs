//! What the chat command decides: whose tunnel a request goes to, with which
//! method, and what the caller is told.

use crate::connection::Outcome;
use crate::utils::decimal_spec;
use crate::utils::push_decimal;
use vstd::prelude::*;
use vstd::string::StringExecFns;

verus! {

/// What a caller is told whose identity has no tunnel.
pub const NOT_CONNECTED_REPLY: &'static str = "Wombat client not connected!";

/// What a caller is told whose request did not get through the tunnel.
pub const TRANSPORT_ERROR_REPLY: &'static str = "Wombat client did not answer!";

/// What a caller is told in a guild that no account manages.
pub const UNEXPECTED_ERROR_REPLY: &'static str = "unexpected error occured :(";

/// The HTTP methods that the command offers.
#[derive(Debug, Clone, Copy, PartialEq, Eq, Structural)]
pub enum MethodInput {
    GET,
    POST,
    PUT,
    DELETE,
    PATCH,
}

/// Whose tunnel a command goes to.
#[derive(Debug, Clone, PartialEq, Eq)]
pub enum Target {
    /// That of the account that manages `guild_id`, which is to be looked up.
    Manager { guild_id: String },
    /// That of `user_id`, the author of the command.
    Author { user_id: String },
}

impl MethodInput {
    /// The method's name, as it stands in a request.
    pub fn name(&self) -> (name: &'static str)
        ensures
            name@ == (match *self {
                MethodInput::GET => "GET"@,
                MethodInput::POST => "POST"@,
                MethodInput::PUT => "PUT"@,
                MethodInput::DELETE => "DELETE"@,
                MethodInput::PATCH => "PATCH"@,
            }),
    {
        match self {
            MethodInput::GET => "GET",
            MethodInput::POST => "POST",
            MethodInput::PUT => "PUT",
            MethodInput::DELETE => "DELETE",
            MethodInput::PATCH => "PATCH",
        }
    }
}

/// The method of a command: the one given, or `GET`.
pub fn method_or_default(method: Option<MethodInput>) -> (chosen: MethodInput)
    ensures
        chosen == (match method {
            Some(method) => method,
            None => MethodInput::GET,
        }),
{
    match method {
        Some(method) => method,
        None => MethodInput::GET,
    }
}

/// Whose tunnel a command goes to: in a guild that of the guild's manager,
/// elsewhere that of the command's author. Ids are written in decimal.
pub fn fetch_target(guild_id: Option<u64>, author_id: u64) -> (target: Target)
    ensures
        match target {
            Target::Manager { guild_id: text } => guild_id is Some && text@ == decimal_spec(
                guild_id->0 as nat,
            ),
            Target::Author { user_id } => guild_id is None && user_id@ == decimal_spec(
                author_id as nat,
            ),
        },
{
    let mut text = String::new();
    match guild_id {
        Some(guild_id) => {
            push_decimal(&mut text, guild_id);
            Target::Manager { guild_id: text }
        },
        None => {
            push_decimal(&mut text, author_id);
            Target::Author { user_id: text }
        },
    }
}

/// What the caller is told for an outcome: the response's text, or which of
/// the two failures it was.
pub open spec fn fetch_reply_spec(outcome: Outcome<String>) -> Seq<char> {
    match outcome {
        Outcome::Forwarded(text) => text@,
        Outcome::NotConnected => NOT_CONNECTED_REPLY@,
        Outcome::TransportError => TRANSPORT_ERROR_REPLY@,
    }
}

/// What the caller is told for an outcome: the response's text, or which of
/// the two failures it was.
pub fn fetch_reply(outcome: Outcome<String>) -> (reply: String)
    ensures
        reply@ == fetch_reply_spec(outcome),
{
    match outcome {
        Outcome::Forwarded(text) => text,
        Outcome::NotConnected => String::from_str(NOT_CONNECTED_REPLY),
        Outcome::TransportError => String::from_str(TRANSPORT_ERROR_REPLY),
    }
}

/// What the caller is told whose URL could not be read.
pub fn invalid_url_reply(reason: &str) -> (reply: String)
    ensures
        reply@ == "Invalid url: "@ + reason@,
{
    let mut reply = String::from_str("Invalid url: ");
    reply.append(reason);
    reply
}

/// What the caller is told whose request body is no JSON.
pub fn invalid_body_reply(reason: &str) -> (reply: String)
    ensures
        reply@ == "Invalid body: "@ + reason@,
{
    let mut reply = String::from_str("Invalid body: ");
    reply.append(reason);
    reply
}

} // verus!

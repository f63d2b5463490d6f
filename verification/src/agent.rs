//! Agent side of the handshake.
//!
//! A state machine like the broker's: the caller owns the socket, performs
//! the action that a step returns, and reports what came of it. What the
//! broker sends is read by the sizes of its frames, never by looking for the
//! record separator.

use crate::protocol::encode_client_packet;
use crate::protocol::encode_client_spec;
use crate::protocol::frame_missing_spec;
use crate::protocol::frame_server_spec;
use crate::protocol::lemma_server_round_trip;
use crate::protocol::read_server_packet;
use crate::protocol::read_server_packet_spec;
use crate::protocol::server_frame_missing;
use crate::protocol::tag_bytes;
use crate::protocol::ClientPacket;
use crate::protocol::Hello;
use crate::protocol::ServerPacket;
use crate::protocol::WombatError;
use crate::protocol::CURRENT_PROTO_VERSION;
use crate::protocol::KEY_WIDTH_BYTES;
use vstd::prelude::*;

verus! {

/// Why the agent gave a handshake up.
#[derive(Debug, Clone, Copy, PartialEq, Eq, Structural)]
pub enum AgentError {
    /// Reading from or writing to the connection failed.
    Io,
    /// The broker speaks another protocol version: this agent is outdated
    /// and must be updated, not run again.
    OutdatedClient,
    /// The broker could not read what the agent sent.
    InvalidPacket,
    /// The broker knows no identity for the key: a new key is needed.
    Unauthorized,
    /// The broker sent a packet that has no place at this stage.
    UnexpectedPacket(ServerPacket),
    /// The secret key is not `KEY_WIDTH_BYTES` bytes long.
    InvalidKey,
    /// The broker sent bytes that are no frame.
    Malformed,
    /// An event was reported that the state was not waiting for.
    OutOfTurn,
}

/// Where the agent's handshake stands.
#[derive(Debug, Clone, PartialEq, Eq)]
pub enum AgentState {
    /// The version announcement is being written.
    SendHello { key: Vec<u8> },
    /// Waiting for the broker's echo, of which `received` has arrived.
    AwaitHelloAck { key: Vec<u8>, received: Vec<u8> },
    /// The key is being written.
    SendAuth,
    /// Waiting for the broker's verdict, of which `received` has arrived.
    AwaitAuthAck { received: Vec<u8> },
    /// Done: the tunnel is up.
    Authenticated,
    /// Done: the connection is to be closed.
    Failed { error: AgentError },
}

/// What the caller reports.
#[derive(Debug, Clone, PartialEq, Eq)]
pub enum AgentEvent {
    /// The bytes of a `Send` were written and flushed.
    Sent,
    /// The bytes that a `Read` asked for.
    Received(Vec<u8>),
    /// Reading or writing failed.
    Io,
}

/// What the caller is to do next.
#[derive(Debug, Clone, PartialEq, Eq)]
pub enum AgentAction {
    /// Write `bytes`, flush, and report.
    Send { bytes: Vec<u8> },
    /// Read exactly `len` bytes and report them.
    Read { len: usize },
    /// The handshake succeeded: serve relayed requests on the connection.
    Serve,
    /// The handshake failed: close the connection.
    Close,
}

/// An `AgentState`, with each buffer as the sequence of its bytes.
pub enum AgentStateView {
    SendHello { key: Seq<u8> },
    AwaitHelloAck { key: Seq<u8>, received: Seq<u8> },
    SendAuth,
    AwaitAuthAck { received: Seq<u8> },
    Authenticated,
    Failed { error: AgentError },
}

/// An `AgentEvent`, with its bytes as a sequence.
pub enum AgentEventView {
    Sent,
    Received(Seq<u8>),
    Io,
}

/// An `AgentAction`, with its bytes as a sequence.
pub enum AgentActionView {
    Send { bytes: Seq<u8> },
    Read { len: nat },
    Serve,
    Close,
}

impl View for AgentState {
    type V = AgentStateView;

    open spec fn view(&self) -> AgentStateView {
        match *self {
            AgentState::SendHello { key } => AgentStateView::SendHello { key: key@ },
            AgentState::AwaitHelloAck { key, received } => AgentStateView::AwaitHelloAck {
                key: key@,
                received: received@,
            },
            AgentState::SendAuth => AgentStateView::SendAuth,
            AgentState::AwaitAuthAck { received } => AgentStateView::AwaitAuthAck {
                received: received@,
            },
            AgentState::Authenticated => AgentStateView::Authenticated,
            AgentState::Failed { error } => AgentStateView::Failed { error },
        }
    }
}

impl View for AgentEvent {
    type V = AgentEventView;

    open spec fn view(&self) -> AgentEventView {
        match *self {
            AgentEvent::Sent => AgentEventView::Sent,
            AgentEvent::Received(bytes) => AgentEventView::Received(bytes@),
            AgentEvent::Io => AgentEventView::Io,
        }
    }
}

impl View for AgentAction {
    type V = AgentActionView;

    open spec fn view(&self) -> AgentActionView {
        match *self {
            AgentAction::Send { bytes } => AgentActionView::Send { bytes: bytes@ },
            AgentAction::Read { len } => AgentActionView::Read { len: len as nat },
            AgentAction::Serve => AgentActionView::Serve,
            AgentAction::Close => AgentActionView::Close,
        }
    }
}

/// What the broker's answer to the announcement means: go on after the echo,
/// give up on anything else.
pub open spec fn read_hello_spec(frame: Seq<u8>) -> Result<(), AgentError> {
    match read_server_packet_spec(frame) {
        Ok(ServerPacket::Hello(_)) => Ok(()),
        Ok(ServerPacket::Error(WombatError::ProtocolVersionMismatch { .. })) => Err(
            AgentError::OutdatedClient,
        ),
        Ok(ServerPacket::Error(WombatError::InvalidPacket)) => Err(AgentError::InvalidPacket),
        Ok(packet) => Err(AgentError::UnexpectedPacket(packet)),
        Err(_) => Err(AgentError::Malformed),
    }
}

/// What the broker's answer to the key means: the tunnel is up after an
/// acceptance, and the agent gives up on anything else.
pub open spec fn read_auth_spec(frame: Seq<u8>) -> Result<(), AgentError> {
    match read_server_packet_spec(frame) {
        Ok(ServerPacket::AuthSuccess) => Ok(()),
        Ok(ServerPacket::Unauthorized) => Err(AgentError::Unauthorized),
        Ok(packet) => Err(AgentError::UnexpectedPacket(packet)),
        Err(_) => Err(AgentError::Malformed),
    }
}

/// The step that ends the handshake with `error`.
pub open spec fn give_up_spec(error: AgentError) -> (AgentStateView, AgentActionView) {
    (AgentStateView::Failed { error }, AgentActionView::Close)
}

/// The encoding of the packet that presents `key`.
pub open spec fn auth_bytes_spec(key: Seq<u8>) -> Seq<u8>
    recommends
        key.len() == KEY_WIDTH_BYTES,
{
    tag_bytes(1) + key
}

/// How the agent begins: by announcing its version.
pub open spec fn handshake_start_spec(key: Seq<u8>) -> (AgentStateView, AgentActionView) {
    (
        AgentStateView::SendHello { key },
        AgentActionView::Send {
            bytes: encode_client_spec(
                ClientPacket::Hello(Hello { protocol_version: CURRENT_PROTO_VERSION }),
            ),
        },
    )
}

/// The step on the broker's echo having arrived in full.
pub open spec fn on_hello_ack_spec(key: Seq<u8>, frame: Seq<u8>) -> (
    AgentStateView,
    AgentActionView,
) {
    match read_hello_spec(frame) {
        Ok(()) => if key.len() == KEY_WIDTH_BYTES {
            (
                AgentStateView::SendAuth,
                AgentActionView::Send { bytes: auth_bytes_spec(key) },
            )
        } else {
            give_up_spec(AgentError::InvalidKey)
        },
        Err(error) => give_up_spec(error),
    }
}

/// The step on the broker's verdict having arrived in full.
pub open spec fn on_auth_ack_spec(frame: Seq<u8>) -> (AgentStateView, AgentActionView) {
    match read_auth_spec(frame) {
        Ok(()) => (AgentStateView::Authenticated, AgentActionView::Serve),
        Err(error) => give_up_spec(error),
    }
}

/// One step of the agent's handshake: the state after `event`, and what the
/// caller is to do next.
pub open spec fn handshake_server_spec(state: AgentStateView, event: AgentEventView) -> (
    AgentStateView,
    AgentActionView,
) {
    match state {
        AgentStateView::SendHello { key } => match event {
            AgentEventView::Sent => match frame_missing_spec(Seq::<u8>::empty()) {
                Some(len) => (
                    AgentStateView::AwaitHelloAck { key, received: Seq::<u8>::empty() },
                    AgentActionView::Read { len },
                ),
                None => give_up_spec(AgentError::Malformed),
            },
            AgentEventView::Io => give_up_spec(AgentError::Io),
            _ => give_up_spec(AgentError::OutOfTurn),
        },
        AgentStateView::AwaitHelloAck { key, received } => match event {
            AgentEventView::Received(bytes) => match frame_missing_spec(received + bytes) {
                Some(len) => if len == 0 {
                    on_hello_ack_spec(key, received + bytes)
                } else {
                    (
                        AgentStateView::AwaitHelloAck { key, received: received + bytes },
                        AgentActionView::Read { len },
                    )
                },
                None => give_up_spec(AgentError::Malformed),
            },
            AgentEventView::Io => give_up_spec(AgentError::Io),
            _ => give_up_spec(AgentError::OutOfTurn),
        },
        AgentStateView::SendAuth => match event {
            AgentEventView::Sent => match frame_missing_spec(Seq::<u8>::empty()) {
                Some(len) => (
                    AgentStateView::AwaitAuthAck { received: Seq::<u8>::empty() },
                    AgentActionView::Read { len },
                ),
                None => give_up_spec(AgentError::Malformed),
            },
            AgentEventView::Io => give_up_spec(AgentError::Io),
            _ => give_up_spec(AgentError::OutOfTurn),
        },
        AgentStateView::AwaitAuthAck { received } => match event {
            AgentEventView::Received(bytes) => match frame_missing_spec(received + bytes) {
                Some(len) => if len == 0 {
                    on_auth_ack_spec(received + bytes)
                } else {
                    (
                        AgentStateView::AwaitAuthAck { received: received + bytes },
                        AgentActionView::Read { len },
                    )
                },
                None => give_up_spec(AgentError::Malformed),
            },
            AgentEventView::Io => give_up_spec(AgentError::Io),
            _ => give_up_spec(AgentError::OutOfTurn),
        },
        AgentStateView::Authenticated => (AgentStateView::Authenticated, AgentActionView::Serve),
        AgentStateView::Failed { error } => (
            AgentStateView::Failed { error },
            AgentActionView::Close,
        ),
    }
}

/// Reads the broker's answer to the announcement out of its frame.
pub fn read_hello(frame: &[u8]) -> (r: Result<(), AgentError>)
    ensures
        r == read_hello_spec(frame@),
{
    match read_server_packet(frame) {
        Ok(ServerPacket::Hello(_)) => Ok(()),
        Ok(ServerPacket::Error(WombatError::ProtocolVersionMismatch { .. })) => Err(
            AgentError::OutdatedClient,
        ),
        Ok(ServerPacket::Error(WombatError::InvalidPacket)) => Err(AgentError::InvalidPacket),
        Ok(packet) => Err(AgentError::UnexpectedPacket(packet)),
        Err(_) => Err(AgentError::Malformed),
    }
}

/// Reads the broker's answer to the key out of its frame.
pub fn read_auth(frame: &[u8]) -> (r: Result<(), AgentError>)
    ensures
        r == read_auth_spec(frame@),
{
    match read_server_packet(frame) {
        Ok(ServerPacket::AuthSuccess) => Ok(()),
        Ok(ServerPacket::Unauthorized) => Err(AgentError::Unauthorized),
        Ok(packet) => Err(AgentError::UnexpectedPacket(packet)),
        Err(_) => Err(AgentError::Malformed),
    }
}

/// The packet that presents `key`; `None` for a key of the wrong width.
pub fn auth_packet(key: &[u8]) -> (packet: Option<ClientPacket>)
    ensures
        match packet {
            Some(ClientPacket::Auth(array)) => array@ == key@,
            Some(_) => false,
            None => key@.len() != KEY_WIDTH_BYTES,
        },
{
    if key.len() != KEY_WIDTH_BYTES {
        return None;
    }
    let mut array = [0u8; KEY_WIDTH_BYTES];
    let mut i: usize = 0;
    while i < KEY_WIDTH_BYTES
        invariant
            i <= KEY_WIDTH_BYTES,
            key@.len() == KEY_WIDTH_BYTES,
            forall|j: int| 0 <= j < i ==> array@[j] == key@[j],
        decreases KEY_WIDTH_BYTES - i,
    {
        array[i] = key[i];
        i += 1;
    }
    assert(array@ =~= key@);
    Some(ClientPacket::Auth(array))
}

fn give_up(error: AgentError) -> (next: (AgentState, AgentAction))
    ensures
        (next.0@, next.1@) == give_up_spec(error),
{
    (AgentState::Failed { error }, AgentAction::Close)
}

/// Begins the agent's handshake with the secret key `key`.
pub fn handshake_start(key: Vec<u8>) -> (next: (AgentState, AgentAction))
    ensures
        (next.0@, next.1@) == handshake_start_spec(key@),
{
    let hello = ClientPacket::Hello(Hello { protocol_version: CURRENT_PROTO_VERSION });
    (AgentState::SendHello { key }, AgentAction::Send { bytes: encode_client_packet(&hello) })
}

fn append(received: Vec<u8>, bytes: Vec<u8>) -> (all: Vec<u8>)
    ensures
        all@ == received@ + bytes@,
{
    let mut all = received;
    let mut bytes = bytes;
    all.append(&mut bytes);
    all
}

/// Advances the agent's handshake by one event.
pub fn handshake_server(state: AgentState, event: AgentEvent) -> (next: (AgentState, AgentAction))
    ensures
        (next.0@, next.1@) == handshake_server_spec(state@, event@),
{
    match state {
        AgentState::SendHello { key } => match event {
            AgentEvent::Sent => {
                let received: Vec<u8> = Vec::new();
                assert(received@ =~= Seq::<u8>::empty());
                match server_frame_missing(received.as_slice()) {
                    Some(len) => (
                        AgentState::AwaitHelloAck { key, received },
                        AgentAction::Read { len },
                    ),
                    None => give_up(AgentError::Malformed),
                }
            },
            AgentEvent::Io => give_up(AgentError::Io),
            _ => give_up(AgentError::OutOfTurn),
        },
        AgentState::AwaitHelloAck { key, received } => match event {
            AgentEvent::Received(bytes) => {
                let frame = append(received, bytes);
                match server_frame_missing(frame.as_slice()) {
                    Some(len) => {
                        if len == 0 {
                            match read_hello(frame.as_slice()) {
                                Ok(()) => match auth_packet(key.as_slice()) {
                                    Some(packet) => (
                                        AgentState::SendAuth,
                                        AgentAction::Send { bytes: encode_client_packet(&packet) },
                                    ),
                                    None => give_up(AgentError::InvalidKey),
                                },
                                Err(error) => give_up(error),
                            }
                        } else {
                            (
                                AgentState::AwaitHelloAck { key, received: frame },
                                AgentAction::Read { len },
                            )
                        }
                    },
                    None => give_up(AgentError::Malformed),
                }
            },
            AgentEvent::Io => give_up(AgentError::Io),
            _ => give_up(AgentError::OutOfTurn),
        },
        AgentState::SendAuth => match event {
            AgentEvent::Sent => {
                let received: Vec<u8> = Vec::new();
                assert(received@ =~= Seq::<u8>::empty());
                match server_frame_missing(received.as_slice()) {
                    Some(len) => (AgentState::AwaitAuthAck { received }, AgentAction::Read { len }),
                    None => give_up(AgentError::Malformed),
                }
            },
            AgentEvent::Io => give_up(AgentError::Io),
            _ => give_up(AgentError::OutOfTurn),
        },
        AgentState::AwaitAuthAck { received } => match event {
            AgentEvent::Received(bytes) => {
                let frame = append(received, bytes);
                match server_frame_missing(frame.as_slice()) {
                    Some(len) => {
                        if len == 0 {
                            match read_auth(frame.as_slice()) {
                                Ok(()) => (AgentState::Authenticated, AgentAction::Serve),
                                Err(error) => give_up(error),
                            }
                        } else {
                            (
                                AgentState::AwaitAuthAck { received: frame },
                                AgentAction::Read { len },
                            )
                        }
                    },
                    None => give_up(AgentError::Malformed),
                }
            },
            AgentEvent::Io => give_up(AgentError::Io),
            _ => give_up(AgentError::OutOfTurn),
        },
        AgentState::Authenticated => (AgentState::Authenticated, AgentAction::Serve),
        AgentState::Failed { error } => (AgentState::Failed { error }, AgentAction::Close),
    }
}

/// What the agent makes of each answer of the broker. After a version
/// mismatch it gives up as outdated, whatever version the broker names and
/// whatever key it holds; the echo lets a key of the right width be presented;
/// an acceptance brings the tunnel up; a refusal ends the handshake as
/// unauthorized.
pub proof fn lemma_agent_verdicts(key: Seq<u8>, version: u8)
    ensures
        on_hello_ack_spec(
            key,
            frame_server_spec(
                ServerPacket::Error(WombatError::ProtocolVersionMismatch { server_version: version }),
            ),
        ) == give_up_spec(AgentError::OutdatedClient),
        on_hello_ack_spec(
            key,
            frame_server_spec(ServerPacket::Error(WombatError::InvalidPacket)),
        ) == give_up_spec(AgentError::InvalidPacket),
        key.len() == KEY_WIDTH_BYTES ==> on_hello_ack_spec(
            key,
            frame_server_spec(ServerPacket::Hello(Hello { protocol_version: version })),
        ) == (AgentStateView::SendAuth, AgentActionView::Send { bytes: auth_bytes_spec(key) }),
        key.len() != KEY_WIDTH_BYTES ==> on_hello_ack_spec(
            key,
            frame_server_spec(ServerPacket::Hello(Hello { protocol_version: version })),
        ) == give_up_spec(AgentError::InvalidKey),
        on_auth_ack_spec(frame_server_spec(ServerPacket::AuthSuccess)) == (
            AgentStateView::Authenticated,
            AgentActionView::Serve,
        ),
        on_auth_ack_spec(frame_server_spec(ServerPacket::Unauthorized)) == give_up_spec(
            AgentError::Unauthorized,
        ),
{
    let rest = Seq::<u8>::empty();
    lemma_server_round_trip(
        ServerPacket::Error(WombatError::ProtocolVersionMismatch { server_version: version }),
        rest,
    );
    lemma_server_round_trip(ServerPacket::Error(WombatError::InvalidPacket), rest);
    lemma_server_round_trip(ServerPacket::Hello(Hello { protocol_version: version }), rest);
    lemma_server_round_trip(ServerPacket::AuthSuccess, rest);
    lemma_server_round_trip(ServerPacket::Unauthorized, rest);
}

/// An agent that has given up stays so, and asks only to close the connection.
pub proof fn lemma_agent_failure_is_final(error: AgentError, event: AgentEventView)
    ensures
        handshake_server_spec(AgentStateView::Failed { error }, event) == give_up_spec(error),
{
}

} // verus!

//! Wire format of the handshake packets.
//!
//! Every packet starts with a four-byte little-endian variant tag. The fields
//! that follow are fixed-width, so the length of a packet is known from its
//! variant alone and no length prefix is sent.

use vstd::prelude::*;

verus! {

/// Protocol version spoken by this build.
pub const CURRENT_PROTO_VERSION: u8 = 1;

/// Width of a secret key on the wire.
pub const KEY_WIDTH_BYTES: usize = 32;

/// Width of a variant tag on the wire.
pub const TAG_WIDTH_BYTES: usize = 4;

/// Byte that the broker writes after each of its packets.
pub const RECORD_SEPARATOR: u8 = 10;

/// Version announcement, sent by the agent and echoed by the broker.
#[derive(Debug, Clone, Copy, PartialEq, Eq, Structural)]
pub struct Hello {
    pub protocol_version: u8,
}

impl Hello {
    /// Whether the announced version is the one this build speaks.
    pub fn is_valid(&self) -> (valid: bool)
        ensures
            valid == (self.protocol_version == CURRENT_PROTO_VERSION),
    {
        self.protocol_version == CURRENT_PROTO_VERSION
    }
}

/// Protocol failure that the broker reports to the agent before closing.
#[derive(Debug, Clone, Copy, PartialEq, Eq, Structural)]
pub enum WombatError {
    ProtocolVersionMismatch { server_version: u8 },
    InvalidPacket,
}

/// Packets sent by the broker.
#[derive(Debug, Clone, Copy, PartialEq, Eq, Structural)]
pub enum ServerPacket {
    Hello(Hello),
    Error(WombatError),
    AuthSuccess,
    Unauthorized,
}

impl ServerPacket {
    /// The packet that reports `error` to the agent.
    pub fn from_error(error: WombatError) -> (packet: ServerPacket)
        ensures
            packet == ServerPacket::Error(error),
    {
        ServerPacket::Error(error)
    }
}

/// Packets sent by the agent.
#[derive(Debug, Clone, Copy, PartialEq, Eq)]
pub enum ClientPacket {
    Hello(Hello),
    Auth([u8; KEY_WIDTH_BYTES]),
}

/// Why a packet could not be read.
#[derive(Debug, Clone, Copy, PartialEq, Eq, Structural)]
pub enum ReadError {
    /// The connection failed before the packet was complete.
    Io,
    /// The bytes are the encoding of no packet.
    Deserialization,
    /// The bytes hold a packet, but not the one this stage of the handshake expects.
    InvalidPacket,
}

/// The four bytes of a variant tag: a 32-bit number, least significant byte
/// first. Every tag of this protocol is below 256, so the last three are zero.
pub open spec fn tag_bytes(tag: u8) -> Seq<u8> {
    seq![tag, 0u8, 0u8, 0u8]
}

/// Encoding of an agent packet.
pub open spec fn encode_client_spec(packet: ClientPacket) -> Seq<u8> {
    match packet {
        ClientPacket::Hello(hello) => tag_bytes(0) + seq![hello.protocol_version],
        ClientPacket::Auth(key) => tag_bytes(1) + key@,
    }
}

/// Encoding of an error report, as it stands inside `ServerPacket::Error`.
pub open spec fn encode_error_spec(error: WombatError) -> Seq<u8> {
    match error {
        WombatError::ProtocolVersionMismatch { server_version } => tag_bytes(0)
            + seq![server_version],
        WombatError::InvalidPacket => tag_bytes(1),
    }
}

/// Encoding of a broker packet.
pub open spec fn encode_server_spec(packet: ServerPacket) -> Seq<u8> {
    match packet {
        ServerPacket::Hello(hello) => tag_bytes(0) + seq![hello.protocol_version],
        ServerPacket::Error(error) => tag_bytes(1) + encode_error_spec(error),
        ServerPacket::AuthSuccess => tag_bytes(2),
        ServerPacket::Unauthorized => tag_bytes(3),
    }
}

/// What the broker writes for a packet: its encoding, then the record separator.
pub open spec fn frame_server_spec(packet: ServerPacket) -> Seq<u8> {
    encode_server_spec(packet).push(RECORD_SEPARATOR)
}

/// `bytes` begins with the encoding of `packet`. Bytes after it are not looked at.
pub open spec fn client_packet_at(bytes: Seq<u8>, packet: ClientPacket) -> bool {
    encode_client_spec(packet).is_prefix_of(bytes)
}

/// `bytes` begins with the encoding of `packet`. Bytes after it are not looked at.
pub open spec fn server_packet_at(bytes: Seq<u8>, packet: ServerPacket) -> bool {
    encode_server_spec(packet).is_prefix_of(bytes)
}

/// The agent packet that `bytes` begins with, if there is one.
pub open spec fn decode_client_spec(bytes: Seq<u8>) -> Option<ClientPacket> {
    if exists|packet: ClientPacket| client_packet_at(bytes, packet) {
        Some(choose|packet: ClientPacket| client_packet_at(bytes, packet))
    } else {
        None
    }
}

/// The broker packet that `bytes` begins with, if there is one.
pub open spec fn decode_server_spec(bytes: Seq<u8>) -> Option<ServerPacket> {
    if exists|packet: ServerPacket| server_packet_at(bytes, packet) {
        Some(choose|packet: ServerPacket| server_packet_at(bytes, packet))
    } else {
        None
    }
}

/// Length of the encoding of a `ClientPacket::Hello`.
pub open spec fn hello_len_spec() -> nat {
    5
}

/// Length of the encoding of a `ClientPacket::Auth`.
pub open spec fn auth_len_spec() -> nat {
    36
}

/// Length that the encoding of every agent packet of this variant has.
pub open spec fn client_packet_len_spec(packet: ClientPacket) -> nat {
    match packet {
        ClientPacket::Hello(_) => hello_len_spec(),
        ClientPacket::Auth(_) => auth_len_spec(),
    }
}

/// Length that the encoding of every broker packet of this variant has.
pub open spec fn server_packet_len_spec(packet: ServerPacket) -> nat {
    match packet {
        ServerPacket::Hello(_) => 5,
        ServerPacket::Error(WombatError::ProtocolVersionMismatch { .. }) => 9,
        ServerPacket::Error(WombatError::InvalidPacket) => 8,
        ServerPacket::AuthSuccess => 4,
        ServerPacket::Unauthorized => 4,
    }
}

/// The encoding of an agent packet has the length of its variant.
pub proof fn lemma_client_packet_len(packet: ClientPacket)
    ensures
        encode_client_spec(packet).len() == client_packet_len_spec(packet),
{
}

/// The encoding of a broker packet has the length of its variant, and its
/// frame one byte more.
pub proof fn lemma_server_packet_len(packet: ServerPacket)
    ensures
        encode_server_spec(packet).len() == server_packet_len_spec(packet),
        frame_server_spec(packet).len() == server_packet_len_spec(packet) + 1,
{
}

/// No two agent packets begin the same bytes: the encoding is prefix-free.
pub proof fn lemma_client_packet_unique(bytes: Seq<u8>, p: ClientPacket, q: ClientPacket)
    requires
        client_packet_at(bytes, p),
        client_packet_at(bytes, q),
    ensures
        p == q,
{
    let ep = encode_client_spec(p);
    let eq = encode_client_spec(q);
    assert(ep[0] == bytes[0] && eq[0] == bytes[0]);
    match (p, q) {
        (ClientPacket::Hello(a), ClientPacket::Hello(b)) => {
            assert(ep[4] == bytes[4] && eq[4] == bytes[4]);
        },
        (ClientPacket::Auth(a), ClientPacket::Auth(b)) => {
            assert forall|i: int| 0 <= i < KEY_WIDTH_BYTES implies a[i] == b[i] by {
                assert(ep[4 + i] == bytes[4 + i] && eq[4 + i] == bytes[4 + i]);
            }
            assert(a =~= b);
        },
        _ => {},
    }
}

/// No two broker packets begin the same bytes: the encoding is prefix-free.
pub proof fn lemma_server_packet_unique(bytes: Seq<u8>, p: ServerPacket, q: ServerPacket)
    requires
        server_packet_at(bytes, p),
        server_packet_at(bytes, q),
    ensures
        p == q,
{
    let ep = encode_server_spec(p);
    let eq = encode_server_spec(q);
    assert(ep[0] == bytes[0] && eq[0] == bytes[0]);
    match (p, q) {
        (ServerPacket::Hello(a), ServerPacket::Hello(b)) => {
            assert(ep[4] == bytes[4] && eq[4] == bytes[4]);
        },
        (ServerPacket::Error(a), ServerPacket::Error(b)) => {
            assert(ep[4] == bytes[4] && eq[4] == bytes[4]);
            match (a, b) {
                (
                    WombatError::ProtocolVersionMismatch { .. },
                    WombatError::ProtocolVersionMismatch { .. },
                ) => {
                    assert(ep[8] == bytes[8] && eq[8] == bytes[8]);
                },
                _ => {},
            }
        },
        _ => {},
    }
}

/// Decoding undoes encoding, whatever bytes follow the packet.
pub proof fn lemma_client_round_trip(packet: ClientPacket, rest: Seq<u8>)
    ensures
        decode_client_spec(encode_client_spec(packet) + rest) == Some(packet),
        decode_client_spec(encode_client_spec(packet)) == Some(packet),
{
    let bytes = encode_client_spec(packet) + rest;
    assert(client_packet_at(bytes, packet));
    lemma_client_packet_unique(bytes, packet, decode_client_spec(bytes).unwrap());
    let alone = encode_client_spec(packet);
    assert(client_packet_at(alone, packet));
    lemma_client_packet_unique(alone, packet, decode_client_spec(alone).unwrap());
}

/// Decoding undoes encoding, whatever bytes follow the packet; so it reads a
/// packet out of its frame.
pub proof fn lemma_server_round_trip(packet: ServerPacket, rest: Seq<u8>)
    ensures
        decode_server_spec(encode_server_spec(packet) + rest) == Some(packet),
        decode_server_spec(encode_server_spec(packet)) == Some(packet),
        decode_server_spec(frame_server_spec(packet)) == Some(packet),
{
    let bytes = encode_server_spec(packet) + rest;
    assert(server_packet_at(bytes, packet));
    lemma_server_packet_unique(bytes, packet, decode_server_spec(bytes).unwrap());
    let alone = encode_server_spec(packet);
    assert(server_packet_at(alone, packet));
    lemma_server_packet_unique(alone, packet, decode_server_spec(alone).unwrap());
    let frame = frame_server_spec(packet);
    assert(server_packet_at(frame, packet));
    lemma_server_packet_unique(frame, packet, decode_server_spec(frame).unwrap());
}

/// What decodes to a packet begins with the encoding of that packet.
pub proof fn lemma_client_decode_sound(bytes: Seq<u8>)
    ensures
        match decode_client_spec(bytes) {
            Some(packet) => client_packet_at(bytes, packet),
            None => forall|packet: ClientPacket| !client_packet_at(bytes, packet),
        },
{
}

/// What decodes to a packet begins with the encoding of that packet.
pub proof fn lemma_server_decode_sound(bytes: Seq<u8>)
    ensures
        match decode_server_spec(bytes) {
            Some(packet) => server_packet_at(bytes, packet),
            None => forall|packet: ServerPacket| !server_packet_at(bytes, packet),
        },
{
}

fn push_tag(out: &mut Vec<u8>, tag: u8)
    ensures
        final(out)@ == old(out)@ + tag_bytes(tag),
{
    out.push(tag);
    out.push(0);
    out.push(0);
    out.push(0);
    assert(out@ =~= old(out)@ + tag_bytes(tag));
}

/// Reads the variant tag at `offset`; `None` for a tag that no variant has.
fn read_tag(bytes: &[u8], offset: usize) -> (tag: Option<u8>)
    requires
        offset + 4 <= bytes@.len(),
    ensures
        match tag {
            Some(t) => tag_bytes(t).is_prefix_of(bytes@.skip(offset as int)),
            None => forall|t: u8| !tag_bytes(t).is_prefix_of(bytes@.skip(offset as int)),
        },
{
    let ghost tail = bytes@.skip(offset as int);
    let len = bytes.len();
    assert(offset + 4 <= len);
    if bytes[offset + 1] == 0 && bytes[offset + 2] == 0 && bytes[offset + 3] == 0 {
        proof {
            assert(tail.subrange(0, 4) =~= tag_bytes(bytes[offset as int]));
        }
        Some(bytes[offset])
    } else {
        proof {
            assert forall|t: u8| !tag_bytes(t).is_prefix_of(tail) by {
                if tag_bytes(t).is_prefix_of(tail) {
                    let e = tag_bytes(t);
                    assert(e[1] == tail[1] && e[2] == tail[2] && e[3] == tail[3]);
                }
            }
        }
        None
    }
}

/// Serialises an agent packet.
pub fn encode_client_packet(packet: &ClientPacket) -> (bytes: Vec<u8>)
    ensures
        bytes@ == encode_client_spec(*packet),
        bytes@.len() == client_packet_len_spec(*packet),
{
    let mut out: Vec<u8> = Vec::new();
    match packet {
        ClientPacket::Hello(hello) => {
            push_tag(&mut out, 0);
            out.push(hello.protocol_version);
            assert(out@ =~= encode_client_spec(*packet));
        },
        ClientPacket::Auth(key) => {
            push_tag(&mut out, 1);
            let mut i: usize = 0;
            while i < KEY_WIDTH_BYTES
                invariant
                    i <= KEY_WIDTH_BYTES,
                    out@ =~= tag_bytes(1) + key@.take(i as int),
                decreases KEY_WIDTH_BYTES - i,
            {
                out.push(key[i]);
                i += 1;
            }
            assert(key@.take(KEY_WIDTH_BYTES as int) =~= key@);
        },
    }
    out
}

/// Serialises an error report.
fn push_error(out: &mut Vec<u8>, error: &WombatError)
    ensures
        final(out)@ == old(out)@ + encode_error_spec(*error),
{
    match error {
        WombatError::ProtocolVersionMismatch { server_version } => {
            push_tag(out, 0);
            out.push(*server_version);
            assert(out@ =~= old(out)@ + encode_error_spec(*error));
        },
        WombatError::InvalidPacket => {
            push_tag(out, 1);
        },
    }
}

/// Serialises a broker packet.
pub fn encode_server_packet(packet: &ServerPacket) -> (bytes: Vec<u8>)
    ensures
        bytes@ == encode_server_spec(*packet),
        bytes@.len() == server_packet_len_spec(*packet),
{
    let mut out: Vec<u8> = Vec::new();
    match packet {
        ServerPacket::Hello(hello) => {
            push_tag(&mut out, 0);
            out.push(hello.protocol_version);
        },
        ServerPacket::Error(error) => {
            push_tag(&mut out, 1);
            push_error(&mut out, error);
        },
        ServerPacket::AuthSuccess => {
            push_tag(&mut out, 2);
        },
        ServerPacket::Unauthorized => {
            push_tag(&mut out, 3);
        },
    }
    assert(out@ =~= encode_server_spec(*packet));
    out
}

/// What the broker writes for a packet: its encoding, then the record separator.
pub fn frame_server_packet(packet: &ServerPacket) -> (frame: Vec<u8>)
    ensures
        frame@ == frame_server_spec(*packet),
        frame@.len() == server_packet_len_spec(*packet) + 1,
{
    let mut out = encode_server_packet(packet);
    out.push(RECORD_SEPARATOR);
    out
}

/// Result of reading an agent packet out of `bytes`.
pub open spec fn read_client_packet_spec(bytes: Seq<u8>) -> Result<ClientPacket, ReadError> {
    match decode_client_spec(bytes) {
        Some(packet) => Ok(packet),
        None => Err(ReadError::Deserialization),
    }
}

/// Result of reading a version announcement out of `bytes`.
pub open spec fn read_hello_spec(bytes: Seq<u8>) -> Result<Hello, ReadError> {
    match decode_client_spec(bytes) {
        Some(ClientPacket::Hello(hello)) => Ok(hello),
        Some(_) => Err(ReadError::InvalidPacket),
        None => Err(ReadError::Deserialization),
    }
}

/// Result of reading a secret key out of `bytes`.
pub open spec fn read_auth_spec(bytes: Seq<u8>) -> Result<[u8; KEY_WIDTH_BYTES], ReadError> {
    match decode_client_spec(bytes) {
        Some(ClientPacket::Auth(key)) => Ok(key),
        Some(_) => Err(ReadError::InvalidPacket),
        None => Err(ReadError::Deserialization),
    }
}

/// Result of reading a broker packet out of `bytes`.
pub open spec fn read_server_packet_spec(bytes: Seq<u8>) -> Result<ServerPacket, ReadError> {
    match decode_server_spec(bytes) {
        Some(packet) => Ok(packet),
        None => Err(ReadError::Deserialization),
    }
}

/// Copies the key that stands behind the tag of an `Auth` packet.
fn copy_key(buf: &[u8]) -> (key: [u8; KEY_WIDTH_BYTES])
    requires
        buf@.len() >= TAG_WIDTH_BYTES + KEY_WIDTH_BYTES,
    ensures
        key@ == buf@.subrange(TAG_WIDTH_BYTES as int, TAG_WIDTH_BYTES + KEY_WIDTH_BYTES),
{
    let mut key = [0u8; KEY_WIDTH_BYTES];
    let mut i: usize = 0;
    while i < KEY_WIDTH_BYTES
        invariant
            i <= KEY_WIDTH_BYTES,
            buf@.len() >= TAG_WIDTH_BYTES + KEY_WIDTH_BYTES,
            forall|j: int| 0 <= j < i ==> key@[j] == buf@[TAG_WIDTH_BYTES + j],
        decreases KEY_WIDTH_BYTES - i,
    {
        key[i] = buf[TAG_WIDTH_BYTES + i];
        i += 1;
    }
    assert(key@ =~= buf@.subrange(TAG_WIDTH_BYTES as int, TAG_WIDTH_BYTES + KEY_WIDTH_BYTES));
    key
}

/// Parses the agent packet that `buf` begins with. Bytes behind the packet are
/// ignored; a buffer that ends inside a packet, or begins with the tag of no
/// variant, is malformed.
pub fn read_client_packet(buf: &[u8]) -> (r: Result<ClientPacket, ReadError>)
    ensures
        r == read_client_packet_spec(buf@),
        r matches Ok(packet) ==> client_packet_at(buf@, packet),
        r matches Err(e) ==> e == ReadError::Deserialization,
{
    let ghost bytes = buf@;
    let mut found: Option<ClientPacket> = None;
    if buf.len() >= TAG_WIDTH_BYTES {
        let tag = read_tag(buf, 0);
        assert(bytes.skip(0) =~= bytes);
        match tag {
            Some(0) => {
                if buf.len() >= TAG_WIDTH_BYTES + 1 {
                    let packet = ClientPacket::Hello(Hello { protocol_version: buf[4] });
                    assert(encode_client_spec(packet) =~= bytes.subrange(0, 5)) by {
                        assert(tag_bytes(0) =~= bytes.subrange(0, 4));
                    }
                    found = Some(packet);
                }
            },
            Some(1) => {
                if buf.len() >= TAG_WIDTH_BYTES + KEY_WIDTH_BYTES {
                    let packet = ClientPacket::Auth(copy_key(buf));
                    assert(encode_client_spec(packet) =~= bytes.subrange(0, 36)) by {
                        assert(tag_bytes(1) =~= bytes.subrange(0, 4));
                    }
                    found = Some(packet);
                }
            },
            _ => {},
        }
    }
    match found {
        Some(packet) => {
            proof {
                assert(client_packet_at(bytes, packet));
                lemma_client_packet_unique(bytes, packet, decode_client_spec(bytes).unwrap());
            }
            Ok(packet)
        },
        None => {
            proof {
                assert forall|packet: ClientPacket| !client_packet_at(bytes, packet) by {
                    if client_packet_at(bytes, packet) {
                        let e = encode_client_spec(packet);
                        let t: u8 = if packet is Hello { 0 } else { 1 };
                        assert(tag_bytes(t) =~= e.subrange(0, 4));
                        assert(tag_bytes(t) =~= bytes.subrange(0, 4));
                        assert(bytes.skip(0) =~= bytes);
                        assert(tag_bytes(t).is_prefix_of(bytes));
                        assert(e[0] == bytes[0]);
                    }
                }
            }
            Err(ReadError::Deserialization)
        },
    }
}

/// Parses the bytes read where a version announcement is expected.
pub fn read_hello(buf: &[u8]) -> (r: Result<Hello, ReadError>)
    ensures
        r == read_hello_spec(buf@),
{
    match read_client_packet(buf) {
        Ok(ClientPacket::Hello(hello)) => Ok(hello),
        Ok(_) => Err(ReadError::InvalidPacket),
        Err(e) => Err(e),
    }
}

/// Parses the bytes read where a secret key is expected.
pub fn read_auth(buf: &[u8]) -> (r: Result<[u8; KEY_WIDTH_BYTES], ReadError>)
    ensures
        r == read_auth_spec(buf@),
{
    match read_client_packet(buf) {
        Ok(ClientPacket::Auth(key)) => Ok(key),
        Ok(_) => Err(ReadError::InvalidPacket),
        Err(e) => Err(e),
    }
}

/// Parses the inner part of an error report, which begins at byte 4 of `buf`.
fn read_error(buf: &[u8]) -> (r: Option<WombatError>)
    requires
        buf@.len() >= TAG_WIDTH_BYTES,
    ensures
        match r {
            Some(error) => encode_error_spec(error).is_prefix_of(buf@.skip(4)),
            None => forall|error: WombatError| !encode_error_spec(error).is_prefix_of(buf@.skip(4)),
        },
{
    let ghost tail = buf@.skip(4);
    let mut found: Option<WombatError> = None;
    if buf.len() >= 2 * TAG_WIDTH_BYTES {
        match read_tag(buf, TAG_WIDTH_BYTES) {
            Some(0) => {
                if buf.len() >= 2 * TAG_WIDTH_BYTES + 1 {
                    let error = WombatError::ProtocolVersionMismatch { server_version: buf[8] };
                    assert(encode_error_spec(error) =~= tail.subrange(0, 5)) by {
                        assert(tag_bytes(0) =~= tail.subrange(0, 4));
                    }
                    found = Some(error);
                }
            },
            Some(1) => {
                found = Some(WombatError::InvalidPacket);
            },
            _ => {},
        }
    }
    proof {
        if found is None {
            assert forall|error: WombatError| !encode_error_spec(error).is_prefix_of(tail) by {
                if encode_error_spec(error).is_prefix_of(tail) {
                    let e = encode_error_spec(error);
                    let t: u8 = if error is InvalidPacket { 1 } else { 0 };
                    assert(tag_bytes(t) =~= e.subrange(0, 4));
                    assert(tag_bytes(t) =~= tail.subrange(0, 4));
                    assert(tag_bytes(t).is_prefix_of(tail));
                    assert(e[0] == tail[0]);
                }
            }
        }
    }
    found
}

/// Parses the broker packet that `buf` begins with. Bytes behind the packet,
/// such as the record separator, are ignored.
pub fn read_server_packet(buf: &[u8]) -> (r: Result<ServerPacket, ReadError>)
    ensures
        r == read_server_packet_spec(buf@),
        r matches Ok(packet) ==> server_packet_at(buf@, packet),
        r matches Err(e) ==> e == ReadError::Deserialization,
{
    let ghost bytes = buf@;
    let mut found: Option<ServerPacket> = None;
    if buf.len() >= TAG_WIDTH_BYTES {
        let tag = read_tag(buf, 0);
        assert(bytes.skip(0) =~= bytes);
        match tag {
            Some(0) => {
                if buf.len() >= TAG_WIDTH_BYTES + 1 {
                    let packet = ServerPacket::Hello(Hello { protocol_version: buf[4] });
                    assert(encode_server_spec(packet) =~= bytes.subrange(0, 5)) by {
                        assert(tag_bytes(0) =~= bytes.subrange(0, 4));
                    }
                    found = Some(packet);
                }
            },
            Some(1) => {
                match read_error(buf) {
                    Some(error) => {
                        let packet = ServerPacket::Error(error);
                        let ghost e = encode_error_spec(error);
                        assert(encode_server_spec(packet) =~= bytes.subrange(0, (4 + e.len()) as int)) by {
                            assert(tag_bytes(1) =~= bytes.subrange(0, 4));
                            assert(e =~= bytes.skip(4).subrange(0, e.len() as int));
                        }
                        found = Some(packet);
                    },
                    None => {
                        assert forall|packet: ServerPacket| !server_packet_at(bytes, packet) by {
                            if server_packet_at(bytes, packet) {
                                let e = encode_server_spec(packet);
                                assert(e[0] == bytes[0]);
                                let inner = encode_error_spec(packet->Error_0);
                                assert(inner =~= bytes.skip(4).subrange(0, inner.len() as int));
                            }
                        }
                    },
                }
            },
            Some(2) => {
                assert(encode_server_spec(ServerPacket::AuthSuccess) =~= bytes.subrange(0, 4));
                found = Some(ServerPacket::AuthSuccess);
            },
            Some(3) => {
                assert(encode_server_spec(ServerPacket::Unauthorized) =~= bytes.subrange(0, 4));
                found = Some(ServerPacket::Unauthorized);
            },
            _ => {},
        }
    }
    match found {
        Some(packet) => {
            proof {
                assert(server_packet_at(bytes, packet));
                lemma_server_packet_unique(bytes, packet, decode_server_spec(bytes).unwrap());
            }
            Ok(packet)
        },
        None => {
            proof {
                assert forall|packet: ServerPacket| !server_packet_at(bytes, packet) by {
                    if server_packet_at(bytes, packet) {
                        let e = encode_server_spec(packet);
                        let t: u8 = match packet {
                            ServerPacket::Hello(_) => 0,
                            ServerPacket::Error(_) => 1,
                            ServerPacket::AuthSuccess => 2,
                            ServerPacket::Unauthorized => 3,
                        };
                        assert(tag_bytes(t) =~= e.subrange(0, 4));
                        assert(tag_bytes(t) =~= bytes.subrange(0, 4));
                        assert(bytes.skip(0) =~= bytes);
                        assert(tag_bytes(t).is_prefix_of(bytes));
                        assert(e[0] == bytes[0]);
                    }
                }
            }
            Err(ReadError::Deserialization)
        },
    }
}

/// Number of bytes to read for each kind of agent packet.
#[derive(Debug, Clone, Copy, PartialEq, Eq, Structural)]
pub struct PacketLength {
    pub hello: usize,
    pub auth: usize,
}

impl PacketLength {
    /// Measures one packet of each kind. Every packet of that kind has the
    /// length measured here, whatever its fields hold.
    pub fn get() -> (lengths: PacketLength)
        ensures
            lengths.hello == hello_len_spec(),
            lengths.auth == auth_len_spec(),
            forall|packet: ClientPacket| #[trigger]
                encode_client_spec(packet).len() == (if packet is Hello {
                    lengths.hello
                } else {
                    lengths.auth
                }),
    {
        let hello = encode_client_packet(
            &ClientPacket::Hello(Hello { protocol_version: CURRENT_PROTO_VERSION }),
        );
        let auth = encode_client_packet(&ClientPacket::Auth([0u8; KEY_WIDTH_BYTES]));
        PacketLength { hello: hello.len(), auth: auth.len() }
    }
}

/// `prefix` is the beginning of what the broker writes for `packet`.
pub open spec fn frame_begins(packet: ServerPacket, prefix: Seq<u8>) -> bool {
    prefix.is_prefix_of(frame_server_spec(packet))
}

/// `missing` more bytes complete the shortest frame that begins with `prefix`.
pub open spec fn is_frame_missing(prefix: Seq<u8>, missing: nat) -> bool {
    &&& exists|packet: ServerPacket| #[trigger]
        frame_begins(packet, prefix) && frame_server_spec(packet).len() == prefix.len() + missing
    &&& forall|packet: ServerPacket| #[trigger]
        frame_begins(packet, prefix) ==> frame_server_spec(packet).len() >= prefix.len() + missing
}

/// How many bytes may be read behind `prefix` without reading past the end of
/// a frame: the number that completes the shortest frame that begins with
/// `prefix`. Zero where `prefix` is a whole frame; `None` where no frame
/// begins with `prefix`.
pub open spec fn frame_missing_spec(prefix: Seq<u8>) -> Option<nat> {
    if exists|missing: nat| is_frame_missing(prefix, missing) {
        Some(choose|missing: nat| is_frame_missing(prefix, missing))
    } else {
        None
    }
}

/// The packet of the variant of `packet` whose version byte agrees with
/// `prefix` as far as `prefix` reaches.
pub open spec fn frame_candidate(packet: ServerPacket, prefix: Seq<u8>) -> ServerPacket {
    match packet {
        ServerPacket::Hello(_) => ServerPacket::Hello(
            Hello {
                protocol_version: if prefix.len() > 4 {
                    prefix[4]
                } else {
                    0
                },
            },
        ),
        ServerPacket::Error(WombatError::ProtocolVersionMismatch { .. }) => ServerPacket::Error(
            WombatError::ProtocolVersionMismatch {
                server_version: if prefix.len() > 8 {
                    prefix[8]
                } else {
                    0
                },
            },
        ),
        _ => packet,
    }
}

/// A frame that begins with `prefix` has the length of its candidate, which
/// begins with `prefix` too.
proof fn lemma_frame_candidate(packet: ServerPacket, prefix: Seq<u8>)
    requires
        frame_begins(packet, prefix),
    ensures
        frame_begins(frame_candidate(packet, prefix), prefix),
        frame_server_spec(frame_candidate(packet, prefix)).len() == frame_server_spec(
            packet,
        ).len(),
{
    let frame = frame_server_spec(packet);
    let candidate = frame_server_spec(frame_candidate(packet, prefix));
    assert(frame.len() == candidate.len());
    assert forall|i: int| 0 <= i < prefix.len() implies prefix[i] == candidate[i] by {
        assert(prefix[i] == frame[i]);
        if prefix.len() > 4 {
            assert(prefix[4] == frame[4]);
        }
        if prefix.len() > 8 {
            assert(prefix[8] == frame[8]);
        }
    }
    assert(prefix =~= candidate.subrange(0, prefix.len() as int));
}

/// At most one number of missing bytes fits a prefix.
pub proof fn lemma_frame_missing_unique(prefix: Seq<u8>, a: nat, b: nat)
    requires
        is_frame_missing(prefix, a),
        is_frame_missing(prefix, b),
    ensures
        a == b,
{
}

/// Reading by `frame_missing_spec` never reads past the end of a frame and
/// always gets on: behind the first `n` bytes of a frame, at least one byte
/// and at most the rest of the frame is asked for, and behind the whole
/// frame nothing.
pub proof fn lemma_frame_missing_sound(packet: ServerPacket, n: nat)
    requires
        n <= frame_server_spec(packet).len(),
    ensures
        ({
            let frame = frame_server_spec(packet);
            match frame_missing_spec(frame.take(n as int)) {
                Some(missing) => n + missing <= frame.len() && (missing == 0 <==> n == frame.len()),
                None => false,
            }
        }),
{
    let frame = frame_server_spec(packet);
    let prefix = frame.take(n as int);
    assert(frame_begins(packet, prefix));
    let auth_success = ServerPacket::AuthSuccess;
    let unauthorized = ServerPacket::Unauthorized;
    let invalid = ServerPacket::Error(WombatError::InvalidPacket);
    let hello = frame_candidate(ServerPacket::Hello(Hello { protocol_version: 0 }), prefix);
    let mismatch = frame_candidate(
        ServerPacket::Error(WombatError::ProtocolVersionMismatch { server_version: 0 }),
        prefix,
    );
    // The shortest of the candidates that begin with `prefix`.
    let best: nat = if frame_begins(auth_success, prefix) || frame_begins(unauthorized, prefix) {
        5
    } else if frame_begins(hello, prefix) {
        6
    } else if frame_begins(invalid, prefix) {
        9
    } else {
        10
    };
    lemma_frame_candidate(packet, prefix);
    assert forall|other: ServerPacket| #[trigger] frame_begins(other, prefix) implies frame_server_spec(
        other,
    ).len() >= best by {
        lemma_frame_candidate(other, prefix);
    }
    let missing = (best - n) as nat;
    let witness = if frame_begins(auth_success, prefix) {
        auth_success
    } else if frame_begins(unauthorized, prefix) {
        unauthorized
    } else if frame_begins(hello, prefix) {
        hello
    } else if frame_begins(invalid, prefix) {
        invalid
    } else {
        mismatch
    };
    assert(frame_begins(witness, prefix) && frame_server_spec(witness).len() == prefix.len()
        + missing);
    assert(is_frame_missing(prefix, missing));
    let chosen = frame_missing_spec(prefix).unwrap();
    lemma_frame_missing_unique(prefix, missing, chosen);
    if n == frame.len() {
        assert(prefix =~= frame);
    }
    if missing == 0 {
        assert(prefix =~= frame_server_spec(witness));
        assert(server_packet_at(frame, witness)) by {
            assert(encode_server_spec(witness) =~= frame.subrange(
                0,
                encode_server_spec(witness).len() as int,
            ));
        }
        assert(server_packet_at(frame, packet)) by {
            assert(encode_server_spec(packet) =~= frame.subrange(
                0,
                encode_server_spec(packet).len() as int,
            ));
        }
        lemma_server_packet_unique(frame, witness, packet);
    }
}

/// Whether `prefix` is the beginning of `whole`.
fn begins(whole: &[u8], prefix: &[u8]) -> (r: bool)
    ensures
        r == prefix@.is_prefix_of(whole@),
{
    if prefix.len() > whole.len() {
        return false;
    }
    let mut i: usize = 0;
    while i < prefix.len()
        invariant
            i <= prefix.len() <= whole.len(),
            forall|j: int| 0 <= j < i ==> prefix@[j] == whole@[j],
        decreases prefix.len() - i,
    {
        if prefix[i] != whole[i] {
            assert(prefix@[i as int] != whole@.subrange(0, prefix@.len() as int)[i as int]);
            return false;
        }
        i += 1;
    }
    assert(prefix@ =~= whole@.subrange(0, prefix@.len() as int));
    true
}

/// The fewer of `best` and the bytes that `prefix` lacks of the frame of
/// `packet`, where that frame begins with `prefix`; else `best`.
fn consider(prefix: &[u8], packet: ServerPacket, best: Option<usize>) -> (r: Option<usize>)
    ensures
        r == (if frame_begins(packet, prefix@) {
            let lacks = (frame_server_spec(packet).len() - prefix@.len()) as usize;
            match best {
                Some(b) if b <= lacks => Some(b),
                _ => Some(lacks),
            }
        } else {
            best
        }),
{
    let frame = frame_server_packet(&packet);
    if begins(frame.as_slice(), prefix) {
        let lacks = frame.len() - prefix.len();
        match best {
            Some(b) => if b <= lacks {
                Some(b)
            } else {
                Some(lacks)
            },
            None => Some(lacks),
        }
    } else {
        best
    }
}

/// How many bytes to read behind `prefix`, read so far from the broker, so as
/// to come to the end of a frame without reading past it. `Some(0)`: `prefix`
/// is a whole frame. `None`: no frame begins with `prefix`.
pub fn server_frame_missing(prefix: &[u8]) -> (missing: Option<usize>)
    ensures
        missing matches Some(count) ==> frame_missing_spec(prefix@) == Some(count as nat),
        missing is None ==> frame_missing_spec(prefix@) is None,
{
    let ghost bytes = prefix@;
    let hello = ServerPacket::Hello(
        Hello {
            protocol_version: if prefix.len() > 4 {
                prefix[4]
            } else {
                0
            },
        },
    );
    let mismatch = ServerPacket::from_error(
        WombatError::ProtocolVersionMismatch {
            server_version: if prefix.len() > 8 {
                prefix[8]
            } else {
                0
            },
        },
    );
    let invalid = ServerPacket::from_error(WombatError::InvalidPacket);
    let best = consider(prefix, ServerPacket::AuthSuccess, None);
    let best = consider(prefix, ServerPacket::Unauthorized, best);
    let best = consider(prefix, hello, best);
    let best = consider(prefix, invalid, best);
    let best = consider(prefix, mismatch, best);
    proof {
        assert forall|packet: ServerPacket| #[trigger] frame_begins(packet, bytes) implies match best {
            Some(b) => frame_server_spec(packet).len() >= bytes.len() + b,
            None => false,
        } by {
            lemma_frame_candidate(packet, bytes);
        }
        match best {
            Some(b) => {
                let witness = if frame_begins(ServerPacket::AuthSuccess, bytes) && b + bytes.len()
                    == 5 {
                    ServerPacket::AuthSuccess
                } else if frame_begins(ServerPacket::Unauthorized, bytes) && b + bytes.len() == 5 {
                    ServerPacket::Unauthorized
                } else if frame_begins(hello, bytes) && b + bytes.len() == 6 {
                    hello
                } else if frame_begins(invalid, bytes) && b + bytes.len() == 9 {
                    invalid
                } else {
                    mismatch
                };
                assert(frame_begins(witness, bytes) && frame_server_spec(witness).len()
                    == bytes.len() + b);
                assert(is_frame_missing(bytes, b as nat));
                lemma_frame_missing_unique(bytes, b as nat, frame_missing_spec(bytes).unwrap());
            },
            None => {
                assert forall|count: nat| !is_frame_missing(bytes, count) by {
                    if is_frame_missing(bytes, count) {
                        let packet = choose|packet: ServerPacket| #[trigger]
                            frame_begins(packet, bytes) && frame_server_spec(packet).len()
                                == bytes.len() + count;
                        assert(frame_begins(packet, bytes));
                    }
                }
            },
        }
    }
    best
}

} // verus!

//! The `status` subcommand: asks a server for its status with the Server List Ping protocol.

use vstd::prelude::*;
use vstd::string::*;

use crate::package::server::properties::{property_value, property_value_spec, GetValueError};
use crate::text::{parse_u16, parse_unsigned};
use crate::varint::{
    decode, decode_spec, encode, law_decode_encode_prefix, lemma_varint_bytes_len, varint_bytes, varint_end,
    VarIntError,
};

verus! {

/// Arguments for the `status` subcommand.
pub struct Status {
    /// Maximum number of seconds to wait before failing to connect to server
    pub timeout: u64,
    /// Domain name or IP address of target server
    pub host: Option<String>,
    /// Port number where target server is listening from
    pub port: Option<u16>,
}

/// The port that Minecraft servers listen on unless told otherwise.
pub const DEFAULT_PORT: u16 = 25565;

/// The port that a properties text gives a local server: its `server-port`, or
/// [`DEFAULT_PORT`] if the text has none.
pub open spec fn server_port_spec(contents: Seq<char>) -> Result<u16, GetValueError> {
    match property_value_spec(contents, "server-port"@) {
        None => Ok(DEFAULT_PORT),
        Some(value) => match parse_unsigned(value) {
            Some(n) if n <= u16::MAX => Ok(n as u16),
            _ => Err(GetValueError::Parse),
        },
    }
}

/// The port of the local server, read from the text of its `server.properties`.
///
/// # Errors
///
/// [`GetValueError::Parse`] if `server-port` is not a port number.
pub fn server_port(contents: &str) -> (res: Result<u16, GetValueError>)
    ensures
        match (res, server_port_spec(contents@)) {
            (Ok(p), Ok(q)) => p == q,
            (Err(e), Err(f)) => e is Parse && f is Parse,
            _ => false,
        },
{
    match property_value(contents, "server-port") {
        None => Ok(DEFAULT_PORT),
        Some(value) => match parse_u16(value.as_str()) {
            Some(port) => Ok(port),
            None => Err(GetValueError::Parse),
        },
    }
}

/// The address that a properties text gives a local server: its `server-ip`, or the loopback
/// address `127.0.0.1` if that is missing or empty.
pub open spec fn server_ip_spec(contents: Seq<char>) -> Seq<char> {
    match property_value_spec(contents, "server-ip"@) {
        Some(value) if value.len() > 0 => value,
        _ => "127.0.0.1"@,
    }
}

/// The address of the local server, read from the text of its `server.properties`.
pub fn server_ip(contents: &str) -> (ip: String)
    ensures
        ip@ == server_ip_spec(contents@),
{
    match property_value(contents, "server-ip") {
        Some(value) => {
            if value.as_str().is_empty() {
                String::from_str("127.0.0.1")
            } else {
                value
            }
        },
        None => String::from_str("127.0.0.1"),
    }
}

/// Why a status response was refused.
#[derive(Debug, PartialEq, Eq, Structural)]
pub enum ResponseError {
    /// The response carried another packet id than 0.
    UnexpectedPacketId(i32),
    /// The response announced a negative length for its data.
    NegativeDataLength(i32),
    /// A number of the response ran over five bytes.
    VarIntTooBig,
}

/// Checks the packet id of a status response, which must be 0.
pub fn check_packet_id(packet_id: i32) -> (res: Result<(), ResponseError>)
    ensures
        res == if packet_id == 0 {
            Ok::<(), ResponseError>(())
        } else {
            Err(ResponseError::UnexpectedPacketId(packet_id))
        },
{
    if packet_id != 0 {
        Err(ResponseError::UnexpectedPacketId(packet_id))
    } else {
        Ok(())
    }
}

/// Why a handshake packet could not be built.
#[derive(Debug, PartialEq, Eq, Structural)]
pub enum PacketError {
    /// The host name is longer than an `i32` can count.
    HostTooLong,
    /// The packet is longer than an `i32` can count.
    PacketTooLong,
}

/// The largest `i32`, as a `usize`.
const I32_LIMIT: usize = 2147483647;

/// The fields of a handshake after its length: packet id 0, protocol version 0, the host's length
/// and bytes, the port in big-endian order, and next state 1 (status).
pub open spec fn handshake_body(host: Seq<u8>, port: u16) -> Seq<u8> {
    seq![0u8, 0u8] + varint_bytes(host.len()) + host + seq![(port / 256) as u8, (port % 256) as u8]
        + seq![1u8]
}

/// The handshake packet for `host` and `port`: the length of the body, then the body.
pub open spec fn handshake_spec(host: Seq<u8>, port: u16) -> Result<Seq<u8>, PacketError> {
    if host.len() > i32::MAX {
        Err(PacketError::HostTooLong)
    } else if handshake_body(host, port).len() > i32::MAX {
        Err(PacketError::PacketTooLong)
    } else {
        Ok(varint_bytes(handshake_body(host, port).len()) + handshake_body(host, port))
    }
}

/// Appends `bytes` to `out`.
fn push_all(out: &mut Vec<u8>, bytes: &[u8])
    ensures
        final(out)@ == old(out)@ + bytes@,
{
    let mut i: usize = 0;
    while i < bytes.len()
        invariant
            i <= bytes@.len(),
            out@ == old(out)@ + bytes@.take(i as int),
        decreases bytes@.len() - i,
    {
        out.push(bytes[i]);
        proof {
            assert(bytes@.take(i as int + 1) =~= bytes@.take(i as int).push(bytes@[i as int]));
        }
        i = i + 1;
    }
    proof {
        assert(bytes@.take(bytes@.len() as int) =~= bytes@);
    }
}

/// Builds the handshake packet that opens a status request to `host` at `port`.
///
/// # Errors
///
/// [`PacketError::HostTooLong`] if the host's length does not fit in an `i32`,
/// [`PacketError::PacketTooLong`] if the packet's does not.
pub fn handshake_packet(host: &str, port: u16) -> (res: Result<Vec<u8>, PacketError>)
    ensures
        match (res, handshake_spec(host.spec_bytes(), port)) {
            (Ok(p), Ok(q)) => p@ == q,
            (Err(e), Err(f)) => e == f,
            _ => false,
        },
{
    let host_bytes = host.as_bytes();
    let host_len = host_bytes.len();
    if host_len > I32_LIMIT {
        return Err(PacketError::HostTooLong);
    }
    let packet_id = encode(0);
    let protocol_version = encode(0);
    let server_address_length = encode(host_len as i32);
    let next_state = encode(1);
    proof {
        assert(varint_bytes(0) == seq![0u8]);
        assert(varint_bytes(1) == seq![1u8]);
        lemma_varint_bytes_len(host_len as nat);
        assert(host_len <= 2147483647);
        assert(((host_len as i32) as u32) as nat == host_len as nat) by (bit_vector)
            requires
                host_len <= 2147483647,
        ;
        assert(host_bytes@ == host.spec_bytes());
        assert(host.spec_bytes().len() == host_len);
    }
    let packet_length = packet_id.len() + protocol_version.len() + server_address_length.len()
        + host_len + 2 + next_state.len();
    if packet_length > I32_LIMIT {
        return Err(PacketError::PacketTooLong);
    }
    let packet_length_encoded = encode(packet_length as i32);
    proof {
        assert(((packet_length as i32) as u32) as nat == packet_length as nat) by (bit_vector)
            requires
                packet_length <= 2147483647,
        ;
        lemma_varint_bytes_len(packet_length as nat);
    }
    let mut packet: Vec<u8> = Vec::new();
    push_all(&mut packet, packet_length_encoded.as_slice());
    push_all(&mut packet, packet_id.as_slice());
    push_all(&mut packet, protocol_version.as_slice());
    push_all(&mut packet, server_address_length.as_slice());
    push_all(&mut packet, host_bytes);
    packet.push((port / 256) as u8);
    packet.push((port % 256) as u8);
    push_all(&mut packet, next_state.as_slice());
    proof {
        let body = handshake_body(host.spec_bytes(), port);
        assert(body.len() == packet_length);
        assert(packet@ =~= varint_bytes(packet_length as nat) + body);
    }
    Ok(packet)
}

/// The status request packet: length 1, packet id 0, no fields.
pub fn status_request_packet() -> (packet: Vec<u8>)
    ensures
        packet@ == seq![1u8, 0u8],
{
    let packet_id = encode(0);
    let packet_length_encoded = encode(1);
    proof {
        assert(varint_bytes(0) == seq![0u8]);
        assert(varint_bytes(1) == seq![1u8]);
    }
    let mut packet: Vec<u8> = Vec::new();
    push_all(&mut packet, packet_length_encoded.as_slice());
    push_all(&mut packet, packet_id.as_slice());
    proof {
        assert(packet@ =~= seq![1u8, 0u8]);
    }
    packet
}

/// How many bytes of data a status response announces: its data length, which must not be
/// negative.
pub fn data_size(length: i32) -> (res: Result<usize, ResponseError>)
    ensures
        res == if length >= 0 {
            Ok::<usize, ResponseError>(length as usize)
        } else {
            Err(ResponseError::NegativeDataLength(length))
        },
{
    if length >= 0 {
        Ok(length as usize)
    } else {
        Err(ResponseError::NegativeDataLength(length))
    }
}

/// Where reading a status response stands, given the bytes received so far.
#[derive(Debug, PartialEq, Eq, Structural)]
pub enum FrameStep {
    /// More bytes are needed.
    NeedMore,
    /// The response is complete: its data (the JSON text) is `len` bytes from `start`.
    Body { start: usize, len: usize },
    /// The response cannot be read.
    Failed(ResponseError),
}

/// A varint that could not be read: more bytes may complete it, or it ran too long.
pub open spec fn varint_failure(e: VarIntError) -> FrameStep {
    match e {
        VarIntError::Incomplete => FrameStep::NeedMore,
        VarIntError::TooBig => FrameStep::Failed(ResponseError::VarIntTooBig),
    }
}

/// Where reading a status response stands. It is the packet length, the packet id, which must
/// be 0, the data length, which must not be negative, then the data. The packet length is read
/// past, not checked.
pub open spec fn frame_spec(b: Seq<u8>) -> FrameStep {
    match decode_spec(b) {
        Err(e) => varint_failure(e),
        Ok((_, n1)) => match decode_spec(b.skip(n1 as int)) {
            Err(e) => varint_failure(e),
            Ok((id, n2)) => if id != 0 {
                FrameStep::Failed(ResponseError::UnexpectedPacketId(id))
            } else {
                match decode_spec(b.skip((n1 + n2) as int)) {
                    Err(e) => varint_failure(e),
                    Ok((len, n3)) => if len < 0 {
                        FrameStep::Failed(ResponseError::NegativeDataLength(len))
                    } else if b.len() < n1 + n2 + n3 + len {
                        FrameStep::NeedMore
                    } else {
                        FrameStep::Body { start: (n1 + n2 + n3) as usize, len: len as usize }
                    },
                }
            },
        },
    }
}

/// A varint that was read takes at least one byte and no more than there are.
proof fn lemma_varint_end_bounds(b: Seq<u8>, i: nat)
    ensures
        varint_end(b, i) matches Some(n) ==> i < n <= b.len() && n <= 5,
    decreases 5 - i,
{
    if i < b.len() && i < 5 && b[i as int] >= 128 {
        lemma_varint_end_bounds(b, i + 1);
    }
}

/// The bytes of `bytes` from `from` on.
fn tail(bytes: &[u8], from: usize) -> (rest: &[u8])
    requires
        from <= bytes@.len(),
    ensures
        rest@ == bytes@.skip(from as int),
{
    let rest = &bytes[from..bytes.len()];
    assert(rest@ =~= bytes@.skip(from as int));
    rest
}

/// Tells where reading a status response stands, given the bytes received so far.
pub fn status_frame(bytes: &[u8]) -> (step: FrameStep)
    ensures
        step == frame_spec(bytes@),
{
    let ghost b = bytes@;
    proof {
        lemma_varint_end_bounds(b, 0);
    }
    let n1 = match decode(bytes) {
        Err(VarIntError::Incomplete) => return FrameStep::NeedMore,
        Err(VarIntError::TooBig) => return FrameStep::Failed(ResponseError::VarIntTooBig),
        Ok((_, n)) => n,
    };
    let rest = tail(bytes, n1);
    proof {
        lemma_varint_end_bounds(b.skip(n1 as int), 0);
    }
    let (id, n2) = match decode(rest) {
        Err(VarIntError::Incomplete) => return FrameStep::NeedMore,
        Err(VarIntError::TooBig) => return FrameStep::Failed(ResponseError::VarIntTooBig),
        Ok(found) => found,
    };
    if id != 0 {
        return FrameStep::Failed(ResponseError::UnexpectedPacketId(id));
    }
    let after_id = n1 + n2;
    let rest = tail(bytes, after_id);
    proof {
        assert(b.skip(n1 as int).skip(n2 as int) =~= b.skip(after_id as int));
        lemma_varint_end_bounds(b.skip(after_id as int), 0);
    }
    let (length, n3) = match decode(rest) {
        Err(VarIntError::Incomplete) => return FrameStep::NeedMore,
        Err(VarIntError::TooBig) => return FrameStep::Failed(ResponseError::VarIntTooBig),
        Ok(found) => found,
    };
    let len = match data_size(length) {
        Err(e) => return FrameStep::Failed(e),
        Ok(len) => len,
    };
    let start = after_id + n3;
    if bytes.len() - start < len {
        FrameStep::NeedMore
    } else {
        FrameStep::Body { start, len }
    }
}

/// The port of the server to ask: the one given, or else the one its `server.properties`
/// text gives (`contents` is read only where no port is given).
pub fn resolve_port(port: Option<u16>, contents: &str) -> (res: Result<u16, GetValueError>)
    ensures
        port matches Some(p) ==> (res matches Ok(q) && q == p),
        port is None ==> match (res, server_port_spec(contents@)) {
            (Ok(a), Ok(b)) => a == b,
            (Err(GetValueError::Parse), Err(GetValueError::Parse)) => true,
            _ => false,
        },
{
    match port {
        Some(p) => Ok(p),
        None => server_port(contents),
    }
}

} // verus!

verus! {

/// A status response built with the varint encoder frames to its data: after the packet
/// length (whatever it is), packet id 0 and the data length, the body is exactly the JSON
/// bytes that follow the data length.
pub proof fn law_frame_of_response(packet_length: i32, json: Seq<u8>)
    requires
        json.len() <= i32::MAX,
    ensures
        ({
            let p = varint_bytes((packet_length as u32) as nat);
            let d = varint_bytes(json.len());
            let b = p + seq![0u8] + d + json;
            &&& frame_spec(b) == FrameStep::Body {
                start: (p.len() + 1 + d.len()) as usize,
                len: json.len() as usize,
            }
            &&& b.subrange((p.len() + 1 + d.len()) as int, (p.len() + 1 + d.len() + json.len()) as int) == json
        }),
{
    let p = varint_bytes((packet_length as u32) as nat);
    let d = varint_bytes(json.len());
    let b = p + seq![0u8] + d + json;
    let x = json.len() as i32;
    assert((x as u32) as nat == json.len());
    lemma_varint_bytes_len((packet_length as u32) as nat);
    lemma_varint_bytes_len(json.len());
    // The packet length.
    assert(b =~= p + (seq![0u8] + d + json));
    law_decode_encode_prefix(packet_length, seq![0u8] + d + json);
    // The packet id.
    assert(b.skip(p.len() as int) =~= seq![0u8] + (d + json));
    assert(varint_bytes(0) == seq![0u8]);
    assert(((0i32 as u32) as nat) == 0);
    law_decode_encode_prefix(0i32, d + json);
    // The data length.
    assert(b.skip((p.len() + 1) as int) =~= d + json);
    law_decode_encode_prefix(x, json);
    assert(b.subrange((p.len() + 1 + d.len()) as int, (p.len() + 1 + d.len() + json.len()) as int) =~= json);
}

} // verus!

verus! {

/// Law: a handshake packet reads back as what it was built from. Its first varint is the
/// length of the rest; then come packet id 0, protocol version 0, the host's length as a
/// varint and its bytes, the port in big-endian order, and next state 1.
pub proof fn law_handshake_reads_back(host: Seq<u8>, port: u16)
    ensures
        handshake_spec(host, port) matches Ok(packet) ==> ({
                let n: int = varint_bytes(handshake_body(host, port).len()).len() as int;
                let h: int = varint_bytes(host.len()).len() as int;
                let rest = packet.skip(n);
                let e: int = 2 + h + host.len();
                &&& decode_spec(packet) == Ok::<(i32, nat), VarIntError>((rest.len() as i32, n as nat))
                &&& rest[0] == 0u8 && rest[1] == 0u8
                &&& decode_spec(rest.skip(2)) == Ok::<(i32, nat), VarIntError>((host.len() as i32, h as nat))
                &&& rest.subrange(2 + h, e) == host
                &&& rest[e] as int * 256 + rest[e + 1] as int == port as int
                &&& rest[e + 2] == 1u8
                &&& rest.len() == e + 3
            }),
{
    if let Ok(packet) = handshake_spec(host, port) {
        let body = handshake_body(host, port);
        let hv = varint_bytes(host.len());
        lemma_varint_bytes_len(host.len());
        lemma_varint_bytes_len(body.len());
        let bl = body.len() as i32;
        assert((bl as u32) as nat == body.len());
        let prefix = varint_bytes(body.len());
        law_decode_encode_prefix(bl, body);
        let n: int = prefix.len() as int;
        let h: int = hv.len() as int;
        let rest = packet.skip(n);
        assert(rest =~= body);
        let hlen = host.len() as i32;
        assert((hlen as u32) as nat == host.len());
        let after = seq![(port / 256) as u8, (port % 256) as u8] + seq![1u8];
        assert(body.skip(2) =~= hv + (host + after));
        law_decode_encode_prefix(hlen, host + after);
        let e: int = 2 + h + host.len();
        assert(body.subrange(2 + h, e) =~= host);
        assert(body[e] == (port / 256) as u8);
        assert(body[e + 1] == (port % 256) as u8);
        assert(body[e + 2] == 1u8);
        assert(rest.len() as i32 == bl);
    }
}

} // verus!

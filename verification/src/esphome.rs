use std::time::Duration;

use base64::engine::general_purpose::STANDARD;
use base64::Engine;
use vstd::prelude::*;
use vstd::slice::slice_subrange;
use vstd::string::*;

use crate::noise::{
    builder_build_initiator, builder_prologue, builder_psk, handshake_into_transport,
    handshake_read, handshake_write, noise_builder, parse_noise_params, transport_read, transport_write,
    HandshakeModel, NoiseHandshake, NoiseTransport, TransportModel,
};
use crate::crsf::{first_zero, first_zero_index, slice_range, string_from_utf8_lossy, utf8_lossy};
use crate::rc::{RcChannels, RC_CHANNEL_COUNT};
use crate::text::{decimal_chars, decimal_u16, parse_decimal_u16, push_decimal, str_equal, trim_bounds, trim_spec};

verus! {

/// TCP port number of the ESPHome native API, used when an address names none.
pub const DEFAULT_PORT: u16 = 6053;
/// First byte of every encrypted API frame.
pub const NOISE_MARKER: u8 = 0x01;
pub const API_VERSION_MAJOR: u32 = 1;
pub const API_VERSION_MINOR: u32 = 14;

pub const HELLO_REQUEST: u16 = 1;
pub const HELLO_RESPONSE: u16 = 2;
pub const DISCONNECT_REQUEST: u16 = 5;
pub const DISCONNECT_RESPONSE: u16 = 6;
pub const PING_REQUEST: u16 = 7;
pub const PING_RESPONSE: u16 = 8;
pub const LIST_ENTITIES_REQUEST: u16 = 11;
pub const LIST_ENTITIES_DONE_RESPONSE: u16 = 19;
pub const LIST_ENTITIES_SERVICES_RESPONSE: u16 = 41;
pub const EXECUTE_SERVICE_REQUEST: u16 = 42;
pub const EXECUTE_SERVICE_RESPONSE: u16 = 131;

/// The Noise pattern of the encrypted API.
pub const NOISE_PROTOCOL: &'static str = "Noise_NNpsk0_25519_ChaChaPoly_SHA256";
/// Name of the action that takes the RC channels.
pub const RC_ACTION_NAME: &'static str = "set_rc_channels";

/// Response mode "status" of an action.
pub const SUPPORTS_RESPONSE_STATUS: u32 = 100;
/// Wire code of an integer action argument.
pub const SERVICE_ARGUMENT_TYPE_INT: i32 = 1;

/// `std::time::Duration` is declared by vstd; the codecs' error types here.
#[verifier::external_type_specification]
#[verifier::external_body]
pub struct ExBase64DecodeError(base64::DecodeError);

#[verifier::external_type_specification]
#[verifier::external_body]
pub struct ExProstDecodeError(prost::DecodeError);

/// Who answered on the other end.
#[derive(Clone, Debug, Eq, PartialEq)]
pub struct ServerIdentity {
    pub name: String,
    pub mac_address: String,
    pub version: String,
}

#[derive(Clone, Copy, Debug, Eq, PartialEq)]
pub struct ActionAcknowledgement {
    pub round_trip: Duration,
}

/// How the advertised `set_rc_channels` action differs from the bridge's.
#[allow(inconsistent_fields)]
#[derive(Clone, Debug, Eq, PartialEq)]
pub enum ActionSchemaMismatch {
    ResponseMode { expected: u32, actual: u32 },
    ArgumentCount { expected: usize, actual: usize },
    ArgumentName { position: usize, expected: &'static str, actual: String },
    ArgumentType { name: String, expected: i32, actual: i32 },
}

#[derive(Clone, Copy, Debug, Eq, PartialEq, Structural)]
pub enum MalformedMessageReason {
    HeaderTooShort,
    LengthMismatch { declared: usize, actual: usize },
}

#[allow(inconsistent_fields)]
#[derive(Debug)]
pub enum EspHomeError {
    Resolve { address: String, source: std::io::Error },
    NoAddress { address: String },
    Connect { address: String, source: std::io::Error },
    ConfigureSocket(std::io::Error),
    InvalidEncryptionKey(base64::DecodeError),
    EncryptionKeyLength { actual: usize },
    Noise(snow::Error),
    HandshakeRejected { message: String },
    MalformedServerHello,
    UnsupportedNoiseProtocol { protocol: u8 },
    UnexpectedFrameMarker { marker: u8 },
    FrameTooLarge { size: usize },
    MalformedMessage { reason: MalformedMessageReason },
    UnsupportedApiVersion { major: u32, minor: u32 },
    ActionNotFound,
    ActionSchemaMismatch { reason: ActionSchemaMismatch },
    DiscoveryTimeout { timeout: Duration },
    MessageTimeout { message_type: u16, timeout: Duration },
    ActionTimeout { timeout: Duration },
    ActionRejected { message: String },
    Disconnected,
    Decode(prost::DecodeError),
    Io(std::io::Error),
}

/// The API hello that the client sends.
#[derive(Clone, Debug, Eq, PartialEq)]
pub struct HelloRequest {
    pub client_info: String,
    pub api_version_major: u32,
    pub api_version_minor: u32,
}

#[derive(Clone, Debug, Eq, PartialEq)]
pub struct HelloResponse {
    pub api_version_major: u32,
    pub api_version_minor: u32,
    pub server_info: String,
    pub name: String,
}

#[derive(Clone, Debug, Eq, PartialEq)]
pub struct ListEntitiesServicesArgument {
    pub name: String,
    pub argument_type: i32,
}

#[derive(Clone, Debug, Eq, PartialEq)]
pub struct ListEntitiesServicesResponse {
    pub name: String,
    pub key: u32,
    pub args: Vec<ListEntitiesServicesArgument>,
    pub supports_response: u32,
}

#[derive(Clone, Copy, Debug, Eq, PartialEq)]
pub struct ExecuteServiceArgument {
    pub int_value: i32,
}

#[derive(Clone, Debug, Eq, PartialEq)]
pub struct ExecuteServiceRequest {
    pub key: u32,
    pub args: Vec<ExecuteServiceArgument>,
    pub call_id: u32,
    pub return_response: bool,
}

#[derive(Clone, Debug, Eq, PartialEq)]
pub struct ExecuteServiceResponse {
    pub call_id: u32,
    pub success: bool,
    pub error_message: String,
}

/// The argument types of an ESPHome action.
#[derive(Clone, Copy, Debug, Eq, PartialEq, Structural)]
pub enum ServiceArgumentType {
    Bool,
    Int,
    Float,
    String,
    BoolArray,
    IntArray,
    FloatArray,
    StringArray,
}

impl ServiceArgumentType {
    /// The type's code on the wire.
    pub fn code(self) -> (code: i32)
        ensures
            code == match self {
                ServiceArgumentType::Bool => 0i32,
                ServiceArgumentType::Int => 1i32,
                ServiceArgumentType::Float => 2i32,
                ServiceArgumentType::String => 3i32,
                ServiceArgumentType::BoolArray => 4i32,
                ServiceArgumentType::IntArray => 5i32,
                ServiceArgumentType::FloatArray => 6i32,
                ServiceArgumentType::StringArray => 7i32,
            },
    {
        match self {
            ServiceArgumentType::Bool => 0,
            ServiceArgumentType::Int => 1,
            ServiceArgumentType::Float => 2,
            ServiceArgumentType::String => 3,
            ServiceArgumentType::BoolArray => 4,
            ServiceArgumentType::IntArray => 5,
            ServiceArgumentType::FloatArray => 6,
            ServiceArgumentType::StringArray => 7,
        }
    }
}

/// The name and MAC address that the server sends in its hello.
#[derive(Clone, Debug, Eq, PartialEq)]
pub struct NoiseIdentity {
    pub name: String,
    pub mac_address: String,
}

/// A decrypted API message.
#[derive(Clone, Debug, Eq, PartialEq)]
pub struct WireMessage {
    pub message_type: u16,
    pub payload: Vec<u8>,
}

/// The prologue that both ends mix into the Noise handshake.
pub open spec fn noise_prologue() -> Seq<u8> {
    seq![78u8, 111u8, 105u8, 115u8, 101u8, 65u8, 80u8, 73u8, 73u8, 110u8, 105u8, 116u8, 0u8, 0u8]
}

fn noise_prologue_bytes() -> (bytes: Vec<u8>)
    ensures
        bytes@ == noise_prologue(),
{
    let bytes: Vec<u8> = vec![78u8, 111u8, 105u8, 115u8, 101u8, 65u8, 80u8, 73u8, 73u8, 110u8, 105u8, 116u8, 0u8, 0u8];
    assert(bytes@ =~= noise_prologue());
    bytes
}

/// Name of the `index`-th argument of the RC action.
pub open spec fn rc_argument_name(index: int) -> Seq<char> {
    if index == 0 { "roll_us"@ }
    else if index == 1 { "pitch_us"@ }
    else if index == 2 { "throttle_us"@ }
    else if index == 3 { "yaw_us"@ }
    else if index == 4 { "aux1_us"@ }
    else if index == 5 { "aux2_us"@ }
    else if index == 6 { "aux3_us"@ }
    else if index == 7 { "aux4_us"@ }
    else if index == 8 { "aux5_us"@ }
    else if index == 9 { "aux6_us"@ }
    else if index == 10 { "aux7_us"@ }
    else if index == 11 { "aux8_us"@ }
    else if index == 12 { "aux9_us"@ }
    else if index == 13 { "aux10_us"@ }
    else if index == 14 { "aux11_us"@ }
    else { "aux12_us"@ }
}

fn rc_argument(index: usize) -> (name: &'static str)
    requires
        index < RC_CHANNEL_COUNT,
    ensures
        name@ == rc_argument_name(index as int),
{
    match index {
        0 => "roll_us",
        1 => "pitch_us",
        2 => "throttle_us",
        3 => "yaw_us",
        4 => "aux1_us",
        5 => "aux2_us",
        6 => "aux3_us",
        7 => "aux4_us",
        8 => "aux5_us",
        9 => "aux6_us",
        10 => "aux7_us",
        11 => "aux8_us",
        12 => "aux9_us",
        13 => "aux10_us",
        14 => "aux11_us",
        _ => "aux12_us",
    }
}

/// The `index`-th advertised argument is the one the bridge sends there.
pub open spec fn argument_fits(argument: ListEntitiesServicesArgument, index: int) -> bool {
    argument.name@ == rc_argument_name(index) && argument.argument_type == SERVICE_ARGUMENT_TYPE_INT
}

/// `index` is the first advertised argument that does not fit.
pub open spec fn first_misfit(arguments: Seq<ListEntitiesServicesArgument>, index: int) -> bool {
    &&& 0 <= index < arguments.len()
    &&& !argument_fits(arguments[index], index)
    &&& forall|j: int| 0 <= j < index ==> argument_fits(#[trigger] arguments[j], j)
}

/// What the schema check gives for `service`: success when the action takes
/// the sixteen integer arguments in order with status responses, otherwise
/// the first difference, checked in that order.
pub open spec fn schema_check(service: &ListEntitiesServicesResponse, result: Result<(), EspHomeError>) -> bool {
    match result {
        Ok(()) => {
            &&& service.supports_response == SUPPORTS_RESPONSE_STATUS
            &&& service.args.len() == RC_CHANNEL_COUNT
            &&& forall|i: int| 0 <= i < RC_CHANNEL_COUNT ==> argument_fits(#[trigger] service.args@[i], i)
        },
        Err(EspHomeError::ActionSchemaMismatch { reason: ActionSchemaMismatch::ResponseMode { expected, actual } }) => {
            &&& service.supports_response != SUPPORTS_RESPONSE_STATUS
            &&& expected == SUPPORTS_RESPONSE_STATUS
            &&& actual == service.supports_response
        },
        Err(EspHomeError::ActionSchemaMismatch { reason: ActionSchemaMismatch::ArgumentCount { expected, actual } }) => {
            &&& service.supports_response == SUPPORTS_RESPONSE_STATUS
            &&& service.args.len() != RC_CHANNEL_COUNT
            &&& expected == RC_CHANNEL_COUNT
            &&& actual == service.args.len()
        },
        Err(EspHomeError::ActionSchemaMismatch { reason: ActionSchemaMismatch::ArgumentName { position, expected, actual } }) => {
            &&& service.supports_response == SUPPORTS_RESPONSE_STATUS
            &&& service.args.len() == RC_CHANNEL_COUNT
            &&& 1 <= position <= RC_CHANNEL_COUNT
            &&& first_misfit(service.args@, position - 1)
            &&& service.args@[position - 1].name@ != rc_argument_name(position - 1)
            &&& expected@ == rc_argument_name(position - 1)
            &&& actual@ == service.args@[position - 1].name@
        },
        Err(EspHomeError::ActionSchemaMismatch { reason: ActionSchemaMismatch::ArgumentType { name, expected, actual } }) => {
            &&& service.supports_response == SUPPORTS_RESPONSE_STATUS
            &&& service.args.len() == RC_CHANNEL_COUNT
            &&& exists|i: int| {
                &&& first_misfit(service.args@, i)
                &&& #[trigger] service.args@[i].name@ == rc_argument_name(i)
                &&& name@ == service.args@[i].name@
                &&& actual == service.args@[i].argument_type
            }
            &&& expected == SERVICE_ARGUMENT_TYPE_INT
            &&& actual != SERVICE_ARGUMENT_TYPE_INT
        },
        Err(_) => false,
    }
}

/// Checks that the advertised action takes the RC channels as the bridge
/// sends them: status responses, then the sixteen integer arguments by name,
/// in order.  The first difference found is the error.
pub fn validate_action_schema(service: &ListEntitiesServicesResponse) -> (result: Result<(), EspHomeError>)
    ensures
        schema_check(service, result),
{
    if service.supports_response != SUPPORTS_RESPONSE_STATUS {
        return Err(EspHomeError::ActionSchemaMismatch {
            reason: ActionSchemaMismatch::ResponseMode {
                expected: SUPPORTS_RESPONSE_STATUS,
                actual: service.supports_response,
            },
        });
    }
    if service.args.len() != RC_CHANNEL_COUNT {
        return Err(EspHomeError::ActionSchemaMismatch {
            reason: ActionSchemaMismatch::ArgumentCount { expected: RC_CHANNEL_COUNT, actual: service.args.len() },
        });
    }
    let mut index: usize = 0;
    while index < RC_CHANNEL_COUNT
        invariant
            index <= RC_CHANNEL_COUNT,
            service.args.len() == RC_CHANNEL_COUNT,
            service.supports_response == SUPPORTS_RESPONSE_STATUS,
            forall|j: int| 0 <= j < index ==> argument_fits(#[trigger] service.args@[j], j),
        decreases RC_CHANNEL_COUNT - index,
    {
        let argument = &service.args[index];
        let expected_name = rc_argument(index);
        if !str_equal(argument.name.as_str(), expected_name) {
            assert(first_misfit(service.args@, index as int));
            return Err(EspHomeError::ActionSchemaMismatch {
                reason: ActionSchemaMismatch::ArgumentName {
                    position: index + 1,
                    expected: expected_name,
                    actual: argument.name.clone(),
                },
            });
        }
        if argument.argument_type != SERVICE_ARGUMENT_TYPE_INT {
            assert(first_misfit(service.args@, index as int));
            assert(service.args@[index as int].name@ == rc_argument_name(index as int));
            return Err(EspHomeError::ActionSchemaMismatch {
                reason: ActionSchemaMismatch::ArgumentType {
                    name: argument.name.clone(),
                    expected: SERVICE_ARGUMENT_TYPE_INT,
                    actual: argument.argument_type,
                },
            });
        }
        index += 1;
    }
    Ok(())
}

/// Index of the last `:` of `t`, or -1 when it has none.
pub open spec fn last_colon(t: Seq<char>) -> int
    decreases t.len(),
{
    if t.len() == 0 {
        -1
    } else if t.last() == ':' {
        t.len() - 1
    } else {
        last_colon(t.drop_last())
    }
}

/// The text after its last `:` reads as a port number.
pub open spec fn names_port(t: Seq<char>) -> bool {
    last_colon(t) >= 0 && decimal_u16(t.subrange(last_colon(t) + 1, t.len() as int)) is Some
}

/// The address, trimmed, with the default port appended when it names none.
pub open spec fn with_default_port_spec(address: Seq<char>) -> Seq<char> {
    let t = trim_spec(address);
    if names_port(t) {
        t
    } else {
        t + ":"@ + decimal_chars(DEFAULT_PORT as nat)
    }
}

proof fn lemma_last_colon_bounds(t: Seq<char>)
    ensures
        -1 <= last_colon(t) < t.len(),
        last_colon(t) >= 0 ==> t[last_colon(t)] == ':',
    decreases t.len(),
{
    if t.len() > 0 && t.last() != ':' {
        lemma_last_colon_bounds(t.drop_last());
    }
}

/// Where the last `:` of `text` stands, if it has one.
fn find_last_colon(text: &str) -> (found: Option<usize>)
    ensures
        match found {
            Some(i) => i as int == last_colon(text@),
            None => last_colon(text@) == -1,
        },
{
    let mut end = text.unicode_len();
    assert(text@.subrange(0, end as int) =~= text@);
    while end > 0
        invariant
            end <= text@.len(),
            last_colon(text@) == last_colon(text@.subrange(0, end as int)),
        decreases end,
    {
        if text.get_char(end - 1) == ':' {
            return Some(end - 1);
        }
        assert(text@.subrange(0, end as int).drop_last() =~= text@.subrange(0, end - 1));
        end -= 1;
    }
    None
}

/// The address to connect to: trimmed, with `:6053` appended unless the
/// text after its last `:` is a port number.
pub fn with_default_port(address: &str) -> (with_port: String)
    ensures
        with_port@ == with_default_port_spec(address@),
{
    let (start, end) = trim_bounds(address);
    let trimmed = address.substring_char(start, end);
    let names = match find_last_colon(trimmed) {
        Some(colon) => {
            proof { lemma_last_colon_bounds(trimmed@); }
            parse_decimal_u16(trimmed, colon + 1, trimmed.unicode_len()).is_some()
        },
        None => false,
    };
    let mut out = trimmed.to_string();
    if !names {
        out.append(":");
        push_decimal(&mut out, DEFAULT_PORT as u128);
    }
    out
}

/// Splits a server hello: its first byte names the Noise protocol (1 is the
/// one spoken here), then come the node name and MAC address, each ended by
/// a zero byte; both are read as lossy UTF-8, a missing MAC as empty.
pub fn parse_server_hello(frame: &[u8]) -> (result: Result<NoiseIdentity, EspHomeError>)
    ensures
        match result {
            Ok(identity) => {
                let details = frame@.drop_first();
                let name_end = first_zero(details);
                &&& frame@.len() > 0
                &&& frame@[0] == 1
                &&& identity.name@ == utf8_lossy(details.take(name_end))
                &&& identity.mac_address@ == if name_end < details.len() {
                    let rest = details.skip(name_end + 1);
                    utf8_lossy(rest.take(first_zero(rest)))
                } else {
                    Seq::<char>::empty()
                }
            },
            Err(EspHomeError::MalformedServerHello) => frame@.len() == 0,
            Err(EspHomeError::UnsupportedNoiseProtocol { protocol }) => frame@.len() > 0 && protocol
                == frame@[0] && protocol != 1,
            Err(_) => false,
        },
{
    if frame.len() == 0 {
        return Err(EspHomeError::MalformedServerHello);
    }
    let protocol = frame[0];
    if protocol != 1 {
        return Err(EspHomeError::UnsupportedNoiseProtocol { protocol });
    }
    let details = slice_subrange(frame, 1, frame.len());
    assert(details@ =~= frame@.drop_first());
    let name_end = first_zero_index(details);
    let name = string_from_utf8_lossy(slice_subrange(details, 0, name_end));
    assert(details@.subrange(0, name_end as int) =~= details@.take(name_end as int));
    let mac_address = if name_end < details.len() {
        let rest = slice_subrange(details, name_end + 1, details.len());
        assert(rest@ =~= details@.skip(name_end + 1));
        let mac_end = first_zero_index(rest);
        assert(rest@.subrange(0, mac_end as int) =~= rest@.take(mac_end as int));
        string_from_utf8_lossy(slice_subrange(rest, 0, mac_end))
    } else {
        String::new()
    };
    Ok(NoiseIdentity { name, mac_address })
}

/// What `base64::engine::general_purpose::STANDARD` decodes the text to, or
/// `None` where it refuses it.
pub uninterp spec fn standard_base64(text: Seq<char>) -> Option<Seq<u8>>;

/// Calls `STANDARD.decode` of the `base64` crate (standard alphabet, padding
/// required).  Whether it succeeds and what it gives depend on the text
/// alone; the decoding rules themselves are not stated here.
#[verifier::external_body]
fn decode_standard_base64(text: &str) -> (decoded: Result<Vec<u8>, base64::DecodeError>)
    ensures
        match decoded {
            Ok(bytes) => standard_base64(text@) == Some(bytes@),
            Err(_) => standard_base64(text@) is None,
        },
{
    STANDARD.decode(text)
}

/// Reads the API encryption key: base64 of exactly 32 bytes, surrounding
/// whitespace ignored.
pub fn decode_encryption_key(value: &str) -> (result: Result<[u8; 32], EspHomeError>)
    ensures
        match result {
            Ok(key) => standard_base64(trim_spec(value@)) == Some(key@),
            Err(EspHomeError::InvalidEncryptionKey(_)) => standard_base64(trim_spec(value@)) is None,
            Err(EspHomeError::EncryptionKeyLength { actual }) => standard_base64(trim_spec(value@)) matches Some(
                bytes,
            ) && bytes.len() != 32 && actual == bytes.len(),
            Err(_) => false,
        },
{
    let (start, end) = trim_bounds(value);
    let trimmed = value.substring_char(start, end);
    let decoded = match decode_standard_base64(trimmed) {
        Ok(decoded) => decoded,
        Err(error) => return Err(EspHomeError::InvalidEncryptionKey(error)),
    };
    if decoded.len() != 32 {
        return Err(EspHomeError::EncryptionKeyLength { actual: decoded.len() });
    }
    let mut key = [0u8; 32];
    let mut i: usize = 0;
    while i < 32
        invariant
            i <= 32,
            decoded.len() == 32,
            forall|j: int| 0 <= j < i ==> key@[j] == decoded@[j],
        decreases 32 - i,
    {
        key[i] = decoded[i];
        i += 1;
    }
    assert(key@ =~= decoded@);
    Ok(key)
}

/// Big-endian `u16` at `at`.
pub open spec fn be16_at(s: Seq<u8>, at: int) -> int {
    s[at] as int * 256 + s[at + 1] as int
}

/// `value` as two big-endian bytes.
pub open spec fn be16_bytes(value: int) -> Seq<u8> {
    seq![(value / 256) as u8, (value % 256) as u8]
}

/// One encrypted frame on the wire: the marker, the payload length as a
/// big-endian `u16`, then the payload.
pub open spec fn frame_spec(payload: Seq<u8>) -> Seq<u8> {
    seq![NOISE_MARKER] + be16_bytes(payload.len() as int) + payload
}

fn push_all(out: &mut Vec<u8>, bytes: &[u8])
    ensures
        final(out)@ == old(out)@ + bytes@,
{
    let mut i: usize = 0;
    while i < bytes.len()
        invariant
            i <= bytes.len(),
            out@ == old(out)@ + bytes@.subrange(0, i as int),
        decreases bytes.len() - i,
    {
        out.push(bytes[i]);
        i += 1;
        assert(out@ =~= old(out)@ + bytes@.subrange(0, i as int));
    }
    assert(bytes@.subrange(0, i as int) =~= bytes@);
}

/// Frames a payload for the wire; a payload over 65535 bytes does not fit.
pub fn frame(payload: &[u8]) -> (result: Result<Vec<u8>, EspHomeError>)
    ensures
        match result {
            Ok(bytes) => payload@.len() <= 65535 && bytes@ == frame_spec(payload@),
            Err(EspHomeError::FrameTooLarge { size }) => payload@.len() > 65535 && size == payload@.len(),
            Err(_) => false,
        },
{
    if payload.len() > 65535 {
        return Err(EspHomeError::FrameTooLarge { size: payload.len() });
    }
    let length = payload.len();
    let mut bytes: Vec<u8> = Vec::new();
    bytes.push(NOISE_MARKER);
    bytes.push((length / 256) as u8);
    bytes.push((length % 256) as u8);
    assert(bytes@ =~= seq![NOISE_MARKER] + be16_bytes(length as int));
    push_all(&mut bytes, payload);
    Ok(bytes)
}

/// The payload size that a frame header announces; the header must start
/// with the encrypted-API marker.
pub fn frame_payload_size(header: [u8; 3]) -> (result: Result<usize, EspHomeError>)
    ensures
        match result {
            Ok(size) => header@[0] == NOISE_MARKER && size == be16_at(header@, 1),
            Err(EspHomeError::UnexpectedFrameMarker { marker }) => marker == header@[0] && marker != NOISE_MARKER,
            Err(_) => false,
        },
{
    if header[0] != NOISE_MARKER {
        return Err(EspHomeError::UnexpectedFrameMarker { marker: header[0] });
    }
    Ok(header[1] as usize * 256 + header[2] as usize)
}

/// A message before encryption: its type and the payload length, both as
/// big-endian `u16`, then the payload.
pub open spec fn plaintext_spec(message_type: u16, payload: Seq<u8>) -> Seq<u8> {
    be16_bytes(message_type as int) + be16_bytes(payload.len() as int) + payload
}

/// A frame is the byte 0x01, the payload's length in two bytes, high byte
/// first, then the payload; an API message before encryption is its type in
/// two bytes, high first, the payload's length likewise, then the payload.
pub proof fn law_wire_layouts(message_type: u16, payload: Seq<u8>)
    requires
        payload.len() <= 65535,
    ensures
        frame_spec(payload).len() == payload.len() + 3,
        frame_spec(payload)[0] == 0x01,
        frame_spec(payload)[1] as int * 256 + frame_spec(payload)[2] as int == payload.len(),
        frame_spec(payload).skip(3) == payload,
        plaintext_spec(message_type, payload).len() == payload.len() + 4,
        plaintext_spec(message_type, payload)[0] as int * 256 + plaintext_spec(message_type, payload)[1] as int
            == message_type as int,
        plaintext_spec(message_type, payload)[2] as int * 256 + plaintext_spec(message_type, payload)[3] as int
            == payload.len(),
        plaintext_spec(message_type, payload).skip(4) == payload,
{
    assert(frame_spec(payload).skip(3) =~= payload);
    assert(plaintext_spec(message_type, payload).skip(4) =~= payload);
}

/// Lays out a message for encryption; a payload over 65535 bytes does not fit.
pub fn encode_plaintext(message_type: u16, payload: &[u8]) -> (result: Result<Vec<u8>, EspHomeError>)
    ensures
        match result {
            Ok(bytes) => payload@.len() <= 65535 && bytes@ == plaintext_spec(message_type, payload@),
            Err(EspHomeError::FrameTooLarge { size }) => payload@.len() > 65535 && size == payload@.len(),
            Err(_) => false,
        },
{
    if payload.len() > 65535 {
        return Err(EspHomeError::FrameTooLarge { size: payload.len() });
    }
    let length = payload.len();
    let mut bytes: Vec<u8> = Vec::new();
    bytes.push((message_type / 256) as u8);
    bytes.push((message_type % 256) as u8);
    bytes.push((length / 256) as u8);
    bytes.push((length % 256) as u8);
    assert(bytes@ =~= be16_bytes(message_type as int) + be16_bytes(length as int));
    push_all(&mut bytes, payload);
    Ok(bytes)
}

/// What reading `plaintext` as an API message gives: the message, or why
/// its header does not fit.
pub open spec fn plaintext_read(plaintext: Seq<u8>, result: Result<WireMessage, EspHomeError>) -> bool {
    match result {
        Ok(message) => {
            &&& plaintext.len() >= 4
            &&& message.message_type == be16_at(plaintext, 0)
            &&& be16_at(plaintext, 2) == plaintext.len() - 4
            &&& message.payload@ == plaintext.skip(4)
        },
        Err(EspHomeError::MalformedMessage { reason: MalformedMessageReason::HeaderTooShort }) => plaintext.len() < 4,
        Err(EspHomeError::MalformedMessage { reason: MalformedMessageReason::LengthMismatch { declared, actual } }) => {
            &&& plaintext.len() >= 4
            &&& declared == be16_at(plaintext, 2)
            &&& actual == plaintext.len() - 4
            &&& declared != actual
        },
        Err(_) => false,
    }
}

/// Reads a decrypted message: a four-byte header, then exactly as many
/// payload bytes as it declares.
pub fn parse_plaintext(plaintext: &[u8]) -> (result: Result<WireMessage, EspHomeError>)
    ensures
        plaintext_read(plaintext@, result),
{
    if plaintext.len() < 4 {
        return Err(EspHomeError::MalformedMessage { reason: MalformedMessageReason::HeaderTooShort });
    }
    let message_type = plaintext[0] as u16 * 256 + plaintext[1] as u16;
    let declared = plaintext[2] as usize * 256 + plaintext[3] as usize;
    let actual = plaintext.len() - 4;
    if actual != declared {
        return Err(EspHomeError::MalformedMessage {
            reason: MalformedMessageReason::LengthMismatch { declared, actual },
        });
    }
    let payload = slice_range(plaintext, 4, plaintext.len());
    assert(payload@ =~= plaintext@.skip(4));
    Ok(WireMessage { message_type, payload })
}

/// Starts the client side of the `Noise_NNpsk0_25519_ChaChaPoly_SHA256`
/// handshake with the API key as the pre-shared key at position 0 and the
/// API prologue, before any message.  snow accepts this setup.
pub fn noise_initiator(key: &[u8; 32]) -> (result: Result<NoiseHandshake, EspHomeError>)
    ensures
        result matches Ok(handshake) && handshake.model() == (HandshakeModel {
            protocol: NOISE_PROTOCOL@,
            psks: Map::<u8, Seq<u8>>::empty().insert(0u8, key@),
            prologue: Some(noise_prologue()),
            initiator: true,
            write_attempts: Seq::empty(),
            written: Seq::empty(),
            read: Seq::empty(),
        }),
{
    proof { reveal_strlit("Noise_NNpsk0_25519_ChaChaPoly_SHA256"); }
    let parameters = match parse_noise_params(NOISE_PROTOCOL) {
        Ok(parameters) => parameters,
        Err(error) => return Err(EspHomeError::Noise(error)),
    };
    let prologue = noise_prologue_bytes();
    let builder = match builder_psk(noise_builder(parameters), 0, key) {
        Ok(builder) => builder,
        Err(error) => return Err(EspHomeError::Noise(error)),
    };
    let builder = match builder_prologue(builder, prologue.as_slice()) {
        Ok(builder) => builder,
        Err(error) => return Err(EspHomeError::Noise(error)),
    };
    match builder_build_initiator(builder) {
        Ok(handshake) => Ok(handshake),
        Err(error) => Err(EspHomeError::Noise(error)),
    }
}

/// The client hello frame payload for a handshake message: a zero byte,
/// then the first `written` bytes of the message buffer.
pub fn hello_from_message(message: &[u8], written: usize) -> (hello: Vec<u8>)
    requires
        written <= message@.len(),
    ensures
        hello@ == seq![0u8] + message@.take(written as int),
{
    let mut hello: Vec<u8> = Vec::new();
    hello.push(0);
    push_all(&mut hello, slice_subrange(message, 0, written));
    assert(message@.subrange(0, written as int) =~= message@.take(written as int));
    hello
}

/// The client hello frame payload: a zero byte, then the first handshake
/// message, written with an empty payload into a 128-byte buffer; the
/// handshake records the attempt and, on success, that message.  The
/// message bytes, which carry a fresh ephemeral key, are left unsaid, and
/// so is whether the random source that key needs was there.
pub fn client_hello(handshake: &mut NoiseHandshake) -> (result: Result<Vec<u8>, EspHomeError>)
    ensures
        final(handshake).model().write_attempts == old(handshake).model().write_attempts.push(
            (Seq::<u8>::empty(), 128nat),
        ),
        match result {
            Ok(hello) => {
                &&& 1 <= hello@.len() <= 129
                &&& hello@[0] == 0
                &&& final(handshake).model() == (HandshakeModel {
                    write_attempts: final(handshake).model().write_attempts,
                    written: old(handshake).model().written.push((Seq::<u8>::empty(), hello@.drop_first())),
                    ..old(handshake).model()
                })
            },
            Err(error) => error is Noise && final(handshake).model() == (HandshakeModel {
                write_attempts: final(handshake).model().write_attempts,
                ..old(handshake).model()
            }),
        },
{
    let mut message: Vec<u8> = vec![0u8; 128];
    let payload: [u8; 0] = [];
    assert(payload@ =~= Seq::<u8>::empty());
    let written = match handshake_write(handshake, &payload, &mut message) {
        Ok(written) => written,
        Err(error) => return Err(EspHomeError::Noise(error)),
    };
    let hello = hello_from_message(message.as_slice(), written);
    assert(hello@.drop_first() =~= message@.take(written as int));
    Ok(hello)
}

/// Reads the server's handshake response: a status byte, 0 for success, then
/// the handshake message; on any other status the rest is the server's
/// reason, read as lossy UTF-8.
pub fn handshake_response(response: &[u8]) -> (result: Result<Vec<u8>, EspHomeError>)
    ensures
        match result {
            Ok(message) => response@.len() > 0 && response@[0] == 0 && message@ == response@.drop_first(),
            Err(EspHomeError::HandshakeRejected { message }) => {
                ||| response@.len() == 0 && message@ == "empty handshake response"@
                ||| response@.len() > 0 && response@[0] != 0 && message@ == utf8_lossy(response@.drop_first())
            },
            Err(_) => false,
        },
{
    if response.len() == 0 {
        return Err(EspHomeError::HandshakeRejected { message: "empty handshake response".to_owned() });
    }
    let rest = slice_subrange(response, 1, response.len());
    assert(rest@ =~= response@.drop_first());
    if response[0] != 0 {
        return Err(EspHomeError::HandshakeRejected { message: string_from_utf8_lossy(rest) });
    }
    Ok(slice_range(rest, 0, rest.len()))
}

/// Reads the server's handshake message (into a 128-byte buffer) and
/// switches to transport mode; the session keeps the handshake with that
/// message read.  Any failure is snow's; whether the message authenticates,
/// and the session keys, are left unsaid.
pub fn finish_handshake(handshake: NoiseHandshake, message: &[u8]) -> (result: Result<NoiseTransport, EspHomeError>)
    ensures
        match result {
            Ok(transport) => transport.model() == (TransportModel {
                handshake: HandshakeModel { read: handshake.model().read.push(message@), ..handshake.model() },
                sent: Seq::empty(),
                read_attempts: Seq::empty(),
                received: Seq::empty(),
            }),
            Err(error) => error is Noise,
        },
{
    let mut handshake = handshake;
    let mut output: Vec<u8> = vec![0u8; 128];
    if let Err(error) = handshake_read(&mut handshake, message, &mut output) {
        return Err(EspHomeError::Noise(error));
    }
    match handshake_into_transport(handshake) {
        Ok(transport) => Ok(transport),
        Err(error) => Err(EspHomeError::Noise(error)),
    }
}

/// Encrypts one API message and frames it for the wire: the message laid
/// out as `encode_plaintext` does is encrypted by the session (which records
/// it), and the ciphertext, the 4-byte header, the payload and a 16-byte tag,
/// is framed.  How the ciphertext follows from the plaintext and the session
/// keys is left unsaid.
pub fn seal_message(transport: &mut NoiseTransport, message_type: u16, payload: &[u8]) -> (result: Result<Vec<u8>, EspHomeError>)
    ensures
        payload@.len() + 20 <= 65535 && old(transport).model().handshake.initiator && old(
            transport,
        ).model().sent.len() < u64::MAX ==> result is Ok,
        match result {
            Ok(bytes) => {
                &&& payload@.len() <= 65535
                &&& final(transport).model().sent.len() == old(transport).model().sent.len() + 1
                &&& final(transport).model() == (TransportModel {
                    sent: old(transport).model().sent.push(final(transport).model().sent.last()),
                    ..old(transport).model()
                })
                &&& final(transport).model().sent.last().0 == plaintext_spec(message_type, payload@)
                &&& bytes@ == frame_spec(final(transport).model().sent.last().1)
                &&& bytes@.len() == 3 + 4 + payload@.len() + 16
                &&& bytes@[0] == NOISE_MARKER
                &&& be16_at(bytes@, 1) == 4 + payload@.len() + 16
            },
            Err(EspHomeError::FrameTooLarge { size }) => {
                &&& payload@.len() > 65535 && size == payload@.len()
                &&& final(transport).model() == old(transport).model()
            },
            Err(EspHomeError::Noise(_)) => payload@.len() <= 65535 && final(transport).model() == old(transport).model(),
            Err(_) => false,
        },
{
    let plaintext = match encode_plaintext(message_type, payload) {
        Ok(plaintext) => plaintext,
        Err(error) => return Err(error),
    };
    let mut encrypted: Vec<u8> = vec![0u8; plaintext.len() + 16];
    let written = match transport_write(transport, plaintext.as_slice(), &mut encrypted) {
        Ok(written) => written,
        Err(error) => return Err(EspHomeError::Noise(error)),
    };
    encrypted.truncate(written);
    assert(encrypted@ =~= transport.model().sent.last().1);
    let framed = frame(encrypted.as_slice());
    proof { law_frame_reads_back(encrypted@); }
    match framed {
        Ok(bytes) => Ok(bytes),
        Err(error) => Err(error),
    }
}

/// Decrypts one frame payload, into a buffer as long as the payload, and
/// reads the API message in it as `parse_plaintext` does; the session
/// records the attempt and, on success, the pair.  How the decrypted bytes
/// follow from the ciphertext and the session keys, and whether they
/// authenticate, is left unsaid: only their length is stated.
pub fn open_message(transport: &mut NoiseTransport, encrypted: &[u8]) -> (result: Result<WireMessage, EspHomeError>)
    ensures
        final(transport).model().read_attempts == old(transport).model().read_attempts.push(
            (encrypted@, encrypted@.len()),
        ),
        match result {
            Err(EspHomeError::Noise(_)) => final(transport).model() == (TransportModel {
                read_attempts: final(transport).model().read_attempts,
                ..old(transport).model()
            }),
            _ => {
                &&& final(transport).model().received.len() == old(transport).model().received.len() + 1
                &&& final(transport).model() == (TransportModel {
                    read_attempts: final(transport).model().read_attempts,
                    received: old(transport).model().received.push(final(transport).model().received.last()),
                    ..old(transport).model()
                })
                &&& final(transport).model().received.last().0 == encrypted@
                &&& final(transport).model().received.last().1.len() + 16 == encrypted@.len()
                &&& plaintext_read(final(transport).model().received.last().1, result)
            },
        },
{
    let mut plaintext: Vec<u8> = vec![0u8; encrypted.len()];
    let read = match transport_read(transport, encrypted, &mut plaintext) {
        Ok(read) => read,
        Err(error) => return Err(EspHomeError::Noise(error)),
    };
    plaintext.truncate(read);
    parse_plaintext(plaintext.as_slice())
}

/// The hello the client opens the API session with.
pub fn hello_request(version: &str) -> (request: HelloRequest)
    ensures
        request.client_info@ == "saili "@ + version@,
        request.api_version_major == API_VERSION_MAJOR,
        request.api_version_minor == API_VERSION_MINOR,
{
    let mut client_info = "saili ".to_string();
    client_info.append(version);
    HelloRequest { client_info, api_version_major: API_VERSION_MAJOR, api_version_minor: API_VERSION_MINOR }
}

/// Accepts the server's hello: its major API version must be the client's.
/// The node name it reports, when not empty, replaces the one from the Noise
/// hello; the server version is taken from it.
pub fn accept_hello(identity: NoiseIdentity, hello: HelloResponse) -> (result: Result<ServerIdentity, EspHomeError>)
    ensures
        match result {
            Ok(server) => {
                &&& hello.api_version_major == API_VERSION_MAJOR
                &&& server.name@ == if hello.name@.len() == 0 { identity.name@ } else { hello.name@ }
                &&& server.mac_address@ == identity.mac_address@
                &&& server.version@ == hello.server_info@
            },
            Err(EspHomeError::UnsupportedApiVersion { major, minor }) => {
                &&& hello.api_version_major != API_VERSION_MAJOR
                &&& major == hello.api_version_major
                &&& minor == hello.api_version_minor
            },
            Err(_) => false,
        },
{
    if hello.api_version_major != API_VERSION_MAJOR {
        return Err(EspHomeError::UnsupportedApiVersion {
            major: hello.api_version_major,
            minor: hello.api_version_minor,
        });
    }
    let name = if hello.name.as_str().unicode_len() == 0 { identity.name } else { hello.name };
    Ok(ServerIdentity { name, mac_address: identity.mac_address, version: hello.server_info })
}

/// The call id after `call_id`: ids count up from 1 and skip 0 when they wrap.
pub fn next_call_id(call_id: u32) -> (next: u32)
    ensures
        next == if call_id == u32::MAX { 1 } else { call_id + 1 },
        next != 0,
{
    if call_id == u32::MAX {
        1
    } else {
        call_id + 1
    }
}

/// The request that runs the RC action with the sixteen channel values, in
/// channel order, without asking for a response body.
pub fn execute_request(action_key: u32, call_id: u32, channels: &RcChannels) -> (request: ExecuteServiceRequest)
    ensures
        request.key == action_key,
        request.call_id == call_id,
        !request.return_response,
        request.args@.len() == channels@.len(),
        forall|i: int| 0 <= i < channels@.len() ==> #[trigger] request.args@[i].int_value == channels@[i] as i32,
{
    let values = channels.values();
    let mut args: Vec<ExecuteServiceArgument> = Vec::new();
    let mut i: usize = 0;
    while i < RC_CHANNEL_COUNT
        invariant
            i <= RC_CHANNEL_COUNT,
            values@ == channels@,
            values@.len() == RC_CHANNEL_COUNT,
            args@.len() == i,
            forall|j: int| 0 <= j < i ==> #[trigger] args@[j].int_value == values@[j] as i32,
        decreases RC_CHANNEL_COUNT - i,
    {
        args.push(ExecuteServiceArgument { int_value: values[i] as i32 });
        i += 1;
    }
    ExecuteServiceRequest { key: action_key, args, call_id, return_response: false }
}

/// What an action response means for the call `call_id`: nothing when it
/// answers another call, else success or the device's rejection.
pub fn action_outcome(call_id: u32, response: ExecuteServiceResponse) -> (outcome: Option<Result<(), EspHomeError>>)
    ensures
        match outcome {
            None => response.call_id != call_id,
            Some(Ok(())) => response.call_id == call_id && response.success,
            Some(Err(EspHomeError::ActionRejected { message })) => {
                response.call_id == call_id && !response.success && message@ == response.error_message@
            },
            Some(Err(_)) => false,
        },
{
    if response.call_id != call_id {
        None
    } else if !response.success {
        Some(Err(EspHomeError::ActionRejected { message: response.error_message }))
    } else {
        Some(Ok(()))
    }
}

/// Takes in one advertised action during discovery: the RC action, once its
/// schema checks out, becomes the action found; any other leaves the search
/// as it was.
pub fn record_service(found: Option<u32>, service: &ListEntitiesServicesResponse) -> (result: Result<Option<u32>, EspHomeError>)
    ensures
        service.name@ == RC_ACTION_NAME@ ==> match result {
            Ok(now) => validate_action_schema_ok(service) && now == Some(service.key),
            Err(error) => schema_check(service, Err(error)),
        },
        service.name@ != RC_ACTION_NAME@ ==> result == Ok::<Option<u32>, EspHomeError>(found),
{
    if str_equal(service.name.as_str(), RC_ACTION_NAME) {
        match validate_action_schema(service) {
            Ok(()) => Ok(Some(service.key)),
            Err(error) => Err(error),
        }
    } else {
        Ok(found)
    }
}

/// The schema check of `validate_action_schema` passes.
pub open spec fn validate_action_schema_ok(service: &ListEntitiesServicesResponse) -> bool {
    &&& service.supports_response == SUPPORTS_RESPONSE_STATUS
    &&& service.args.len() == RC_CHANNEL_COUNT
    &&& forall|i: int| 0 <= i < RC_CHANNEL_COUNT ==> argument_fits(#[trigger] service.args@[i], i)
}

/// The end of discovery: the key of the RC action, if it was advertised.
pub fn finish_discovery(found: Option<u32>) -> (result: Result<u32, EspHomeError>)
    ensures
        match result {
            Ok(key) => found == Some(key),
            Err(error) => found is None && error is ActionNotFound,
        },
{
    match found {
        Some(key) => Ok(key),
        None => Err(EspHomeError::ActionNotFound),
    }
}

/// What the client does with a message while it waits for certain types.
#[derive(Clone, Copy, Debug, Eq, PartialEq, Structural)]
pub enum MessageRoute {
    /// One of the awaited types: hand it on.
    Deliver,
    /// A ping: answer it and keep waiting.
    AnswerPing,
    /// The server is closing: acknowledge and stop.
    Disconnect,
    /// Anything else: drop it and keep waiting.
    Ignore,
}

/// Routes a message by its type while the client waits for `awaited`.
pub fn route_message(message_type: u16, awaited: &[u16]) -> (route: MessageRoute)
    ensures
        route == if awaited@.contains(message_type) {
            MessageRoute::Deliver
        } else if message_type == PING_REQUEST {
            MessageRoute::AnswerPing
        } else if message_type == DISCONNECT_REQUEST {
            MessageRoute::Disconnect
        } else {
            MessageRoute::Ignore
        },
{
    let mut i: usize = 0;
    while i < awaited.len()
        invariant
            i <= awaited.len(),
            forall|j: int| 0 <= j < i ==> awaited@[j] != message_type,
        decreases awaited.len() - i,
    {
        if awaited[i] == message_type {
            return MessageRoute::Deliver;
        }
        i += 1;
    }
    if message_type == PING_REQUEST {
        MessageRoute::AnswerPing
    } else if message_type == DISCONNECT_REQUEST {
        MessageRoute::Disconnect
    } else {
        MessageRoute::Ignore
    }
}

/// A laid-out message reads back as the same message: the header declares
/// its type and exact payload length, and the payload follows it.
pub proof fn law_plaintext_reads_back(message_type: u16, payload: Seq<u8>)
    requires
        payload.len() <= 65535,
    ensures
        plaintext_spec(message_type, payload).len() >= 4,
        be16_at(plaintext_spec(message_type, payload), 0) == message_type,
        be16_at(plaintext_spec(message_type, payload), 2) == plaintext_spec(message_type, payload).len() - 4,
        plaintext_spec(message_type, payload).skip(4) == payload,
{
    let p = plaintext_spec(message_type, payload);
    assert(p.skip(4) =~= payload);
}

/// A framed payload reads back: the header carries the marker and the exact
/// payload length, and the payload follows it.
pub proof fn law_frame_reads_back(payload: Seq<u8>)
    requires
        payload.len() <= 65535,
    ensures
        frame_spec(payload).len() == payload.len() + 3,
        frame_spec(payload)[0] == NOISE_MARKER,
        be16_at(frame_spec(payload), 1) == payload.len(),
        frame_spec(payload).skip(3) == payload,
{
    let f = frame_spec(payload);
    assert(f.skip(3) =~= payload);
}

/// The action the bridge advertises, sixteen integer arguments named in
/// channel order with status responses, passes the schema check.
pub proof fn law_bridge_schema_accepted(service: ListEntitiesServicesResponse)
    requires
        service.supports_response == SUPPORTS_RESPONSE_STATUS,
        service.args@.len() == RC_CHANNEL_COUNT,
        forall|i: int| 0 <= i < RC_CHANNEL_COUNT ==> (#[trigger] service.args@[i]).name@ == rc_argument_name(i)
            && service.args@[i].argument_type == SERVICE_ARGUMENT_TYPE_INT,
    ensures
        validate_action_schema_ok(&service),
{
}

} // verus!

use snow::params::NoiseParams;
use snow::{Builder, HandshakeState, TransportState};
use vstd::prelude::*;

verus! {

#[verifier::external_type_specification]
#[verifier::external_body]
pub struct ExSnowError(snow::Error);

#[verifier::external_type_specification]
#[verifier::external_body]
pub struct ExNoiseParams(snow::params::NoiseParams);

#[verifier::external_type_specification]
#[verifier::external_body]
pub struct ExBuilder<'builder>(snow::Builder<'builder>);

#[verifier::external_type_specification]
#[verifier::external_body]
pub struct ExHandshakeState(snow::HandshakeState);

#[verifier::external_type_specification]
#[verifier::external_body]
pub struct ExTransportState(snow::TransportState);

/// The Noise protocol of the ESPHome API: the `NN` pattern with a
/// pre-shared key mixed in first, X25519, ChaCha20-Poly1305 and SHA-256.
pub open spec fn api_protocol_name() -> Seq<char> {
    "Noise_NNpsk0_25519_ChaChaPoly_SHA256"@
}

/// Noise parameters read by snow, with the name they were read from.
pub struct NoiseProtocol {
    params: NoiseParams,
    name: Ghost<Seq<char>>,
}

impl NoiseProtocol {
    pub closed spec fn name(&self) -> Seq<char> {
        self.name@
    }
}

/// What a handshake builder has been given so far.
pub struct BuilderModel {
    pub protocol: Seq<char>,
    /// Pre-shared keys by pattern position.
    pub psks: Map<u8, Seq<u8>>,
    pub prologue: Option<Seq<u8>>,
}

/// snow's handshake builder, seen as what it has been given.
pub struct NoiseBuilder<'a> {
    builder: Builder<'a>,
    model: Ghost<BuilderModel>,
}

impl<'a> NoiseBuilder<'a> {
    pub closed spec fn model(&self) -> BuilderModel {
        self.model@
    }
}

/// A handshake seen as how it was set up and the messages it has passed:
/// each written message with the payload it carries, and each message read.
pub struct HandshakeModel {
    pub protocol: Seq<char>,
    pub psks: Map<u8, Seq<u8>>,
    pub prologue: Option<Seq<u8>>,
    pub initiator: bool,
    /// `(payload, buffer length)` of each attempt to write a handshake
    /// message, whether or not it succeeded, in order.
    pub write_attempts: Seq<(Seq<u8>, nat)>,
    /// `(payload, message)` of each handshake message written, in order.
    pub written: Seq<(Seq<u8>, Seq<u8>)>,
    /// Each handshake message read, in order.
    pub read: Seq<Seq<u8>>,
}

/// snow's handshake state, seen through its model.
pub struct NoiseHandshake {
    state: HandshakeState,
    model: Ghost<HandshakeModel>,
}

impl NoiseHandshake {
    pub closed spec fn model(&self) -> HandshakeModel {
        self.model@
    }
}

/// A transport session seen as the handshake it came from and the messages
/// it has passed.
pub struct TransportModel {
    pub handshake: HandshakeModel,
    /// `(plaintext, ciphertext)` of each message encrypted, in order.
    pub sent: Seq<(Seq<u8>, Seq<u8>)>,
    /// `(ciphertext, buffer length)` of each attempt to decrypt a message,
    /// whether or not it succeeded, in order.
    pub read_attempts: Seq<(Seq<u8>, nat)>,
    /// `(ciphertext, plaintext)` of each message decrypted, in order.
    pub received: Seq<(Seq<u8>, Seq<u8>)>,
}

/// snow's transport state, seen through its model.
pub struct NoiseTransport {
    state: TransportState,
    model: Ghost<TransportModel>,
}

impl NoiseTransport {
    pub closed spec fn model(&self) -> TransportModel {
        self.model@
    }
}

/// Calls `str::parse::<snow::params::NoiseParams>`.  The parameters keep the
/// name they were read from; the API's protocol name is one that snow reads.
#[verifier::external_body]
pub(crate) fn parse_noise_params(name: &str) -> (protocol: Result<NoiseProtocol, snow::Error>)
    ensures
        protocol matches Ok(p) ==> p.name() == name@,
        name@ == api_protocol_name() ==> protocol is Ok,
{
    match name.parse() {
        Ok(params) => Ok(NoiseProtocol { params, name: Ghost(name@) }),
        Err(error) => Err(error),
    }
}

/// Calls `snow::Builder::new` (default crypto resolver): a builder for the
/// protocol with no keys and no prologue yet.
#[verifier::external_body]
pub(crate) fn noise_builder<'a>(protocol: NoiseProtocol) -> (builder: NoiseBuilder<'a>)
    ensures
        builder.model() == (BuilderModel { protocol: protocol.name(), psks: Map::empty(), prologue: None }),
{
    let name = protocol.name;
    NoiseBuilder {
        builder: Builder::new(protocol.params),
        model: Ghost(BuilderModel { protocol: name@, psks: Map::empty(), prologue: None }),
    }
}

/// Calls `snow::Builder::psk`: it takes the key for a pattern position below
/// 10 that has none yet, and refuses any other.
#[verifier::external_body]
pub(crate) fn builder_psk<'a>(builder: NoiseBuilder<'a>, location: u8, key: &'a [u8; 32]) -> (result: Result<NoiseBuilder<'a>, snow::Error>)
    ensures
        result is Ok <==> (location < 10 && !builder.model().psks.dom().contains(location)),
        result matches Ok(next) ==> next.model() == (BuilderModel {
            psks: builder.model().psks.insert(location, key@),
            ..builder.model()
        }),
{
    let model = builder.model;
    match builder.builder.psk(location, key) {
        Ok(next) => Ok(NoiseBuilder { builder: next, model: Ghost(BuilderModel { psks: model@.psks.insert(location, key@), ..model@ }) }),
        Err(error) => Err(error),
    }
}

/// Calls `snow::Builder::prologue`: it takes the prologue once and refuses a
/// second one.
#[verifier::external_body]
pub(crate) fn builder_prologue<'a>(builder: NoiseBuilder<'a>, prologue: &'a [u8]) -> (result: Result<NoiseBuilder<'a>, snow::Error>)
    ensures
        result is Ok <==> builder.model().prologue is None,
        result matches Ok(next) ==> next.model() == (BuilderModel { prologue: Some(prologue@), ..builder.model() }),
{
    let model = builder.model;
    match builder.builder.prologue(prologue) {
        Ok(next) => Ok(NoiseBuilder { builder: next, model: Ghost(BuilderModel { prologue: Some(prologue@), ..model@ }) }),
        Err(error) => Err(error),
    }
}

/// Calls `snow::Builder::build_initiator`: the initiator's handshake, set up
/// as the builder was, with no message passed yet.  For the API's protocol
/// (a pattern that needs no static key, and primitives that the default
/// resolver provides) it succeeds.
#[verifier::external_body]
pub(crate) fn builder_build_initiator<'a>(builder: NoiseBuilder<'a>) -> (result: Result<NoiseHandshake, snow::Error>)
    ensures
        builder.model().protocol == api_protocol_name() ==> result is Ok,
        result matches Ok(handshake) ==> handshake.model() == (HandshakeModel {
            protocol: builder.model().protocol,
            psks: builder.model().psks,
            prologue: builder.model().prologue,
            initiator: true,
            write_attempts: Seq::empty(),
            written: Seq::empty(),
            read: Seq::empty(),
        }),
{
    let given = builder.model;
    let model = Ghost(HandshakeModel {
        protocol: given@.protocol,
        psks: given@.psks,
        prologue: given@.prologue,
        initiator: true,
        write_attempts: Seq::empty(),
        written: Seq::empty(),
        read: Seq::empty(),
    });
    match builder.builder.build_initiator() {
        Ok(state) => Ok(NoiseHandshake { state, model }),
        Err(error) => Err(error),
    }
}

/// Calls `snow::HandshakeState::write_message`, which writes the next
/// handshake message, carrying `payload`, into `message`.  The handshake
/// records the attempt, with the payload and the buffer's length.  The
/// buffer keeps its length; on success the count written fits in it and the
/// handshake records that message.  The bytes depend on a fresh ephemeral
/// key, and whether the call succeeds on the machine's random source.
#[verifier::external_body]
pub(crate) fn handshake_write(handshake: &mut NoiseHandshake, payload: &[u8], message: &mut Vec<u8>) -> (written: Result<usize, snow::Error>)
    ensures
        final(message)@.len() == old(message)@.len(),
        match written {
            Ok(n) => n <= old(message)@.len() && final(handshake).model() == (HandshakeModel {
                write_attempts: old(handshake).model().write_attempts.push((payload@, old(message)@.len())),
                written: old(handshake).model().written.push((payload@, final(message)@.take(n as int))),
                ..old(handshake).model()
            }),
            Err(_) => final(handshake).model() == (HandshakeModel {
                write_attempts: old(handshake).model().write_attempts.push((payload@, old(message)@.len())),
                ..old(handshake).model()
            }),
        },
{
    let length = Ghost(message@.len());
    let written = handshake.state.write_message(payload, message.as_mut_slice());
    let model = Ghost(HandshakeModel { write_attempts: handshake.model@.write_attempts.push((payload@, length@)), ..handshake.model@ });
    handshake.model = match written {
        Ok(n) => Ghost(HandshakeModel { written: model@.written.push((payload@, message@.take(n as int))), ..model@ }),
        Err(_) => model,
    };
    written
}

/// Calls `snow::HandshakeState::read_message`, which reads the peer's
/// handshake message into `payload`.  The buffer keeps its length; on
/// success the handshake records the message read.
#[verifier::external_body]
pub(crate) fn handshake_read(handshake: &mut NoiseHandshake, message: &[u8], payload: &mut Vec<u8>) -> (read: Result<usize, snow::Error>)
    ensures
        final(payload)@.len() == old(payload)@.len(),
        match read {
            Ok(_) => final(handshake).model() == (HandshakeModel {
                read: old(handshake).model().read.push(message@),
                ..old(handshake).model()
            }),
            Err(_) => final(handshake).model() == old(handshake).model(),
        },
{
    let read = handshake.state.read_message(message, payload.as_mut_slice());
    if read.is_ok() {
        handshake.model = Ghost(HandshakeModel { read: handshake.model@.read.push(message@), ..handshake.model@ });
    }
    read
}

/// Calls `snow::HandshakeState::into_transport_mode`.  The transport keeps
/// the handshake it came from and has passed no message yet; nothing is
/// stated of when it fails.
#[verifier::external_body]
pub(crate) fn handshake_into_transport(handshake: NoiseHandshake) -> (transport: Result<NoiseTransport, snow::Error>)
    ensures
        transport matches Ok(t) ==> t.model() == (TransportModel {
            handshake: handshake.model(),
            sent: Seq::empty(),
            read_attempts: Seq::empty(),
            received: Seq::empty(),
        }),
{
    let model = handshake.model;
    match handshake.state.into_transport_mode() {
        Ok(state) => Ok(NoiseTransport {
            state,
            model: Ghost(TransportModel { handshake: model@, sent: Seq::empty(), read_attempts: Seq::empty(), received: Seq::empty() }),
        }),
        Err(error) => Err(error),
    }
}

/// Calls `snow::TransportState::write_message`, which encrypts `payload`
/// into `message`.  On success the ciphertext is the payload and a 16-byte
/// tag: it has `payload.len() + 16` bytes, at most 65535, which fit in the
/// buffer, and the session records the pair.  The buffer keeps its length.
/// The initiator's session, whose sending key the finished handshake set,
/// encrypts every payload that fits, until its nonce would reach the
/// reserved `u64::MAX`; each message sent uses one nonce.  How the
/// ciphertext bytes follow from the payload and the keys is not stated.
#[verifier::external_body]
pub(crate) fn transport_write(transport: &mut NoiseTransport, payload: &[u8], message: &mut Vec<u8>) -> (written: Result<usize, snow::Error>)
    ensures
        final(message)@.len() == old(message)@.len(),
        old(transport).model().handshake.initiator && payload@.len() + 16 <= 65535 && payload@.len() + 16
            <= old(message)@.len() && old(transport).model().sent.len() < u64::MAX ==> written is Ok,
        match written {
            Ok(n) => {
                &&& n == payload@.len() + 16 && n <= old(message)@.len() && n <= 65535
                &&& final(transport).model() == (TransportModel {
                    sent: old(transport).model().sent.push((payload@, final(message)@.take(n as int))),
                    ..old(transport).model()
                })
            },
            Err(_) => final(transport).model() == old(transport).model(),
        },
{
    let written = transport.state.write_message(payload, message.as_mut_slice());
    if let Ok(n) = written {
        transport.model = Ghost(TransportModel { sent: transport.model@.sent.push((payload@, message@.take(n as int))), ..transport.model@ });
    }
    written
}

/// Calls `snow::TransportState::read_message`, which decrypts `message`
/// into `payload`.  The session records the attempt, with the message and
/// the buffer's length.  On success the message held a 16-byte tag, the
/// `message.len() - 16` plaintext bytes fit in the buffer, and the session
/// records the pair.  The buffer keeps its length.  How the plaintext bytes
/// follow from the message and the keys, and whether the message
/// authenticates under them, is not stated.
#[verifier::external_body]
pub(crate) fn transport_read(transport: &mut NoiseTransport, message: &[u8], payload: &mut Vec<u8>) -> (read: Result<usize, snow::Error>)
    ensures
        final(payload)@.len() == old(payload)@.len(),
        match read {
            Ok(n) => {
                &&& message@.len() >= 16 && n == message@.len() - 16 && n <= old(payload)@.len()
                &&& final(transport).model() == (TransportModel {
                    read_attempts: old(transport).model().read_attempts.push((message@, old(payload)@.len())),
                    received: old(transport).model().received.push((message@, final(payload)@.take(n as int))),
                    ..old(transport).model()
                })
            },
            Err(_) => final(transport).model() == (TransportModel {
                read_attempts: old(transport).model().read_attempts.push((message@, old(payload)@.len())),
                ..old(transport).model()
            }),
        },
{
    let length = Ghost(payload@.len());
    let read = transport.state.read_message(message, payload.as_mut_slice());
    let model = Ghost(TransportModel { read_attempts: transport.model@.read_attempts.push((message@, length@)), ..transport.model@ });
    transport.model = match read {
        Ok(n) => Ghost(TransportModel { received: model@.received.push((message@, payload@.take(n as int))), ..model@ }),
        Err(_) => model,
    };
    read
}

} // verus!

use saili::esphome::{
    accept_hello, action_outcome, client_hello, decode_encryption_key, encode_plaintext,
    execute_request, finish_discovery, finish_handshake, frame, frame_payload_size,
    handshake_response, hello_from_message, hello_request, next_call_id, noise_initiator, open_message,
    parse_plaintext, parse_server_hello, record_service, route_message, seal_message,
    validate_action_schema, with_default_port, ActionSchemaMismatch, EspHomeError,
    ExecuteServiceResponse, HelloResponse, ListEntitiesServicesArgument,
    ListEntitiesServicesResponse, MalformedMessageReason, MessageRoute, NoiseIdentity,
    ServiceArgumentType, DISCONNECT_REQUEST, EXECUTE_SERVICE_REQUEST, LIST_ENTITIES_DONE_RESPONSE,
    LIST_ENTITIES_SERVICES_RESPONSE, PING_REQUEST,
};
use saili::RcChannels;

const KEY_TEXT: &str = "AAECAwQFBgcICQoLDA0ODxAREhMUFRYXGBkaGxwdHh8=";

fn key_bytes() -> [u8; 32] {
    let mut key = [0u8; 32];
    for (index, byte) in key.iter_mut().enumerate() {
        *byte = index as u8;
    }
    key
}

const ARGUMENT_NAMES: [&str; 16] = [
    "roll_us",
    "pitch_us",
    "throttle_us",
    "yaw_us",
    "aux1_us",
    "aux2_us",
    "aux3_us",
    "aux4_us",
    "aux5_us",
    "aux6_us",
    "aux7_us",
    "aux8_us",
    "aux9_us",
    "aux10_us",
    "aux11_us",
    "aux12_us",
];

fn bridge_service() -> ListEntitiesServicesResponse {
    ListEntitiesServicesResponse {
        name: "set_rc_channels".to_owned(),
        key: 0xdead_beef,
        args: ARGUMENT_NAMES
            .iter()
            .map(|name| ListEntitiesServicesArgument {
                name: (*name).to_owned(),
                argument_type: 1,
            })
            .collect(),
        supports_response: 100,
    }
}

#[test]
fn addresses_without_a_port_get_the_api_port() {
    assert_eq!(with_default_port("  bridge.local  "), "bridge.local:6053");
    assert_eq!(with_default_port("192.0.2.10:80"), "192.0.2.10:80");
    assert_eq!(with_default_port("host:+81"), "host:+81");
    assert_eq!(with_default_port("host:http"), "host:http:6053");
    assert_eq!(with_default_port("host:70000"), "host:70000:6053");
    assert_eq!(with_default_port("host:"), "host::6053");
}

#[test]
fn server_hello_carries_name_and_mac() {
    let identity = parse_server_hello(b"\x01bridge\0AA:BB\0").expect("hello should parse");
    assert_eq!(identity.name, "bridge");
    assert_eq!(identity.mac_address, "AA:BB");

    let identity = parse_server_hello(b"\x01br\xffdge\0AA").expect("hello should parse");
    assert_eq!(identity.name, "br\u{FFFD}dge");
    assert_eq!(identity.mac_address, "AA");

    let identity = parse_server_hello(b"\x01only-name").expect("hello should parse");
    assert_eq!(identity.name, "only-name");
    assert_eq!(identity.mac_address, "");

    assert!(matches!(
        parse_server_hello(&[]),
        Err(EspHomeError::MalformedServerHello)
    ));
    assert!(matches!(
        parse_server_hello(&[2, b'x']),
        Err(EspHomeError::UnsupportedNoiseProtocol { protocol: 2 })
    ));
}

#[test]
fn encryption_key_must_be_base64_of_thirty_two_bytes() {
    let key = decode_encryption_key(&format!("  {KEY_TEXT}\n")).expect("key should decode");
    assert_eq!(key, key_bytes());
    assert!(matches!(
        decode_encryption_key("not base64!"),
        Err(EspHomeError::InvalidEncryptionKey(_))
    ));
    assert!(matches!(
        decode_encryption_key("AAEC"),
        Err(EspHomeError::EncryptionKeyLength { actual: 3 })
    ));
}

#[test]
fn frames_and_plaintext_round_trip() {
    let framed = frame(&[9, 8, 7]).expect("small payload fits");
    assert_eq!(framed, vec![1, 0, 3, 9, 8, 7]);
    assert_eq!(frame_payload_size([framed[0], framed[1], framed[2]]).unwrap(), 3);
    assert!(matches!(
        frame_payload_size([0, 0, 3]),
        Err(EspHomeError::UnexpectedFrameMarker { marker: 0 })
    ));
    assert_eq!(frame_payload_size([1, 1, 2]).unwrap(), 258);
    assert!(matches!(
        frame(&vec![0; 65536]),
        Err(EspHomeError::FrameTooLarge { size: 65536 })
    ));

    let plaintext = encode_plaintext(EXECUTE_SERVICE_REQUEST, &[5, 6]).unwrap();
    assert_eq!(plaintext, vec![0, 42, 0, 2, 5, 6]);
    let message = parse_plaintext(&plaintext).unwrap();
    assert_eq!(message.message_type, EXECUTE_SERVICE_REQUEST);
    assert_eq!(message.payload, vec![5, 6]);
    assert!(matches!(
        parse_plaintext(&[0, 1, 0]),
        Err(EspHomeError::MalformedMessage {
            reason: MalformedMessageReason::HeaderTooShort
        })
    ));
    assert!(matches!(
        parse_plaintext(&[0, 1, 0, 3, 1]),
        Err(EspHomeError::MalformedMessage {
            reason: MalformedMessageReason::LengthMismatch {
                declared: 3,
                actual: 1
            }
        })
    ));
    assert!(matches!(
        encode_plaintext(1, &vec![0; 70000]),
        Err(EspHomeError::FrameTooLarge { size: 70000 })
    ));
}

#[test]
fn bridge_schema_is_accepted_and_differences_are_reported() {
    assert!(validate_action_schema(&bridge_service()).is_ok());

    let mut service = bridge_service();
    service.supports_response = 0;
    assert!(matches!(
        validate_action_schema(&service),
        Err(EspHomeError::ActionSchemaMismatch {
            reason: ActionSchemaMismatch::ResponseMode {
                expected: 100,
                actual: 0
            }
        })
    ));

    let mut service = bridge_service();
    service.args.pop();
    assert!(matches!(
        validate_action_schema(&service),
        Err(EspHomeError::ActionSchemaMismatch {
            reason: ActionSchemaMismatch::ArgumentCount {
                expected: 16,
                actual: 15
            }
        })
    ));

    let mut service = bridge_service();
    service.args[2].name = "thrust_us".to_owned();
    service.args[5].argument_type = 2;
    match validate_action_schema(&service) {
        Err(EspHomeError::ActionSchemaMismatch {
            reason:
                ActionSchemaMismatch::ArgumentName {
                    position,
                    expected,
                    actual,
                },
        }) => {
            assert_eq!(position, 3);
            assert_eq!(expected, "throttle_us");
            assert_eq!(actual, "thrust_us");
        }
        other => panic!("unexpected result {other:?}"),
    }

    let mut service = bridge_service();
    service.args[5].argument_type = ServiceArgumentType::Float.code();
    match validate_action_schema(&service) {
        Err(EspHomeError::ActionSchemaMismatch {
            reason:
                ActionSchemaMismatch::ArgumentType {
                    name,
                    expected,
                    actual,
                },
        }) => {
            assert_eq!(name, "aux2_us");
            assert_eq!(expected, 1);
            assert_eq!(actual, 2);
        }
        other => panic!("unexpected result {other:?}"),
    }
}

#[test]
fn discovery_keeps_the_rc_action_key() {
    let other = ListEntitiesServicesResponse {
        name: "restart".to_owned(),
        key: 7,
        args: Vec::new(),
        supports_response: 0,
    };
    assert_eq!(record_service(None, &other).unwrap(), None);
    let found = record_service(None, &bridge_service()).unwrap();
    assert_eq!(found, Some(0xdead_beef));
    assert_eq!(record_service(found, &other).unwrap(), found);
    assert_eq!(finish_discovery(found).unwrap(), 0xdead_beef);
    assert!(matches!(
        finish_discovery(None),
        Err(EspHomeError::ActionNotFound)
    ));
    let mut broken = bridge_service();
    broken.supports_response = 1;
    assert!(matches!(
        record_service(None, &broken),
        Err(EspHomeError::ActionSchemaMismatch { .. })
    ));
}

#[test]
fn hello_exchange_sets_the_server_identity() {
    let request = hello_request("0.1.0");
    assert_eq!(request.client_info, "saili 0.1.0");
    assert_eq!((request.api_version_major, request.api_version_minor), (1, 14));

    let identity = NoiseIdentity {
        name: "noise-name".to_owned(),
        mac_address: "AA".to_owned(),
    };
    let server = accept_hello(
        identity.clone(),
        HelloResponse {
            api_version_major: 1,
            api_version_minor: 10,
            server_info: "esphome 2025".to_owned(),
            name: String::new(),
        },
    )
    .unwrap();
    assert_eq!(server.name, "noise-name");
    assert_eq!(server.mac_address, "AA");
    assert_eq!(server.version, "esphome 2025");

    let server = accept_hello(
        identity.clone(),
        HelloResponse {
            api_version_major: 1,
            api_version_minor: 10,
            server_info: String::new(),
            name: "hello-name".to_owned(),
        },
    )
    .unwrap();
    assert_eq!(server.name, "hello-name");

    assert!(matches!(
        accept_hello(
            identity,
            HelloResponse {
                api_version_major: 2,
                api_version_minor: 0,
                server_info: String::new(),
                name: String::new(),
            }
        ),
        Err(EspHomeError::UnsupportedApiVersion { major: 2, minor: 0 })
    ));
}

#[test]
fn call_ids_skip_zero() {
    assert_eq!(next_call_id(1), 2);
    assert_eq!(next_call_id(u32::MAX), 1);
}

#[test]
fn action_request_carries_all_sixteen_channels() {
    let request = execute_request(9, 4, &RcChannels::safe());
    assert_eq!(request.key, 9);
    assert_eq!(request.call_id, 4);
    assert!(!request.return_response);
    let values: Vec<i32> = request.args.iter().map(|argument| argument.int_value).collect();
    assert_eq!(
        values,
        vec![1500, 1500, 988, 1500, 988, 988, 988, 988, 988, 988, 988, 988, 988, 988, 988, 988]
    );
}

#[test]
fn action_responses_are_matched_by_call_id() {
    let response = |call_id, success, message: &str| ExecuteServiceResponse {
        call_id,
        success,
        error_message: message.to_owned(),
    };
    assert!(action_outcome(3, response(2, true, "")).is_none());
    assert!(matches!(action_outcome(3, response(3, true, "")), Some(Ok(()))));
    match action_outcome(3, response(3, false, "bad value")) {
        Some(Err(EspHomeError::ActionRejected { message })) => assert_eq!(message, "bad value"),
        other => panic!("unexpected outcome {other:?}"),
    }
}

#[test]
fn messages_are_routed_while_waiting() {
    let awaited = [LIST_ENTITIES_SERVICES_RESPONSE, LIST_ENTITIES_DONE_RESPONSE];
    assert_eq!(route_message(LIST_ENTITIES_DONE_RESPONSE, &awaited), MessageRoute::Deliver);
    assert_eq!(route_message(PING_REQUEST, &awaited), MessageRoute::AnswerPing);
    assert_eq!(route_message(DISCONNECT_REQUEST, &awaited), MessageRoute::Disconnect);
    assert_eq!(route_message(99, &awaited), MessageRoute::Ignore);
    assert_eq!(route_message(PING_REQUEST, &[PING_REQUEST]), MessageRoute::Deliver);
}

#[test]
fn handshake_response_status_is_checked() {
    assert_eq!(handshake_response(&[0, 7, 8]).unwrap(), vec![7, 8]);
    match handshake_response(&[]) {
        Err(EspHomeError::HandshakeRejected { message }) => {
            assert_eq!(message, "empty handshake response")
        }
        other => panic!("unexpected result {other:?}"),
    }
    match handshake_response(b"\x01Handshake MAC failure") {
        Err(EspHomeError::HandshakeRejected { message }) => {
            assert_eq!(message, "Handshake MAC failure")
        }
        other => panic!("unexpected result {other:?}"),
    }
}

#[test]
fn noise_session_round_trips_messages_with_a_responder() {
    let key = key_bytes();
    let mut initiator = noise_initiator(&key).expect("initiator should build");
    let hello = client_hello(&mut initiator).expect("client hello should be written");
    assert_eq!(hello[0], 0);
    assert_eq!(hello.len(), 1 + 32 + 16);

    let params: snow::params::NoiseParams = "Noise_NNpsk0_25519_ChaChaPoly_SHA256".parse().unwrap();
    let mut responder = snow::Builder::new(params)
        .psk(0, &key)
        .unwrap()
        .prologue(b"NoiseAPIInit\0\0")
        .unwrap()
        .build_responder()
        .unwrap();
    let mut scratch = [0u8; 128];
    responder.read_message(&hello[1..], &mut scratch).unwrap();
    let mut reply = [0u8; 128];
    let reply_length = responder.write_message(&[], &mut reply).unwrap();
    let mut response = vec![0u8];
    response.extend_from_slice(&reply[..reply_length]);

    let handshake_message = handshake_response(&response).unwrap();
    let mut transport = finish_handshake(initiator, &handshake_message).expect("handshake completes");
    let mut server = responder.into_transport_mode().unwrap();

    let sealed = seal_message(&mut transport, EXECUTE_SERVICE_REQUEST, &[1, 2, 3]).unwrap();
    assert_eq!(sealed.len(), 3 + 4 + 3 + 16);
    let size = frame_payload_size([sealed[0], sealed[1], sealed[2]]).unwrap();
    assert_eq!(size, sealed.len() - 3);
    let mut plaintext = vec![0u8; size];
    let length = server.read_message(&sealed[3..], &mut plaintext).unwrap();
    assert_eq!(&plaintext[..length], &[0, 42, 0, 3, 1, 2, 3]);

    let reply_plaintext = [0u8, 131, 0, 2, 8, 1];
    let mut encrypted = vec![0u8; reply_plaintext.len() + 16];
    let encrypted_length = server.write_message(&reply_plaintext, &mut encrypted).unwrap();
    let message = open_message(&mut transport, &encrypted[..encrypted_length]).unwrap();
    assert_eq!(message.message_type, 131);
    assert_eq!(message.payload, vec![8, 1]);

    assert!(matches!(
        open_message(&mut transport, &[0u8; 24]),
        Err(EspHomeError::Noise(_))
    ));
}

#[test]
fn client_hello_is_a_zero_byte_then_the_written_message() {
    assert_eq!(hello_from_message(&[7, 8, 9, 10], 2), vec![0, 7, 8]);
    assert_eq!(hello_from_message(&[7, 8], 0), vec![0]);
}

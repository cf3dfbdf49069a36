use saili::console::{FlightControllerTelemetry, GpsTelemetry};
use saili::{
    crc8_dvb_s2, descriptor_hash, CrsfError, CrsfFrame, Decoder, DeviceIdentity, RawReport,
    RcMapping, ReportFormat,
    VerticalSpeed, CRSF_FRAME_TYPE_BAROMETRIC_ALTITUDE, CRSF_FRAME_TYPE_FLIGHT_MODE,
    CRSF_FRAME_TYPE_GPS, CRSF_FRAME_TYPE_VARIO,
};

fn make_frame(frame_type: u8, payload: &[u8]) -> Vec<u8> {
    let mut frame = vec![0xC8, (payload.len() + 2) as u8, frame_type];
    frame.extend_from_slice(payload);
    let crc = crc8_dvb_s2(&frame[2..]);
    frame.push(crc);
    frame
}

fn identity(manufacturer: &str, product: &str, driver: Option<&str>) -> DeviceIdentity {
    DeviceIdentity {
        manufacturer: manufacturer.to_owned(),
        product: product.to_owned(),
        serial_number: None,
        path: "/dev/hidraw0".to_owned(),
        usage_page: 1,
        usage: 4,
        interface_number: 0,
        descriptor_hash: None,
        kernel_driver: driver.map(str::to_owned),
    }
}

#[test]
fn descriptor_hash_is_sixteen_digit_fnv1a() {
    assert_eq!(descriptor_hash(&[]), "cbf29ce484222325");
    assert_eq!(descriptor_hash(b"a"), "af63dc4c8601ec8c");
    assert_eq!(descriptor_hash(b"foobar"), "85944171f73967e8");
}

#[test]
fn device_metadata_suggests_a_layout() {
    assert_eq!(
        identity("Any", "Thing", Some("PXRC")).format_hint(),
        Some(ReportFormat::LinuxDemuxed8)
    );
    assert_eq!(
        identity("FeiYing Model", "SAILI Simulator - PhoenixRC Controller", None).format_hint(),
        Some(ReportFormat::RawMuxed8)
    );
    assert_eq!(
        identity("Acme", "KHOBBY adapter", Some("usbhid")).format_hint(),
        Some(ReportFormat::RawMuxed8)
    );
    assert_eq!(identity("Acme", "Joystick", None).format_hint(), None);
}

#[test]
fn format_labels_parse_back() {
    for format in [
        ReportFormat::Auto,
        ReportFormat::RawMuxed8,
        ReportFormat::LinuxDemuxed8,
        ReportFormat::Legacy7Button,
    ] {
        assert_eq!(ReportFormat::parse(format.label()), Ok(format));
        assert_eq!(format.label().parse::<ReportFormat>(), Ok(format));
    }
    let error = ReportFormat::parse("muxed").expect_err("unknown label");
    assert_eq!(error.value, "muxed");
}

#[test]
fn frame_hex_reads_back_as_the_same_frame() {
    let raw = make_frame(CRSF_FRAME_TYPE_FLIGHT_MODE, b"ACRO\0");
    let frame = CrsfFrame::parse(&raw).expect("valid frame");
    let text = frame.raw_hex();
    let expected = raw
        .iter()
        .map(|byte| format!("{byte:02X}"))
        .collect::<Vec<_>>()
        .join(" ");
    assert_eq!(text, expected);
    let again = CrsfFrame::from_hex(&text).expect("hex of a frame reads back");
    assert_eq!(again.raw(), frame.raw());
    let lower = CrsfFrame::from_hex(&text.to_lowercase()).expect("lower case reads too");
    assert_eq!(lower.raw(), frame.raw());
}

#[test]
fn crsf_errors_have_messages() {
    assert_eq!(
        CrsfError::CrcMismatch {
            expected: 0xAB,
            actual: 0x0C
        }
        .message(),
        "CRSF CRC mismatch: frame has 0xAB, calculated 0x0C"
    );
    assert_eq!(
        CrsfError::FrameSize { actual: 3 }.message(),
        "CRSF frame has 3 bytes; expected 4-64"
    );
    assert_eq!(
        CrsfError::InvalidHexByte {
            position: 2,
            value: "zz".to_owned()
        }
        .message(),
        "CRSF hex byte 2 is invalid: zz"
    );
    assert_eq!(
        CrsfError::PayloadLength {
            frame_type: 0x08,
            expected: 8,
            actual: 2
        }
        .message(),
        "CRSF frame type 0x08 payload has 2 bytes; expected 8"
    );
    assert_eq!(
        CrsfError::LengthMismatch {
            declared: 9,
            actual: 8
        }
        .message(),
        "CRSF declared total length 9, received 8 bytes"
    );
    assert_eq!(
        CrsfError::DeclaredLengthOutOfRange { declared: 70 }.message(),
        "CRSF declared length 70 is outside 2-62"
    );
    assert_eq!(
        CrsfError::UnsupportedRangeVersion { version: 2 }.message(),
        "CRSF range telemetry version 2 is unsupported; expected version 1"
    );
}

#[test]
fn telemetry_panel_keeps_the_latest_reading_of_each_kind() {
    let mut panel = FlightControllerTelemetry::default();
    let mut payload = Vec::new();
    payload.extend_from_slice(&274_700_000_i32.to_be_bytes());
    payload.extend_from_slice(&1_531_000_000_i32.to_be_bytes());
    payload.extend_from_slice(&425_u16.to_be_bytes());
    payload.extend_from_slice(&12_345_u16.to_be_bytes());
    payload.extend_from_slice(&1_123_u16.to_be_bytes());
    payload.push(14);
    let gps = make_frame(CRSF_FRAME_TYPE_GPS, &payload);
    panel.update(CrsfFrame::parse(&gps).unwrap(), 10);
    assert_eq!(panel.frames_received, 1);
    assert_eq!(panel.last_update, Some(10));
    assert_eq!(panel.last_kind, Some("GPS"));
    assert_eq!(
        panel.gps,
        Some(GpsTelemetry {
            latitude_e7: 274_700_000,
            longitude_e7: 1_531_000_000,
            ground_speed_dkmh: 425,
            heading_cdeg: 12345,
            altitude_metres: 123,
            satellites: 14,
        })
    );

    let vario = make_frame(CRSF_FRAME_TYPE_VARIO, &[0xFF, 0x38]);
    panel.update(CrsfFrame::parse(&vario).unwrap(), 20);
    assert_eq!(
        panel.vertical_speed,
        Some(VerticalSpeed::CentimetresPerSecond(-200))
    );
    assert!(panel.gps.is_some());

    let altitude = make_frame(CRSF_FRAME_TYPE_BAROMETRIC_ALTITUDE, &[0x27, 0xD8, 0x05]);
    panel.update(CrsfFrame::parse(&altitude).unwrap(), 30);
    assert_eq!(panel.barometric_altitude_dm, Some(200));
    assert_eq!(panel.vertical_speed, Some(VerticalSpeed::Packed(5)));

    let short_gps = make_frame(CRSF_FRAME_TYPE_GPS, &[1, 2]);
    panel.update(CrsfFrame::parse(&short_gps).unwrap(), 40);
    assert_eq!(panel.frames_received, 4);
    assert_eq!(panel.frames_rejected, 1);
    assert_eq!(panel.last_kind, Some("Malformed"));
    assert_eq!(
        panel.last_error.as_deref(),
        Some("CRSF frame type 0x02 payload has 2 bytes; expected 15")
    );
    assert!(panel.gps.is_some());

    let mode = make_frame(CRSF_FRAME_TYPE_FLIGHT_MODE, b"ANGL\0");
    panel.update(CrsfFrame::parse(&mode).unwrap(), 50);
    assert_eq!(panel.flight_mode.as_deref(), Some("ANGL"));
    assert!(panel.last_error.is_none());
    assert_eq!(panel.last_frame.as_ref().map(CrsfFrame::frame_type), Some(0x21));

    panel.reject("unreadable frame".to_owned());
    assert_eq!(panel.frames_rejected, 2);
    assert_eq!(panel.last_error.as_deref(), Some("unreadable frame"));
}

#[test]
fn inverted_inputs_mirror_about_the_centre() {
    for value in [0_u8, 1, 100, 126, 127, 129, 130, 200, 254, 255] {
        let raw = RawReport::try_new(&[value, 0, 0, 0, 0, 0, 0, 0], 1, 0, None).unwrap();
        let state = Decoder::new(ReportFormat::LinuxDemuxed8, false)
            .decode(raw)
            .unwrap()
            .unwrap();
        let normal = RcMapping::new([1, 2, 3, 4], [false; 4]).unwrap().map(state);
        let inverted = RcMapping::new([1, 2, 3, 4], [true, false, false, false])
            .unwrap()
            .map(state);
        assert_eq!(normal.roll() + inverted.roll(), 3000, "value {value}");
    }
}

#[test]
fn appending_the_checksum_leaves_zero_residue() {
    for data in [&b""[..], b"\x21ACRO\0", &[0xFF, 0x00, 0x80, 0x7F]] {
        let mut with_crc = data.to_vec();
        with_crc.push(crc8_dvb_s2(data));
        assert_eq!(crc8_dvb_s2(&with_crc), 0);
    }
}

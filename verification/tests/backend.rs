use std::time::Duration;

use saili::backend::{
    resume_deadline, transmit_deadline, wire_output, BackendConfig, BackendError, BackendEvent,
    DesiredOutput, OutputMode, TransmitAction, TransmitCounters, TransmitEvent, TransmitSession,
    INPUT_STALE_AFTER_NS,
};
use saili::{Decoder, RawReport, RcChannels, RcMapping, ReportFormat};

const MILLISECOND: u64 = 1_000_000;

fn live_channels() -> RcChannels {
    let raw = RawReport::try_new(&[200; 8], 1, 0, None).expect("eight bytes");
    let state = Decoder::new(ReportFormat::LinuxDemuxed8, false)
        .decode(raw)
        .expect("demuxed reports decode")
        .expect("demuxed reports decode at once");
    RcMapping::default().map(state)
}

#[test]
fn safe_hold_and_stale_input_send_safe_channels() {
    let desired = DesiredOutput {
        mode: OutputMode::Live,
        channels: live_channels(),
        updated_at: 1_000 * MILLISECOND,
    };
    let (channels, safe_override) = wire_output(&desired, 1_000 * MILLISECOND + INPUT_STALE_AFTER_NS);
    assert!(!safe_override);
    assert_eq!(channels, desired.channels);

    let (channels, safe_override) =
        wire_output(&desired, 1_000 * MILLISECOND + INPUT_STALE_AFTER_NS + 1);
    assert!(safe_override);
    assert_eq!(channels, RcChannels::safe());

    let held = DesiredOutput::safe(5);
    assert_eq!(held.mode, OutputMode::SafeHold);
    let (channels, safe_override) = wire_output(&held, 5);
    assert!(safe_override);
    assert_eq!(channels.throttle(), 988);
}

#[test]
fn counters_saturate_and_report_acknowledgements() {
    let mut counters = TransmitCounters::new();
    counters.record_sent();
    counters.record_sent();
    match counters.acknowledge(Duration::from_millis(12), true) {
        BackendEvent::CommandAcknowledged {
            sent,
            acknowledged,
            round_trip,
            safe_override,
        } => {
            assert_eq!((sent, acknowledged), (2, 1));
            assert_eq!(round_trip, Duration::from_millis(12));
            assert!(safe_override);
        }
        other => panic!("unexpected event {other:?}"),
    }
    let mut full = TransmitCounters {
        sent: u64::MAX,
        acknowledged: u64::MAX,
    };
    full.record_sent();
    full.acknowledge(Duration::ZERO, false);
    assert_eq!((full.sent, full.acknowledged), (u64::MAX, u64::MAX));
}

#[test]
fn late_workers_do_not_catch_up() {
    assert_eq!(transmit_deadline(100, 50), 150);
    assert_eq!(transmit_deadline(u64::MAX - 1, 50), u64::MAX);
    assert_eq!(resume_deadline(150, 140), 150);
    assert_eq!(resume_deadline(150, 400), 400);
}

#[test]
fn backend_errors_have_messages_and_config_clones() {
    assert_eq!(
        BackendError::WorkerPanicked.message(),
        "ESPHome network worker panicked"
    );
    assert_eq!(
        BackendError::Spawn(std::io::Error::other("no threads")).message(),
        "could not start ESPHome network worker"
    );
    let config = BackendConfig {
        address: "bridge.local:6053".to_owned(),
        encryption_key: "key".to_owned(),
        transmit_interval: Duration::from_millis(50),
    };
    let copy = config.clone();
    assert_eq!(copy.address, config.address);
    assert_eq!(copy.transmit_interval, Duration::from_millis(50));
}

#[test]
fn the_transmit_loop_closes_with_safe_channels() {
    assert_eq!(saili::backend::closing_channels(), RcChannels::safe());
}

#[test]
fn a_transmit_session_sends_reports_and_closes_safe() {
    let mut session = TransmitSession::new();
    let desired = DesiredOutput {
        mode: OutputMode::Live,
        channels: live_channels(),
        updated_at: 10 * MILLISECOND,
    };
    match session.step(TransmitEvent::Due { desired, now: 20 * MILLISECOND }) {
        TransmitAction::Send { channels } => assert_eq!(channels, desired.channels),
        other => panic!("expected a send, got {other:?}"),
    }
    match session.step(TransmitEvent::Acknowledged { round_trip: Duration::from_millis(4) }) {
        TransmitAction::Report {
            event: BackendEvent::CommandAcknowledged { sent, acknowledged, round_trip, safe_override },
        } => {
            assert_eq!((sent, acknowledged), (1, 1));
            assert_eq!(round_trip, Duration::from_millis(4));
            assert!(!safe_override);
        }
        other => panic!("expected an acknowledgement, got {other:?}"),
    }
    assert!(matches!(
        session.step(TransmitEvent::Acknowledged { round_trip: Duration::from_millis(4) }),
        TransmitAction::Idle
    ));

    let stale = 20 * MILLISECOND + INPUT_STALE_AFTER_NS;
    match session.step(TransmitEvent::Due { desired, now: stale }) {
        TransmitAction::Send { channels } => assert_eq!(channels, RcChannels::safe()),
        other => panic!("expected a send, got {other:?}"),
    }
    match session.step(TransmitEvent::Acknowledged { round_trip: Duration::from_millis(5) }) {
        TransmitAction::Report {
            event: BackendEvent::CommandAcknowledged { sent, acknowledged, safe_override, .. },
        } => {
            assert_eq!((sent, acknowledged), (2, 2));
            assert!(safe_override);
        }
        other => panic!("expected an acknowledgement, got {other:?}"),
    }

    assert!(!session.is_closed());
    match session.step(TransmitEvent::Stopped) {
        TransmitAction::Close { channels } => assert_eq!(channels, RcChannels::safe()),
        other => panic!("expected the closing send, got {other:?}"),
    }
    assert!(session.is_closed());
    assert!(matches!(
        session.step(TransmitEvent::Due { desired, now: stale }),
        TransmitAction::Idle
    ));
}

#[test]
fn a_failed_send_closes_the_session_with_safe_channels() {
    let mut session = TransmitSession::new();
    let held = DesiredOutput::safe(0);
    assert!(matches!(
        session.step(TransmitEvent::Due { desired: held, now: 0 }),
        TransmitAction::Send { .. }
    ));
    match session.step(TransmitEvent::SendFailed) {
        TransmitAction::Close { channels } => assert_eq!(channels, RcChannels::safe()),
        other => panic!("expected the closing send, got {other:?}"),
    }
    assert!(matches!(session.step(TransmitEvent::Stopped), TransmitAction::Idle));
}

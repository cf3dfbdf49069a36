use std::sync::mpsc::{sync_channel, SyncSender, TrySendError};
use std::sync::{Arc, Mutex};

use saili::reader::{
    select_format, FormatConfidence, ReaderCommand, ReaderCore, ReaderSnapshot, UpdateNotice,
};
use saili::{MuxState, ReportFormat};

const MILLISECOND: u64 = 1_000_000;

fn publish(
    latest: &Arc<Mutex<ReaderSnapshot>>,
    updates: &SyncSender<()>,
    update: impl FnOnce(&mut ReaderSnapshot),
) {
    let mut snapshot = latest.lock().unwrap();
    update(&mut snapshot);
    drop(snapshot);
    let notice = match updates.try_send(()) {
        Ok(()) => UpdateNotice::Sent,
        Err(TrySendError::Full(())) => UpdateNotice::SlotFull,
        Err(TrySendError::Disconnected(())) => UpdateNotice::Closed,
    };
    latest.lock().unwrap().record_notice(notice);
}

#[test]
fn latest_snapshot_coalesces_updates_without_blocking_reader() {
    let latest = Arc::new(Mutex::new(ReaderSnapshot::new(
        ReportFormat::LinuxDemuxed8,
        FormatConfidence::Explicit,
        "test format".to_owned(),
    )));
    let (sender, receiver) = sync_channel(1);
    publish(&latest, &sender, |snapshot| snapshot.revision = 1);
    publish(&latest, &sender, |snapshot| snapshot.revision = 2);
    assert_eq!(latest.lock().unwrap().revision, 2);
    assert_eq!(latest.lock().unwrap().stats.coalesced_updates, 1);
    assert_eq!(receiver.try_iter().count(), 1);
}

#[test]
fn incomplete_or_old_state_is_not_fresh() {
    let mut snapshot = ReaderSnapshot::new(
        ReportFormat::RawMuxed8,
        FormatConfidence::Explicit,
        "test format".to_owned(),
    );
    let now = 10_000 * MILLISECOND;
    snapshot.stats.last_complete_at = Some(now - 151 * MILLISECOND);
    assert!(!snapshot.complete_state_is_fresh(now, 150 * MILLISECOND));
    snapshot.stats.last_complete_at = None;
    assert!(!snapshot.complete_state_is_fresh(now, 150 * MILLISECOND));
}

#[test]
fn recent_complete_state_is_fresh_even_when_clock_reads_earlier() {
    let mut snapshot = ReaderSnapshot::new(
        ReportFormat::LinuxDemuxed8,
        FormatConfidence::Explicit,
        "test format".to_owned(),
    );
    let now = 10_000 * MILLISECOND;
    snapshot.stats.last_complete_at = Some(now - 150 * MILLISECOND);
    assert!(snapshot.complete_state_is_fresh(now, 150 * MILLISECOND));
    snapshot.stats.last_complete_at = Some(now + MILLISECOND);
    assert!(snapshot.complete_state_is_fresh(now, 0));
}

#[test]
fn signal_outcomes_other_than_a_full_slot_change_nothing() {
    let mut snapshot = ReaderSnapshot::new(
        ReportFormat::LinuxDemuxed8,
        FormatConfidence::Explicit,
        "test format".to_owned(),
    );
    snapshot.record_notice(UpdateNotice::Sent);
    snapshot.record_notice(UpdateNotice::Closed);
    assert_eq!(snapshot.stats.coalesced_updates, 0);
    snapshot.record_notice(UpdateNotice::SlotFull);
    assert_eq!(snapshot.stats.coalesced_updates, 1);
}

#[test]
fn explicit_format_wins_over_the_device_hint() {
    let (format, confidence, reason) =
        select_format(ReportFormat::Legacy7Button, Some(ReportFormat::RawMuxed8));
    assert_eq!(format, ReportFormat::Legacy7Button);
    assert_eq!(confidence, FormatConfidence::Explicit);
    assert_eq!(reason, "explicit --report-format legacy7-button");

    let (format, confidence, reason) = select_format(ReportFormat::Auto, Some(ReportFormat::RawMuxed8));
    assert_eq!(format, ReportFormat::RawMuxed8);
    assert_eq!(confidence, FormatConfidence::Metadata);
    assert_eq!(reason, "device metadata selected raw-muxed8");

    let (format, confidence, reason) = select_format(ReportFormat::Auto, None);
    assert_eq!(format, ReportFormat::Auto);
    assert_eq!(confidence, FormatConfidence::Uncertain);
    assert_eq!(reason, "no safe format hint was available");
    assert_eq!(confidence.label(), "uncertain");
}

#[test]
fn reader_core_publishes_demuxed_reports_at_once() {
    let mut snapshot = ReaderSnapshot::new(
        ReportFormat::LinuxDemuxed8,
        FormatConfidence::Explicit,
        "test format".to_owned(),
    );
    let mut core = ReaderCore::new(ReportFormat::LinuxDemuxed8, FormatConfidence::Explicit, false);
    assert_eq!(core.begin(&mut snapshot), 1);
    let at = 7 * MILLISECOND;
    assert_eq!(core.record_report_arrival(&mut snapshot, at), 1);
    assert_eq!(snapshot.stats.reports_received, 1);
    assert_eq!(snapshot.stats.last_raw_at, Some(at));
    assert_eq!(snapshot.revision, 0);
    let publications = core.handle_report(&mut snapshot, &[10, 20, 30, 40, 50, 60, 70, 80], at);
    assert_eq!(publications, 1);
    let state = snapshot.state.as_ref().expect("a demuxed report decodes at once");
    assert_eq!(state.channel(0), Some(10));
    assert_eq!(state.channel(6), Some(20));
    assert_eq!(snapshot.stats.last_complete_at, Some(at));
    assert!(snapshot.live_input_is_ready(at + 100 * MILLISECOND, 150 * MILLISECOND));
    assert!(!snapshot.live_input_is_ready(at + 151 * MILLISECOND, 150 * MILLISECOND));
}

#[test]
fn reader_core_counts_malformed_reports_and_read_errors() {
    let mut snapshot = ReaderSnapshot::new(
        ReportFormat::LinuxDemuxed8,
        FormatConfidence::Explicit,
        "test format".to_owned(),
    );
    let mut core = ReaderCore::new(ReportFormat::LinuxDemuxed8, FormatConfidence::Explicit, false);
    core.begin(&mut snapshot);
    core.record_report_arrival(&mut snapshot, MILLISECOND);
    core.handle_report(&mut snapshot, &[1, 2, 3], MILLISECOND);
    assert_eq!(snapshot.stats.malformed_reports, 1);
    assert_eq!(snapshot.stats.reports_received, 1);
    assert!(snapshot.state.is_none());
    assert!(snapshot.stats.last_error.is_some());

    core.record_report_arrival(&mut snapshot, 2 * MILLISECOND);
    core.handle_report(&mut snapshot, &[1, 2, 3, 4, 5, 6, 7, 8], 2 * MILLISECOND);
    assert!(snapshot.state.is_some());
    core.handle_read_error(&mut snapshot, "device unplugged".to_owned());
    assert_eq!(snapshot.stats.read_errors, 1);
    assert!(snapshot.state.is_none());
    assert_eq!(snapshot.stats.last_error.as_deref(), Some("device unplugged"));
    core.handle_reconnected(&mut snapshot);
    assert_eq!(snapshot.stats.reconnects, 1);
    core.handle_timeout(&mut snapshot);
    assert_eq!(snapshot.stats.timeouts, 1);
}

#[test]
fn reader_core_refuses_calibration_outside_raw_mux() {
    let mut snapshot = ReaderSnapshot::new(
        ReportFormat::LinuxDemuxed8,
        FormatConfidence::Explicit,
        "test format".to_owned(),
    );
    let mut core = ReaderCore::new(ReportFormat::LinuxDemuxed8, FormatConfidence::Explicit, false);
    core.handle_command(&mut snapshot, ReaderCommand::StartMuxCalibration);
    assert!(snapshot.stats.last_error.is_some());

    let mut snapshot = ReaderSnapshot::new(
        ReportFormat::RawMuxed8,
        FormatConfidence::Explicit,
        "test format".to_owned(),
    );
    let mut core = ReaderCore::new(ReportFormat::RawMuxed8, FormatConfidence::Explicit, false);
    core.begin(&mut snapshot);
    core.handle_command(&mut snapshot, ReaderCommand::StartMuxCalibration);
    assert!(snapshot.stats.last_error.is_none());
    assert_eq!(
        snapshot.stats.decoder_status.mux_state,
        Some(MuxState::CalibratingFirst)
    );
}

fn check_published_state(snapshot: &ReaderSnapshot, previous_revision: u64) -> u64 {
    if snapshot.state.is_some() {
        assert!(snapshot.stats.last_complete_at.is_some());
        assert_ne!(snapshot.stats.decoder_status.mux_state, Some(MuxState::Lost));
    }
    assert!(snapshot.revision >= previous_revision);
    snapshot.revision
}

#[test]
fn published_states_over_a_run_are_complete_and_never_lost() {
    let mut snapshot = ReaderSnapshot::new(
        ReportFormat::LinuxDemuxed8,
        FormatConfidence::Explicit,
        "test format".to_owned(),
    );
    let mut core = ReaderCore::new(ReportFormat::LinuxDemuxed8, FormatConfidence::Explicit, false);
    let mut revision = check_published_state(&snapshot, 0);
    core.begin(&mut snapshot);
    revision = check_published_state(&snapshot, revision);
    core.record_report_arrival(&mut snapshot, MILLISECOND);
    core.handle_report(&mut snapshot, &[1, 2, 3, 4, 5, 6, 7, 8], MILLISECOND);
    assert!(snapshot.state.is_some());
    revision = check_published_state(&snapshot, revision);
    core.handle_report(&mut snapshot, &[1, 2], 2 * MILLISECOND);
    assert!(snapshot.state.is_none());
    revision = check_published_state(&snapshot, revision);
    core.handle_report(&mut snapshot, &[8, 7, 6, 5, 4, 3, 2, 1], 3 * MILLISECOND);
    revision = check_published_state(&snapshot, revision);
    core.handle_read_error(&mut snapshot, "gone".to_owned());
    assert!(snapshot.state.is_none());
    revision = check_published_state(&snapshot, revision);
    core.handle_reconnect_failed(&mut snapshot, "still gone".to_owned());
    revision = check_published_state(&snapshot, revision);
    core.handle_reconnected(&mut snapshot);
    revision = check_published_state(&snapshot, revision);
    core.resume(&mut snapshot);
    assert!(snapshot.state.is_none());
    revision = check_published_state(&snapshot, revision);
    core.handle_timeout(&mut snapshot);
    revision = check_published_state(&snapshot, revision);
    core.finish(&mut snapshot);
    assert!(snapshot.state.is_none());
    check_published_state(&snapshot, revision);
}

#[test]
fn a_new_snapshot_names_its_format_and_counts_nothing() {
    let snapshot = ReaderSnapshot::new(
        ReportFormat::LinuxDemuxed8,
        FormatConfidence::Explicit,
        "explicit".to_owned(),
    );
    assert_eq!(snapshot.revision, 0);
    assert!(snapshot.state.is_none());
    assert_eq!(snapshot.stats.selected_format, Some(ReportFormat::LinuxDemuxed8));
    assert_eq!(snapshot.stats.decoded_states, 0);
    assert_eq!(snapshot.stats.reports_received, 0);
    assert_eq!(snapshot.stats.malformed_reports, 0);
    assert_eq!(snapshot.stats.timeouts, 0);
    assert_eq!(snapshot.stats.reconnects, 0);
    assert_eq!(snapshot.stats.read_errors, 0);
    assert_eq!(snapshot.stats.mux_loss_events, 0);
    assert!(snapshot.stats.last_raw_at.is_none());
    assert_eq!(snapshot.stats.selection_reason, "explicit");

    let automatic = ReaderSnapshot::new(
        ReportFormat::Auto,
        FormatConfidence::Uncertain,
        "no hint".to_owned(),
    );
    assert_eq!(automatic.stats.selected_format, None);
}

#[test]
fn an_auto_reader_publishes_no_state() {
    let mut snapshot = ReaderSnapshot::new(
        ReportFormat::Auto,
        FormatConfidence::Uncertain,
        "no safe format hint was available".to_owned(),
    );
    let mut core = ReaderCore::new(ReportFormat::Auto, FormatConfidence::Uncertain, false);
    core.begin(&mut snapshot);
    for step in 1..5_u64 {
        core.record_report_arrival(&mut snapshot, step * MILLISECOND);
        core.handle_report(&mut snapshot, &[1, 2, 3, 4, 5, 6, 7, 8], step * MILLISECOND);
        assert!(snapshot.state.is_none());
        assert!(snapshot.latest_raw.is_some());
    }
    assert_eq!(snapshot.stats.decoded_states, 0);
    assert_eq!(snapshot.stats.selected_format, None);
}

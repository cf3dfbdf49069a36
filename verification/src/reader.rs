use vstd::prelude::*;
use vstd::string::*;

use crate::protocol::{
    decoded_view_opt, decoder_confirmed, decoder_decoded, decoder_lost, decoder_new, decoder_reset,
    decoder_started, status_matches, DecodedState, Decoder, DecoderModel, DecoderStatus,
    MuxLossReason, MuxState, RawReport, ReportFormat, report_built,
    unexpected_length_text, calibration_error_text,
};

verus! {

/// How sure the reader is of the report layout it decodes.
#[derive(Clone, Copy, Debug, Eq, PartialEq, Structural)]
pub enum FormatConfidence {
    Explicit,
    Metadata,
    Uncertain,
}

impl FormatConfidence {
    pub fn label(self) -> (label: &'static str)
        ensures
            label@ == match self {
                FormatConfidence::Explicit => "explicit"@,
                FormatConfidence::Metadata => "metadata"@,
                FormatConfidence::Uncertain => "uncertain"@,
            },
    {
        match self {
            FormatConfidence::Explicit => "explicit",
            FormatConfidence::Metadata => "metadata",
            FormatConfidence::Uncertain => "uncertain",
        }
    }
}

#[derive(Clone, Debug)]
pub struct ReaderConfig {
    pub report_format: ReportFormat,
    pub swap_mux_channels: bool,
}

#[derive(Clone, Copy, Debug, Eq, PartialEq, Structural)]
pub enum ReaderCommand {
    StartMuxCalibration,
    ConfirmMuxCalibration,
}

#[derive(Clone, Copy, Debug, Eq, PartialEq, Structural)]
pub enum ReaderCommandError {
    QueueFull,
    Disconnected,
}

impl ReaderCommandError {
    pub fn message(self) -> (text: &'static str)
        ensures
            text@ == match self {
                ReaderCommandError::QueueFull => "reader command queue is full"@,
                ReaderCommandError::Disconnected => "reader thread is no longer running"@,
            },
    {
        match self {
            ReaderCommandError::QueueFull => "reader command queue is full",
            ReaderCommandError::Disconnected => "reader thread is no longer running",
        }
    }
}

#[derive(Debug)]
pub enum ReaderStartError {
    Spawn(std::io::Error),
}

/// Counters and status of the reader; times are nanoseconds on the reader's
/// monotonic clock.
#[derive(Clone, Debug)]
pub struct ReaderStats {
    pub reports_received: u64,
    pub decoded_states: u64,
    pub malformed_reports: u64,
    pub timeouts: u64,
    pub reconnects: u64,
    pub read_errors: u64,
    pub mux_loss_events: u64,
    pub coalesced_updates: u64,
    pub last_error: Option<String>,
    pub last_raw_at: Option<u64>,
    pub last_complete_at: Option<u64>,
    pub selected_format: Option<ReportFormat>,
    pub format_confidence: FormatConfidence,
    pub selection_reason: String,
    pub decoder_status: DecoderStatus,
}

pub open spec fn saturating_inc(x: u64) -> u64 {
    if x == u64::MAX {
        x
    } else {
        (x + 1) as u64
    }
}

/// The stats of a reader that has read nothing yet: every counter at 0, no
/// error and no times, the selected format (none for `Auto`), how sure the
/// selection is and why, and the decoder status.
pub open spec fn initial_stats(
    format: ReportFormat,
    confidence: FormatConfidence,
    selection_reason: String,
    decoder_status: DecoderStatus,
) -> ReaderStats {
    ReaderStats {
        reports_received: 0,
        decoded_states: 0,
        malformed_reports: 0,
        timeouts: 0,
        reconnects: 0,
        read_errors: 0,
        mux_loss_events: 0,
        coalesced_updates: 0,
        last_error: None,
        last_raw_at: None,
        last_complete_at: None,
        selected_format: if format == ReportFormat::Auto { None } else { Some(format) },
        format_confidence: confidence,
        selection_reason,
        decoder_status,
    }
}

impl ReaderStats {
    pub fn new(format: ReportFormat, confidence: FormatConfidence, selection_reason: String) -> (stats: Self)
        ensures
            stats == initial_stats(format, confidence, selection_reason, stats.decoder_status),
            status_matches(decoder_new(format, false), stats.decoder_status),
    {
        let decoder = Decoder::new(format, false);
        ReaderStats {
            reports_received: 0,
            decoded_states: 0,
            malformed_reports: 0,
            timeouts: 0,
            reconnects: 0,
            read_errors: 0,
            mux_loss_events: 0,
            coalesced_updates: 0,
            last_error: None,
            last_raw_at: None,
            last_complete_at: None,
            selected_format: if format != ReportFormat::Auto {
                Some(format)
            } else {
                None
            },
            format_confidence: confidence,
            selection_reason,
            decoder_status: decoder.status(),
        }
    }

    /// Counts one update whose notification was merged with a pending one.
    pub fn record_coalesced_update(&mut self)
        ensures
            *final(self) == (ReaderStats {
                coalesced_updates: saturating_inc(old(self).coalesced_updates),
                ..*old(self)
            }),
    {
        self.coalesced_updates = self.coalesced_updates.saturating_add(1);
    }
}

/// The latest state published by the reader.
#[derive(Clone, Debug)]
pub struct ReaderSnapshot {
    pub revision: u64,
    pub latest_raw: Option<RawReport>,
    pub state: Option<DecodedState>,
    pub stats: ReaderStats,
}

/// Whether a complete state arrived no longer than `maximum_age` before `now`.
pub open spec fn fresh_spec(last_complete_at: Option<u64>, now: u64, maximum_age: u64) -> bool {
    match last_complete_at {
        None => false,
        Some(updated) => (if now >= updated { now - updated } else { 0 }) <= maximum_age,
    }
}

impl ReaderSnapshot {
    pub fn new(format: ReportFormat, confidence: FormatConfidence, selection_reason: String) -> (snapshot: Self)
        ensures
            snapshot.revision == 0,
            snapshot.latest_raw is None,
            snapshot.state is None,
            snapshot.stats == initial_stats(format, confidence, selection_reason, snapshot.stats.decoder_status),
            status_matches(decoder_new(format, false), snapshot.stats.decoder_status),
    {
        ReaderSnapshot {
            revision: 0,
            latest_raw: None,
            state: None,
            stats: ReaderStats::new(format, confidence, selection_reason),
        }
    }

    /// Whether the last complete state is at most `maximum_age` nanoseconds old at `now`.
    pub fn complete_state_is_fresh(&self, now: u64, maximum_age: u64) -> (fresh: bool)
        ensures
            fresh == fresh_spec(self.stats.last_complete_at, now, maximum_age),
    {
        match self.stats.last_complete_at {
            None => false,
            Some(updated) => now.saturating_sub(updated) <= maximum_age,
        }
    }

    /// Whether live output may use the input: a fresh complete state exists
    /// and, for raw-muxed reports, the mux is calibrated.
    pub fn live_input_is_ready(&self, now: u64, maximum_age: u64) -> (ready: bool)
        ensures
            ready == (self.state is Some && fresh_spec(self.stats.last_complete_at, now, maximum_age)
                && match self.stats.decoder_status.mux_state {
                None => true,
                Some(state) => state == MuxState::Calibrated,
            }),
    {
        self.state.is_some() && self.complete_state_is_fresh(now, maximum_age) && match self.stats.decoder_status.mux_state {
            None => true,
            Some(state) => state == MuxState::Calibrated,
        }
    }
}

/// What became of the signal that tells readers a new snapshot is there:
/// the one-slot signal took it, its slot still held an unread one, or no
/// reader is left.
#[derive(Clone, Copy, Debug, Eq, PartialEq, Structural)]
pub enum UpdateNotice {
    Sent,
    SlotFull,
    Closed,
}

impl ReaderSnapshot {
    /// Records how signalling one published update went: an update whose
    /// signal found the slot full is merged with the pending one and counted
    /// as coalesced; the reader never waits for the slot.
    pub fn record_notice(&mut self, notice: UpdateNotice)
        ensures
            notice == UpdateNotice::SlotFull ==> *final(self) == (ReaderSnapshot {
                stats: ReaderStats {
                    coalesced_updates: saturating_inc(old(self).stats.coalesced_updates),
                    ..old(self).stats
                },
                ..*old(self)
            }),
            notice != UpdateNotice::SlotFull ==> *final(self) == *old(self),
    {
        if notice == UpdateNotice::SlotFull {
            self.stats.record_coalesced_update();
        }
    }
}

/// The layout the reader decodes, how sure it is, and why: an explicit
/// request wins; `Auto` takes the device's hint when it has one.
pub open spec fn selected_format(requested: ReportFormat, hint: Option<ReportFormat>) -> (ReportFormat, FormatConfidence, Seq<char>) {
    if requested != ReportFormat::Auto {
        (requested, FormatConfidence::Explicit, "explicit --report-format "@ + requested.label_spec())
    } else {
        match hint {
            None => (ReportFormat::Auto, FormatConfidence::Uncertain, "no safe format hint was available"@),
            Some(format) => (format, FormatConfidence::Metadata, "device metadata selected "@ + format.label_spec()),
        }
    }
}

pub fn select_format(requested: ReportFormat, hint: Option<ReportFormat>) -> (selection: (ReportFormat, FormatConfidence, String))
    ensures
        (selection.0, selection.1, selection.2@) == selected_format(requested, hint),
{
    if requested != ReportFormat::Auto {
        let mut reason = String::from_str("explicit --report-format ");
        reason.append(requested.label());
        return (requested, FormatConfidence::Explicit, reason);
    }
    match hint {
        None => (ReportFormat::Auto, FormatConfidence::Uncertain, String::from_str("no safe format hint was available")),
        Some(format) => {
            let mut reason = String::from_str("device metadata selected ");
            reason.append(format.label());
            (format, FormatConfidence::Metadata, reason)
        },
    }
}

/// Whether the raw-mux tracker of `m` is in the lost state.
pub open spec fn mux_lost(m: DecoderModel) -> bool {
    m.format == ReportFormat::RawMuxed8 && m.mux.state == MuxState::Lost
}

/// A state that the snapshot publishes is backed by the reader's decoder: it
/// is complete, the published decoder status is the decoder's, the decoder
/// has a format to decode, and the mux is not lost.
pub open spec fn snapshot_consistent(m: DecoderModel, snapshot: ReaderSnapshot) -> bool {
    snapshot.state is Some ==> {
        &&& snapshot.stats.last_complete_at is Some
        &&& m.format != ReportFormat::Auto
        &&& status_matches(m, snapshot.stats.decoder_status)
        &&& !mux_lost(m)
    }
}

/// A reader starts out consistent: its first snapshot publishes no state.
pub proof fn law_reader_starts_consistent(m: DecoderModel, snapshot: ReaderSnapshot)
    requires
        snapshot.state is None,
    ensures
        snapshot_consistent(m, snapshot),
{
}

/// In a consistent snapshot, a published state comes with the time of a
/// complete state and with a mux that the published status does not show
/// as lost. Every step of `ReaderCore` keeps the snapshot consistent and
/// never lowers its revision, so this holds of every snapshot over a run.
pub proof fn law_published_state_is_live(m: DecoderModel, snapshot: ReaderSnapshot)
    requires
        snapshot_consistent(m, snapshot),
    ensures
        snapshot.state is Some ==> snapshot.stats.last_complete_at is Some
            && snapshot.stats.decoder_status.mux_state != Some(MuxState::Lost),
{
}

/// A reader whose format is still `Auto` publishes no state: it has no
/// layout to decode reports with.
pub proof fn law_auto_reader_publishes_no_state(m: DecoderModel, snapshot: ReaderSnapshot)
    requires
        snapshot_consistent(m, snapshot),
        m.format == ReportFormat::Auto,
    ensures
        snapshot.state is None,
{
}

/// One step of the reader keeps a consistent snapshot consistent with the
/// decoder, and never lowers the revision.
pub open spec fn reader_step_keeps(
    before: (DecoderModel, ReaderSnapshot),
    after: (DecoderModel, ReaderSnapshot),
) -> bool {
    &&& snapshot_consistent(before.0, before.1) ==> snapshot_consistent(after.0, after.1)
    &&& after.1.revision >= before.1.revision
}

/// A run of the reader: the decoder and snapshot after each step, where each
/// step keeps what `reader_step_keeps` asks.
pub open spec fn reader_run(run: Seq<(DecoderModel, ReaderSnapshot)>) -> bool
    decreases run.len(),
{
    run.len() <= 1 || (reader_run(run.drop_last()) && reader_step_keeps(run[run.len() - 2], run.last()))
}

/// Over a whole run that starts with no published state, every snapshot is
/// consistent, so each published state is complete and comes with a mux
/// state that is not lost; and the revision never goes down.
pub proof fn law_reader_run(run: Seq<(DecoderModel, ReaderSnapshot)>)
    requires
        run.len() > 0,
        run[0].1.state is None,
        reader_run(run),
    ensures
        forall|i: int| 0 <= i < run.len() ==> snapshot_consistent(#[trigger] run[i].0, run[i].1),
        forall|i: int|
            0 <= i < run.len() && (#[trigger] run[i]).1.state is Some ==> run[i].1.stats.last_complete_at is Some
                && run[i].1.stats.decoder_status.mux_state != Some(MuxState::Lost),
        forall|i: int, j: int| 0 <= i <= j < run.len() ==> (#[trigger] run[i]).1.revision <= (#[trigger] run[j]).1.revision,
    decreases run.len(),
{
    if run.len() > 1 {
        let prefix = run.drop_last();
        law_reader_run(prefix);
        let n = run.len() - 1;
        assert(forall|i: int| 0 <= i < n ==> prefix[i] == run[i]);
        assert(run[n - 1] == prefix[n - 1]);
        assert(snapshot_consistent(run[n].0, run[n].1));
        assert forall|i: int, j: int| 0 <= i <= j < run.len() implies (#[trigger] run[i]).1.revision <= (
        #[trigger] run[j]).1.revision by {
            if j < n {
                assert(prefix[i] == run[i] && prefix[j] == run[j]);
            } else if i < n {
                assert(prefix[i] == run[i] && prefix[n - 1] == run[n - 1]);
            }
        }
    }
    assert forall|i: int| 0 <= i < run.len() && (#[trigger] run[i]).1.state is Some implies run[i].1.stats.last_complete_at
        is Some && run[i].1.stats.decoder_status.mux_state != Some(MuxState::Lost) by {
        law_published_state_is_live(run[i].0, run[i].1);
    }
}

/// The decisions of the HID reader loop: it decodes the reports that the
/// device hands it, runs calibration commands, and keeps the published
/// snapshot up to date. Each step returns how many times it published the
/// snapshot, so that the caller notifies readers that many times.
pub struct ReaderCore {
    decoder: Decoder,
    format: ReportFormat,
    confidence: FormatConfidence,
    sequence: u64,
    previous_raw: Option<RawReport>,
}

impl ReaderCore {
    pub closed spec fn decoder_model(&self) -> DecoderModel {
        self.decoder@
    }

    pub closed spec fn sequence_spec(&self) -> u64 {
        self.sequence
    }

    pub closed spec fn previous_raw_spec(&self) -> Option<RawReport> {
        self.previous_raw
    }

    pub closed spec fn confidence_spec(&self) -> FormatConfidence {
        self.confidence
    }

    #[verifier::type_invariant]
    closed spec fn well_formed(&self) -> bool {
        self.decoder@.format == self.format
    }

    /// Takes the decoder out for an update, leaving a fresh one of the same
    /// format in its place.
    fn take_decoder(&mut self) -> (decoder: Decoder)
        ensures
            decoder@ == old(self).decoder_model(),
            final(self).decoder_model().format == old(self).decoder_model().format,
            final(self).format == old(self).format,
            final(self).confidence == old(self).confidence,
            final(self).sequence == old(self).sequence,
            final(self).previous_raw == old(self).previous_raw,
    {
        proof { use_type_invariant(&*self); }
        let mut decoder = Decoder::new(self.format, false);
        std::mem::swap(&mut decoder, &mut self.decoder);
        decoder
    }

    pub fn new(format: ReportFormat, confidence: FormatConfidence, swap_mux_channels: bool) -> (core: Self)
        ensures
            core.decoder_model() == decoder_new(format, swap_mux_channels),
            core.confidence_spec() == confidence,
            core.sequence_spec() == 0,
            core.previous_raw_spec() is None,
    {
        ReaderCore {
            decoder: Decoder::new(format, swap_mux_channels),
            format,
            confidence,
            sequence: 0,
            previous_raw: None,
        }
    }

    /// Publishes the initial decoder status.
    pub fn begin(&self, snapshot: &mut ReaderSnapshot) -> (publications: u8)
        ensures
            reader_step_keeps((self.decoder_model(), *old(snapshot)), (self.decoder_model(), *final(snapshot))),
            publications == 1,
            status_matches(self.decoder_model(), final(snapshot).stats.decoder_status),
            *final(snapshot) == (ReaderSnapshot {
                stats: ReaderStats { decoder_status: final(snapshot).stats.decoder_status, ..old(snapshot).stats },
                ..*old(snapshot)
            }),
    {
        snapshot.stats.decoder_status = self.decoder.status();
        1
    }

    /// Runs one calibration command. A refused command leaves its error in
    /// the snapshot; an accepted one clears the published state.
    pub fn handle_command(&mut self, snapshot: &mut ReaderSnapshot, command: ReaderCommand) -> (publications: u8)
        ensures
            reader_step_keeps(
                (old(self).decoder_model(), *old(snapshot)),
                (final(self).decoder_model(), *final(snapshot)),
            ),
            publications == 1,
            final(self).sequence_spec() == old(self).sequence_spec(),
            final(self).confidence_spec() == old(self).confidence_spec(),
            ({
                let (m, result) = if command == ReaderCommand::StartMuxCalibration {
                    decoder_started(old(self).decoder_model())
                } else {
                    decoder_confirmed(old(self).decoder_model())
                };
                &&& final(self).decoder_model() == m
                &&& final(self).previous_raw_spec() == if command == ReaderCommand::StartMuxCalibration && result is Ok {
                    None
                } else {
                    old(self).previous_raw_spec()
                }
                &&& final(snapshot).revision == saturating_inc(old(snapshot).revision)
                &&& final(snapshot).latest_raw == old(snapshot).latest_raw
                &&& status_matches(m, final(snapshot).stats.decoder_status)
                &&& match result {
                    Err(e) => {
                        &&& final(snapshot).state == old(snapshot).state
                        &&& final(snapshot).stats == (ReaderStats {
                            decoder_status: final(snapshot).stats.decoder_status,
                            last_error: final(snapshot).stats.last_error,
                            ..old(snapshot).stats
                        })
                        &&& final(snapshot).stats.last_error matches Some(text) && text@ == calibration_error_text(e)
                    },
                    Ok(()) => {
                        &&& final(snapshot).state is None
                        &&& final(snapshot).stats == (ReaderStats {
                            decoder_status: final(snapshot).stats.decoder_status,
                            last_complete_at: None,
                            last_error: None,
                            ..old(snapshot).stats
                        })
                    },
                }
            }),
    {
        proof { use_type_invariant(&*self); }
        let result = match command {
            ReaderCommand::StartMuxCalibration => {
                let mut decoder = self.take_decoder();
                let result = decoder.start_mux_calibration();
                self.decoder = decoder;
                if result.is_ok() {
                    self.previous_raw = None;
                }
                result
            },
            ReaderCommand::ConfirmMuxCalibration => {
                let mut decoder = self.take_decoder();
                let result = decoder.confirm_mux_calibration();
                self.decoder = decoder;
                result
            },
        };
        snapshot.revision = snapshot.revision.saturating_add(1);
        snapshot.stats.decoder_status = self.decoder.status();
        match result {
            Err(error) => {
                snapshot.stats.last_error = Some(String::from_str(error.message()));
            },
            Ok(()) => {
                snapshot.state = None;
                snapshot.stats.last_complete_at = None;
                snapshot.stats.last_error = None;
            },
        }
        1
    }

    /// A read that timed out.
    pub fn handle_timeout(&self, snapshot: &mut ReaderSnapshot) -> (publications: u8)
        ensures
            reader_step_keeps((self.decoder_model(), *old(snapshot)), (self.decoder_model(), *final(snapshot))),
            publications == 1,
            *final(snapshot) == (ReaderSnapshot {
                stats: ReaderStats { timeouts: saturating_inc(old(snapshot).stats.timeouts), ..old(snapshot).stats },
                ..*old(snapshot)
            }),
    {
        snapshot.stats.timeouts = snapshot.stats.timeouts.saturating_add(1);
        1
    }

    /// A report that has arrived: it is counted, and its arrival time
    /// published, before it is decoded.
    pub fn record_report_arrival(&self, snapshot: &mut ReaderSnapshot, received_at: u64) -> (publications: u8)
        ensures
            reader_step_keeps((self.decoder_model(), *old(snapshot)), (self.decoder_model(), *final(snapshot))),
            publications == 1,
            *final(snapshot) == (ReaderSnapshot {
                stats: ReaderStats {
                    reports_received: saturating_inc(old(snapshot).stats.reports_received),
                    last_raw_at: Some(received_at),
                    ..old(snapshot).stats
                },
                ..*old(snapshot)
            }),
    {
        snapshot.stats.reports_received = snapshot.stats.reports_received.saturating_add(1);
        snapshot.stats.last_raw_at = Some(received_at);
        1
    }

    /// A report read from the device, after its arrival was recorded: it is
    /// numbered, checked, and decoded.
    /// A malformed report loses the raw-mux phase. A decoded state is
    /// published unless the mux is lost; when this report made the mux lost,
    /// the published state is withdrawn.
    pub fn handle_report(&mut self, snapshot: &mut ReaderSnapshot, bytes: &[u8], received_at: u64) -> (publications: u8)
        ensures
            reader_step_keeps(
                (old(self).decoder_model(), *old(snapshot)),
                (final(self).decoder_model(), *final(snapshot)),
            ),
            publications == 1,
            final(self).sequence_spec() == saturating_inc(old(self).sequence_spec()),
            final(self).confidence_spec() == old(self).confidence_spec(),
            final(snapshot).revision == saturating_inc(old(snapshot).revision),
            bytes@.len() != 8 ==> {
                &&& final(self).decoder_model() == decoder_lost(old(self).decoder_model(), MuxLossReason::MalformedReport)
                &&& final(self).previous_raw_spec() is None
                &&& final(snapshot).state is None
                &&& final(snapshot).latest_raw == old(snapshot).latest_raw
                &&& status_matches(final(self).decoder_model(), final(snapshot).stats.decoder_status)
                &&& final(snapshot).stats == (ReaderStats {
                    last_complete_at: None,
                    decoder_status: final(snapshot).stats.decoder_status,
                    mux_loss_events: saturating_inc(old(snapshot).stats.mux_loss_events),
                    malformed_reports: saturating_inc(old(snapshot).stats.malformed_reports),
                    last_error: final(snapshot).stats.last_error,
                    ..old(snapshot).stats
                })
                &&& final(snapshot).stats.last_error matches Some(text) && text@ == unexpected_length_text(
                    8,
                    bytes.len() as nat,
                )
            },
            bytes@.len() == 8 ==> (final(snapshot).latest_raw matches Some(raw) && {
                let (m, out) = decoder_decoded(old(self).decoder_model(), raw);
                let became_lost = !mux_lost(old(self).decoder_model()) && mux_lost(m);
                let published = out is Some && !mux_lost(m);
                &&& report_built(raw, bytes@, final(self).sequence_spec(), received_at, old(self).previous_raw_spec())
                &&& final(self).decoder_model() == m
                &&& final(self).previous_raw_spec() == if became_lost { None } else { Some(raw) }
                &&& status_matches(m, final(snapshot).stats.decoder_status)
                &&& decoded_view_opt(final(snapshot).state) == if published {
                    out
                } else if became_lost {
                    None
                } else {
                    decoded_view_opt(old(snapshot).state)
                }
                &&& final(snapshot).stats == (ReaderStats {
                    last_raw_at: Some(received_at),
                    decoder_status: final(snapshot).stats.decoder_status,
                    mux_loss_events: if became_lost {
                        saturating_inc(old(snapshot).stats.mux_loss_events)
                    } else {
                        old(snapshot).stats.mux_loss_events
                    },
                    decoded_states: if published {
                        saturating_inc(old(snapshot).stats.decoded_states)
                    } else {
                        old(snapshot).stats.decoded_states
                    },
                    last_complete_at: if published {
                        Some(received_at)
                    } else if became_lost {
                        None
                    } else {
                        old(snapshot).stats.last_complete_at
                    },
                    ..old(snapshot).stats
                })
            }),
    {
        proof { use_type_invariant(&*self); }
        self.sequence = self.sequence.saturating_add(1);
        let raw = match RawReport::try_new(bytes, self.sequence, received_at, self.previous_raw.as_ref()) {
            Ok(raw) => raw,
            Err(error) => {
                let mut decoder = self.take_decoder();
                decoder.mark_lost(MuxLossReason::MalformedReport);
                self.decoder = decoder;
                self.previous_raw = None;
                snapshot.revision = snapshot.revision.saturating_add(1);
                snapshot.state = None;
                snapshot.stats.last_complete_at = None;
                snapshot.stats.decoder_status = self.decoder.status();
                snapshot.stats.mux_loss_events = snapshot.stats.mux_loss_events.saturating_add(1);
                snapshot.stats.malformed_reports = snapshot.stats.malformed_reports.saturating_add(1);
                snapshot.stats.last_error = Some(error.message());
                return 1;
            },
        };
        self.previous_raw = Some(raw);
        let was_lost = self.decoder.status().mux_state == Some(MuxState::Lost);
        let mut decoder = self.take_decoder();
        let decoded = decoder.decode(raw);
        self.decoder = decoder;
        let decoder_status = self.decoder.status();
        let is_lost = decoder_status.mux_state == Some(MuxState::Lost);
        let became_lost = !was_lost && is_lost;
        if became_lost {
            self.previous_raw = None;
        }
        snapshot.revision = snapshot.revision.saturating_add(1);
        snapshot.latest_raw = Some(raw);
        snapshot.stats.last_raw_at = Some(raw.received_at());
        snapshot.stats.decoder_status = decoder_status;
        if became_lost {
            snapshot.state = None;
            snapshot.stats.last_complete_at = None;
            snapshot.stats.mux_loss_events = snapshot.stats.mux_loss_events.saturating_add(1);
        }
        match decoded {
            Ok(Some(state)) => {
                if !is_lost {
                    snapshot.state = Some(state);
                    snapshot.stats.decoded_states = snapshot.stats.decoded_states.saturating_add(1);
                    snapshot.stats.last_complete_at = Some(raw.received_at());
                }
            },
            Ok(None) => {},
            Err(error) => {
                snapshot.stats.last_error = Some(error.message());
            },
        }
        1
    }

    /// A failed read: the mux is lost, the published state withdrawn, and
    /// the decoder reset for the reconnection that follows.
    pub fn handle_read_error(&mut self, snapshot: &mut ReaderSnapshot, message: String) -> (publications: u8)
        ensures
            reader_step_keeps(
                (old(self).decoder_model(), *old(snapshot)),
                (final(self).decoder_model(), *final(snapshot)),
            ),
            publications == 1,
            final(self).sequence_spec() == old(self).sequence_spec(),
            final(self).confidence_spec() == old(self).confidence_spec(),
            final(self).decoder_model() == decoder_reset(decoder_lost(old(self).decoder_model(), MuxLossReason::ReadError)),
            final(self).previous_raw_spec() is None,
            status_matches(decoder_lost(old(self).decoder_model(), MuxLossReason::ReadError), final(snapshot).stats.decoder_status),
            final(snapshot).revision == saturating_inc(old(snapshot).revision),
            final(snapshot).state is None,
            final(snapshot).latest_raw is None,
            final(snapshot).stats == (ReaderStats {
                last_complete_at: None,
                read_errors: saturating_inc(old(snapshot).stats.read_errors),
                mux_loss_events: saturating_inc(old(snapshot).stats.mux_loss_events),
                decoder_status: final(snapshot).stats.decoder_status,
                last_error: Some(message),
                ..old(snapshot).stats
            }),
    {
        proof { use_type_invariant(&*self); }
        let mut decoder = self.take_decoder();
        decoder.mark_lost(MuxLossReason::ReadError);
        snapshot.revision = snapshot.revision.saturating_add(1);
        snapshot.state = None;
        snapshot.latest_raw = None;
        snapshot.stats.last_complete_at = None;
        snapshot.stats.read_errors = snapshot.stats.read_errors.saturating_add(1);
        snapshot.stats.mux_loss_events = snapshot.stats.mux_loss_events.saturating_add(1);
        snapshot.stats.decoder_status = decoder.status();
        snapshot.stats.last_error = Some(message);
        decoder.reset();
        self.decoder = decoder;
        self.previous_raw = None;
        1
    }

    /// The device was opened again.
    pub fn handle_reconnected(&self, snapshot: &mut ReaderSnapshot) -> (publications: u8)
        ensures
            reader_step_keeps((self.decoder_model(), *old(snapshot)), (self.decoder_model(), *final(snapshot))),
            publications == 1,
            *final(snapshot) == (ReaderSnapshot {
                revision: saturating_inc(old(snapshot).revision),
                stats: ReaderStats { reconnects: saturating_inc(old(snapshot).stats.reconnects), ..old(snapshot).stats },
                ..*old(snapshot)
            }),
    {
        snapshot.revision = snapshot.revision.saturating_add(1);
        snapshot.stats.reconnects = snapshot.stats.reconnects.saturating_add(1);
        1
    }

    /// A reconnection attempt failed.
    pub fn handle_reconnect_failed(&self, snapshot: &mut ReaderSnapshot, message: String) -> (publications: u8)
        ensures
            reader_step_keeps((self.decoder_model(), *old(snapshot)), (self.decoder_model(), *final(snapshot))),
            publications == 1,
            *final(snapshot) == (ReaderSnapshot {
                stats: ReaderStats { last_error: Some(message), ..old(snapshot).stats },
                ..*old(snapshot)
            }),
    {
        snapshot.stats.last_error = Some(message);
        1
    }

    /// After a reconnection: the decoder starts over, and a raw-muxed
    /// decoder starts calibrating again.
    pub fn resume(&mut self, snapshot: &mut ReaderSnapshot) -> (publications: u8)
        ensures
            reader_step_keeps(
                (old(self).decoder_model(), *old(snapshot)),
                (final(self).decoder_model(), *final(snapshot)),
            ),
            publications == 1,
            final(self).sequence_spec() == old(self).sequence_spec(),
            final(self).confidence_spec() == old(self).confidence_spec(),
            final(self).previous_raw_spec() is None,
            final(self).decoder_model() == if old(self).decoder_model().format == ReportFormat::RawMuxed8 {
                decoder_started(decoder_reset(old(self).decoder_model())).0
            } else {
                decoder_reset(old(self).decoder_model())
            },
            status_matches(final(self).decoder_model(), final(snapshot).stats.decoder_status),
            final(snapshot).revision == saturating_inc(old(snapshot).revision),
            final(snapshot).state is None,
            final(snapshot).latest_raw == old(snapshot).latest_raw,
            final(snapshot).stats == (ReaderStats {
                last_complete_at: None,
                decoder_status: final(snapshot).stats.decoder_status,
                ..old(snapshot).stats
            }),
    {
        proof { use_type_invariant(&*self); }
        let mut decoder = self.take_decoder();
        decoder.reset();
        if self.format == ReportFormat::RawMuxed8 {
            let _ = decoder.start_mux_calibration();
        }
        self.decoder = decoder;
        self.previous_raw = None;
        snapshot.revision = snapshot.revision.saturating_add(1);
        snapshot.state = None;
        snapshot.stats.last_complete_at = None;
        snapshot.stats.decoder_status = self.decoder.status();
        1
    }

    /// The reader is stopping: nothing is published as current any more.
    pub fn finish(&self, snapshot: &mut ReaderSnapshot) -> (publications: u8)
        ensures
            reader_step_keeps((self.decoder_model(), *old(snapshot)), (self.decoder_model(), *final(snapshot))),
            publications == 1,
            final(snapshot).revision == old(snapshot).revision,
            final(snapshot).state is None,
            final(snapshot).latest_raw is None,
            status_matches(self.decoder_model(), final(snapshot).stats.decoder_status),
            final(snapshot).stats == (ReaderStats {
                decoder_status: final(snapshot).stats.decoder_status,
                format_confidence: self.confidence_spec(),
                ..old(snapshot).stats
            }),
    {
        snapshot.state = None;
        snapshot.latest_raw = None;
        snapshot.stats.decoder_status = self.decoder.status();
        snapshot.stats.format_confidence = self.confidence;
        1
    }
}

} // verus!

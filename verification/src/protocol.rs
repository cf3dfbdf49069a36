use vstd::prelude::*;
use vstd::string::*;

use crate::text::{decimal_chars, push_decimal, str_equal};
use crate::{CHANNEL_COUNT, REPORT_SIZE};

verus! {

/// A report whose length is not that of an adapter report.
#[derive(Clone, Copy, Debug, Eq, PartialEq, Structural)]
pub enum PacketError {
    UnexpectedLength { expected: usize, actual: usize },
}

/// The words for a report of `actual` bytes where `expected` were due.
pub open spec fn unexpected_length_text(expected: nat, actual: nat) -> Seq<char> {
    "expected an "@ + decimal_chars(expected) + "-byte report, received "@ + decimal_chars(actual)
        + " bytes"@
}

impl PacketError {
    /// The error in words.
    pub fn message(&self) -> (text: String)
        ensures
            match *self {
                PacketError::UnexpectedLength { expected, actual } => text@ == unexpected_length_text(
                    expected as nat,
                    actual as nat,
                ),
            },
    {
        match *self {
            PacketError::UnexpectedLength { expected, actual } => {
                let mut text = String::from_str("expected an ");
                push_decimal(&mut text, expected as u128);
                text.append("-byte report, received ");
                push_decimal(&mut text, actual as u128);
                text.append(" bytes");
                text
            },
        }
    }
}

/// How the eight bytes of a report are laid out.
#[derive(Clone, Copy, Debug, Eq, PartialEq, Structural)]
pub enum ReportFormat {
    /// No layout chosen yet: nothing is decoded.
    Auto,
    /// Six analogue bytes plus byte 7 alternating between inputs 7 and 8.
    RawMuxed8,
    /// Eight analogue inputs, the Linux `pxrc` driver layout.
    LinuxDemuxed8,
    /// Seven analogue inputs and a button in byte 1.
    Legacy7Button,
}

impl ReportFormat {
    pub fn label(self) -> (label: &'static str)
        ensures
            label@ == match self {
                ReportFormat::Auto => "auto"@,
                ReportFormat::RawMuxed8 => "raw-muxed8"@,
                ReportFormat::LinuxDemuxed8 => "linux-demuxed8"@,
                ReportFormat::Legacy7Button => "legacy7-button"@,
            },
    {
        match self {
            ReportFormat::Auto => "auto",
            ReportFormat::RawMuxed8 => "raw-muxed8",
            ReportFormat::LinuxDemuxed8 => "linux-demuxed8",
            ReportFormat::Legacy7Button => "legacy7-button",
        }
    }

    /// The format whose label is `value`.
    pub fn parse(value: &str) -> (result: Result<Self, ReportFormatParseError>)
        ensures
            match result {
                Ok(format) => format.label_spec() == value@,
                Err(e) => e.value@ == value@ && forall|f: ReportFormat| f.label_spec() != value@,
            },
    {
        if str_equal(value, "auto") {
            Ok(ReportFormat::Auto)
        } else if str_equal(value, "raw-muxed8") {
            Ok(ReportFormat::RawMuxed8)
        } else if str_equal(value, "linux-demuxed8") {
            Ok(ReportFormat::LinuxDemuxed8)
        } else if str_equal(value, "legacy7-button") {
            Ok(ReportFormat::Legacy7Button)
        } else {
            Err(ReportFormatParseError { value: value.to_owned() })
        }
    }

    pub open spec fn label_spec(self) -> Seq<char> {
        match self {
            ReportFormat::Auto => "auto"@,
            ReportFormat::RawMuxed8 => "raw-muxed8"@,
            ReportFormat::LinuxDemuxed8 => "linux-demuxed8"@,
            ReportFormat::Legacy7Button => "legacy7-button"@,
        }
    }
}

impl std::str::FromStr for ReportFormat {
    type Err = ReportFormatParseError;

    fn from_str(value: &str) -> (result: Result<Self, Self::Err>)
        ensures
            match result {
                Ok(format) => format.label_spec() == value@,
                Err(e) => e.value@ == value@ && forall|f: ReportFormat| f.label_spec() != value@,
            },
    {
        Self::parse(value)
    }
}

/// A format name that is none of the known labels.
#[derive(Debug, Eq, PartialEq)]
pub struct ReportFormatParseError {
    pub value: String,
}

/// Sum of `2^k` over the positions `k < n` where `current` and `previous` differ.
pub open spec fn changed_bits(current: Seq<u8>, previous: Seq<u8>, n: nat) -> nat
    decreases n,
{
    if n == 0 {
        0
    } else {
        changed_bits(current, previous, (n - 1) as nat) + if current[n - 1] != previous[n - 1] {
            vstd::arithmetic::power2::pow2((n - 1) as nat)
        } else {
            0
        }
    }
}

proof fn lemma_changed_bits_bound(current: Seq<u8>, previous: Seq<u8>, n: nat)
    ensures
        changed_bits(current, previous, n) < vstd::arithmetic::power2::pow2(n),
    decreases n,
{
    if n > 0 {
        vstd::arithmetic::power2::lemma_pow2_unfold(n);
        lemma_changed_bits_bound(current, previous, (n - 1) as nat);
    } else {
        vstd::arithmetic::power2::lemma2_to64();
    }
}

/// The change mask of `current` against `previous`: bit `k` for each of the
/// first `n` (at most eight) positions where they differ.
pub fn change_mask(current: &[u8], previous: &[u8], n: usize) -> (mask: u8)
    requires
        n <= 8,
        n <= current.len(),
        n <= previous.len(),
    ensures
        mask as nat == changed_bits(current@, previous@, n as nat),
{
    let mut mask: u8 = 0;
    let mut bit: u16 = 1;
    let mut i: usize = 0;
    proof { vstd::arithmetic::power2::lemma2_to64(); }
    while i < n
        invariant
            i <= n <= 8,
            n <= current.len(),
            n <= previous.len(),
            bit as nat == vstd::arithmetic::power2::pow2(i as nat),
            mask as nat == changed_bits(current@, previous@, i as nat),
        decreases n - i,
    {
        proof {
            vstd::arithmetic::power2::lemma2_to64();
            lemma_changed_bits_bound(current@, previous@, (i + 1) as nat);
            vstd::arithmetic::power2::lemma_pow2_unfold((i + 1) as nat);
        }
        if current[i] != previous[i] {
            mask = (mask as u16 + bit) as u8;
        }
        bit = bit * 2;
        i += 1;
    }
    mask
}

/// `report` holds `bytes` as report `sequence`, received at `received_at`,
/// with the time since `previous` and the bytes changed since it (all of them
/// when there is none).
pub open spec fn report_built(
    report: RawReport,
    bytes: Seq<u8>,
    sequence: u64,
    received_at: u64,
    previous: Option<RawReport>,
) -> bool {
    &&& report.bytes_spec() == bytes
    &&& report.sequence_spec() == sequence
    &&& report.received_at_spec() == received_at
    &&& report.interval_spec() == match previous {
        None => None,
        Some(p) => Some(
            if received_at >= p.received_at_spec() {
                (received_at - p.received_at_spec()) as u64
            } else {
                0
            },
        ),
    }
    &&& report.changed_mask_spec() as nat == match previous {
        None => 255,
        Some(p) => changed_bits(bytes, p.bytes_spec(), 8),
    }
}

/// One adapter report with its arrival time (nanoseconds on a monotonic clock).
#[derive(Clone, Copy, Debug, Eq, PartialEq)]
pub struct RawReport {
    bytes: [u8; REPORT_SIZE],
    sequence: u64,
    received_at: u64,
    interval: Option<u64>,
    changed_mask: u8,
}

impl RawReport {
    pub closed spec fn bytes_spec(&self) -> Seq<u8> {
        self.bytes@
    }

    pub closed spec fn sequence_spec(&self) -> u64 {
        self.sequence
    }

    pub closed spec fn received_at_spec(&self) -> u64 {
        self.received_at
    }

    pub closed spec fn interval_spec(&self) -> Option<u64> {
        self.interval
    }

    pub closed spec fn changed_mask_spec(&self) -> u8 {
        self.changed_mask
    }

    pub proof fn lemma_report_size(&self)
        ensures
            self.bytes_spec().len() == REPORT_SIZE,
    {
    }

    /// Checks that `bytes` is one report and records how it differs from the
    /// previous one: the time since it, and which bytes changed (all of them
    /// when there is no previous report).
    pub fn try_new(bytes: &[u8], sequence: u64, received_at: u64, previous: Option<&Self>) -> (result:
        Result<Self, PacketError>)
        ensures
            bytes@.len() != REPORT_SIZE ==> result == Err::<Self, PacketError>(
                PacketError::UnexpectedLength { expected: REPORT_SIZE, actual: bytes.len() },
            ),
            bytes@.len() == REPORT_SIZE ==> (result matches Ok(report) && report_built(
                report,
                bytes@,
                sequence,
                received_at,
                match previous {
                    None => None,
                    Some(p) => Some(*p),
                },
            )),
    {
        if bytes.len() != REPORT_SIZE {
            return Err(PacketError::UnexpectedLength { expected: REPORT_SIZE, actual: bytes.len() });
        }
        let array: [u8; REPORT_SIZE] = [
            bytes[0],
            bytes[1],
            bytes[2],
            bytes[3],
            bytes[4],
            bytes[5],
            bytes[6],
            bytes[7],
        ];
        assert(array@ =~= bytes@);
        let (changed_mask, interval) = match previous {
            None => (u8::MAX, None),
            Some(p) => (
                change_mask(bytes, p.bytes.as_slice(), REPORT_SIZE),
                Some(received_at.saturating_sub(p.received_at)),
            ),
        };
        Ok(RawReport { bytes: array, sequence, received_at, interval, changed_mask })
    }

    pub fn bytes(&self) -> (bytes: &[u8; REPORT_SIZE])
        ensures
            bytes@ == self.bytes_spec(),
    {
        &self.bytes
    }

    pub fn sequence(&self) -> (sequence: u64)
        ensures
            sequence == self.sequence_spec(),
    {
        self.sequence
    }

    /// Arrival time in nanoseconds.
    pub fn received_at(&self) -> (at: u64)
        ensures
            at == self.received_at_spec(),
    {
        self.received_at
    }

    /// Nanoseconds since the previous report, if there was one.
    pub fn interval(&self) -> (interval: Option<u64>)
        ensures
            interval == self.interval_spec(),
    {
        self.interval
    }

    pub fn changed_mask(&self) -> (mask: u8)
        ensures
            mask == self.changed_mask_spec(),
    {
        self.changed_mask
    }
}

/// Phase of the raw-mux calibration and tracking.
#[derive(Clone, Copy, Debug, Eq, PartialEq, Structural)]
pub enum MuxState {
    Uncalibrated,
    CalibratingFirst,
    CalibratingSecond,
    Calibrated,
    Lost,
}

impl MuxState {
    pub fn label(self) -> (label: &'static str)
        ensures
            label@ == match self {
                MuxState::Uncalibrated => "uncalibrated"@,
                MuxState::CalibratingFirst => "calibrating input 7"@,
                MuxState::CalibratingSecond => "calibrating input 8"@,
                MuxState::Calibrated => "calibrated"@,
                MuxState::Lost => "lost"@,
            },
    {
        match self {
            MuxState::Uncalibrated => "uncalibrated",
            MuxState::CalibratingFirst => "calibrating input 7",
            MuxState::CalibratingSecond => "calibrating input 8",
            MuxState::Calibrated => "calibrated",
            MuxState::Lost => "lost",
        }
    }
}

/// Why a raw-mux calibration step was refused.
#[derive(Clone, Copy, Debug, Eq, PartialEq, Structural)]
pub enum MuxCalibrationError {
    UnsupportedFormat,
    AlreadyInProgress,
    NotInProgress,
    InsufficientMovement,
    BothPhasesMoved,
    WrongPhaseMoved,
    WindowExpired,
}

/// The words for a calibration error.
pub open spec fn calibration_error_text(e: MuxCalibrationError) -> Seq<char> {
    match e {
        MuxCalibrationError::UnsupportedFormat => "mux calibration is only available for raw-muxed8 reports"@,
        MuxCalibrationError::AlreadyInProgress => "mux calibration is already in progress"@,
        MuxCalibrationError::NotInProgress => "mux calibration is not in progress"@,
        MuxCalibrationError::InsufficientMovement => "move the requested control through a larger range before confirming calibration"@,
        MuxCalibrationError::BothPhasesMoved => "both mux phases changed; move only the requested control during calibration"@,
        MuxCalibrationError::WrongPhaseMoved => "the second calibration control did not use the opposite mux phase"@,
        MuxCalibrationError::WindowExpired => "mux calibration window expired; restart calibration"@,
    }
}

impl MuxCalibrationError {
    pub fn message(self) -> (text: &'static str)
        ensures
            text@ == calibration_error_text(self),
    {
        match self {
            MuxCalibrationError::UnsupportedFormat => "mux calibration is only available for raw-muxed8 reports",
            MuxCalibrationError::AlreadyInProgress => "mux calibration is already in progress",
            MuxCalibrationError::NotInProgress => "mux calibration is not in progress",
            MuxCalibrationError::InsufficientMovement => "move the requested control through a larger range before confirming calibration",
            MuxCalibrationError::BothPhasesMoved => "both mux phases changed; move only the requested control during calibration",
            MuxCalibrationError::WrongPhaseMoved => "the second calibration control did not use the opposite mux phase",
            MuxCalibrationError::WindowExpired => "mux calibration window expired; restart calibration",
        }
    }
}

/// Why raw-mux tracking was lost.
#[derive(Clone, Copy, Debug, Eq, PartialEq, Structural)]
pub enum MuxLossReason {
    CadenceGap,
    MalformedReport,
    ReadError,
    Reconnected,
}

impl MuxLossReason {
    pub fn message(self) -> (text: &'static str)
        ensures
            text@ == match self {
                MuxLossReason::CadenceGap => "report cadence gap detected"@,
                MuxLossReason::MalformedReport => "malformed report"@,
                MuxLossReason::ReadError => "HID read failed"@,
                MuxLossReason::Reconnected => "device reconnected"@,
            },
    {
        match self {
            MuxLossReason::CadenceGap => "report cadence gap detected",
            MuxLossReason::MalformedReport => "malformed report",
            MuxLossReason::ReadError => "HID read failed",
            MuxLossReason::Reconnected => "device reconnected",
        }
    }
}

/// A decoded controller state seen as plain values.
pub struct DecodedView {
    pub channels: Seq<Option<u8>>,
    pub legacy_button: Option<bool>,
    pub raw: RawReport,
    pub format: ReportFormat,
}

/// The inputs decoded from one report (or, for raw-muxed reports, two).
#[derive(Clone, Copy, Debug, Eq, PartialEq)]
pub struct DecodedState {
    channels: [Option<u8>; CHANNEL_COUNT],
    legacy_button: Option<bool>,
    raw: RawReport,
    format: ReportFormat,
}

impl View for DecodedState {
    type V = DecodedView;

    closed spec fn view(&self) -> DecodedView {
        DecodedView {
            channels: self.channels@,
            legacy_button: self.legacy_button,
            raw: self.raw,
            format: self.format,
        }
    }
}

impl DecodedState {
    pub proof fn lemma_channel_count(&self)
        ensures
            self@.channels.len() == CHANNEL_COUNT,
    {
    }

    pub fn channels(&self) -> (channels: &[Option<u8>; CHANNEL_COUNT])
        ensures
            channels@ == self@.channels,
    {
        &self.channels
    }

    /// Input `index` (zero-based), or `None` past the last input.
    pub fn channel(&self, index: usize) -> (value: Option<u8>)
        ensures
            value == if index < CHANNEL_COUNT {
                self@.channels[index as int]
            } else {
                None
            },
    {
        if index < CHANNEL_COUNT {
            self.channels[index]
        } else {
            None
        }
    }

    pub fn legacy_button(&self) -> (button: Option<bool>)
        ensures
            button == self@.legacy_button,
    {
        self.legacy_button
    }

    pub fn raw(&self) -> (raw: &RawReport)
        ensures
            *raw == self@.raw,
    {
        &self.raw
    }

    pub fn format(&self) -> (format: ReportFormat)
        ensures
            format == self@.format,
    {
        self.format
    }
}

/// What a decoder reports about itself.
#[derive(Clone, Copy, Debug, Eq, PartialEq)]
pub struct DecoderStatus {
    pub selected_format: Option<ReportFormat>,
    pub mux_state: Option<MuxState>,
    pub mux_seen: [bool; 2],
    pub current_phase: Option<usize>,
    pub calibration_samples: usize,
    pub calibration_target: usize,
    pub calibration_error: Option<MuxCalibrationError>,
    pub loss_reason: Option<MuxLossReason>,
}

const CALIBRATION_MIN_REPORTS: usize = 8;
const CALIBRATION_MAX_REPORTS: usize = 64;
const CALIBRATION_MOVEMENT_DELTA: u8 = 16;
const CADENCE_HISTORY: usize = 16;

/// Lowest and highest byte-7 value seen in each mux phase during calibration.
pub struct CalibrationModel {
    pub minimum: Seq<u8>,
    pub maximum: Seq<u8>,
    pub samples: usize,
}

pub open spec fn calibration_empty() -> CalibrationModel {
    CalibrationModel { minimum: seq![255u8, 255u8], maximum: seq![0u8, 0u8], samples: 0 }
}

pub open spec fn calibration_observed(c: CalibrationModel, phase: int, value: u8) -> CalibrationModel {
    CalibrationModel {
        minimum: c.minimum.update(phase, if value < c.minimum[phase] { value } else { c.minimum[phase] }),
        maximum: c.maximum.update(phase, if value > c.maximum[phase] { value } else { c.maximum[phase] }),
        samples: if c.samples == usize::MAX { c.samples } else { (c.samples + 1) as usize },
    }
}

/// Whether byte 7 moved by at least the calibration delta in `phase`.
pub open spec fn calibration_moved(c: CalibrationModel, phase: int) -> bool {
    c.maximum[phase] >= c.minimum[phase] && c.maximum[phase] - c.minimum[phase] >= 16
}

#[derive(Clone, Copy)]
struct CalibrationObservation {
    minimum: [u8; 2],
    maximum: [u8; 2],
    samples: usize,
}

impl CalibrationObservation {
    closed spec fn model(&self) -> CalibrationModel {
        CalibrationModel { minimum: self.minimum@, maximum: self.maximum@, samples: self.samples }
    }

    fn new() -> (c: Self)
        ensures
            c.model() == calibration_empty(),
    {
        let c = CalibrationObservation { minimum: [u8::MAX, u8::MAX], maximum: [u8::MIN, u8::MIN], samples: 0 };
        assert(c.model().minimum =~= seq![255u8, 255u8]);
        assert(c.model().maximum =~= seq![0u8, 0u8]);
        c
    }

    fn observe(&mut self, phase: usize, value: u8)
        requires
            phase < 2,
        ensures
            final(self).model() == calibration_observed(old(self).model(), phase as int, value),
    {
        let low = if value < self.minimum[phase] { value } else { self.minimum[phase] };
        let high = if value > self.maximum[phase] { value } else { self.maximum[phase] };
        self.minimum = if phase == 0 { [low, self.minimum[1]] } else { [self.minimum[0], low] };
        self.maximum = if phase == 0 { [high, self.maximum[1]] } else { [self.maximum[0], high] };
        self.samples = self.samples.saturating_add(1);
        assert(self.model().minimum =~= old(self).model().minimum.update(phase as int, low));
        assert(self.model().maximum =~= old(self).model().maximum.update(phase as int, high));
    }

    fn changed_phases(&self) -> (changed: [bool; 2])
        ensures
            changed@[0] == calibration_moved(self.model(), 0),
            changed@[1] == calibration_moved(self.model(), 1),
    {
        [
            self.maximum[0].saturating_sub(self.minimum[0]) >= CALIBRATION_MOVEMENT_DELTA,
            self.maximum[1].saturating_sub(self.minimum[1]) >= CALIBRATION_MOVEMENT_DELTA,
        ]
    }

    fn reset(&mut self)
        ensures
            final(self).model() == calibration_empty(),
    {
        *self = Self::new();
    }
}

/// The order used for report intervals.
pub open spec fn interval_le(a: u64, b: u64) -> bool {
    a <= b
}

/// Median of the recent intervals: the middle element once sorted.
pub open spec fn median_interval(history: Seq<u64>) -> u64 {
    history.sort_by(|a: u64, b: u64| interval_le(a, b))[(history.len() / 2) as int]
}

/// How the cadence history takes one interval: `true` when it is a gap of
/// at least twice the median of four or more earlier intervals (the history
/// is then left as it was); otherwise a nonzero interval joins the history,
/// which keeps the latest sixteen.
pub open spec fn cadence_observed(history: Seq<u64>, interval: Option<u64>) -> (Seq<u64>, bool) {
    match interval {
        None => (history, false),
        Some(d) => if d == 0 {
            (history, false)
        } else if history.len() >= 4 && d >= 2 * median_interval(history) {
            (history, true)
        } else if history.len() + 1 > 16 {
            (history.push(d).drop_first(), false)
        } else {
            (history.push(d), false)
        },
    }
}

struct CadenceTracker {
    history: Vec<u64>,
}

proof fn lemma_interval_order()
    ensures
        vstd::relations::total_ordering(|a: u64, b: u64| interval_le(a, b)),
{
}

pub open spec fn ascending(s: Seq<u64>) -> bool {
    forall|i: int, j: int| 0 <= i < j < s.len() ==> s[i] <= s[j]
}

proof fn lemma_ascending_sorted_by(s: Seq<u64>)
    requires
        ascending(s),
    ensures
        vstd::relations::sorted_by(s, |a: u64, b: u64| interval_le(a, b)),
{
    assert forall|i: int, j: int| 0 <= i < j < s.len() implies (|a: u64, b: u64| interval_le(a, b))(
        s[i],
        s[j],
    ) by {
        assert(s[i] <= s[j]);
    }
}

/// Inserts `x` into the ascending `sorted` at its place.
fn insert_sorted(sorted: &mut Vec<u64>, x: u64)
    requires
        ascending(old(sorted)@),
    ensures
        ascending(final(sorted)@),
        final(sorted)@.to_multiset() == old(sorted)@.to_multiset().insert(x),
        final(sorted)@.len() == old(sorted)@.len() + 1,
{
    let mut p: usize = 0;
    while p < sorted.len() && sorted[p] <= x
        invariant
            p <= sorted.len(),
            sorted@ == old(sorted)@,
            forall|k: int| 0 <= k < p ==> sorted@[k] <= x,
        decreases sorted.len() - p,
    {
        p += 1;
    }
    let ghost before = sorted@;
    sorted.insert(p, x);
    proof {
        broadcast use vstd::seq_lib::group_to_multiset_ensures;
        assert(sorted@.remove(p as int) =~= before);
        assert(sorted@[p as int] == x);
        assert(sorted@.to_multiset().remove(x) == before.to_multiset());
        assert(sorted@.to_multiset().contains(x));
        assert(sorted@.to_multiset() =~= before.to_multiset().insert(x));
        assert forall|i: int, j: int| 0 <= i < j < sorted@.len() implies sorted@[i] <= sorted@[j] by {
            if j < p {
                assert(before[i] <= before[j]);
            } else if j == p {
                assert(sorted@[i] == before[i]);
            } else if i == p {
                if p < before.len() {
                    assert(!(before[p as int] <= x));
                    if j - 1 > p {
                        assert(before[p as int] <= before[j - 1]);
                    }
                }
            } else if i < p {
                assert(sorted@[j] == before[j - 1]);
                if i < j - 1 {
                    assert(before[i] <= before[j - 1]);
                }
            } else {
                assert(before[i - 1] <= before[j - 1]);
            }
        }
    }
}

impl CadenceTracker {
    fn new() -> (t: Self)
        ensures
            t.history@ == Seq::<u64>::empty(),
    {
        CadenceTracker { history: Vec::new() }
    }

    /// Median of the history once it holds four or more intervals.
    fn median(&self) -> (median: Option<u64>)
        ensures
            self.history@.len() < 4 ==> median is None,
            self.history@.len() >= 4 ==> median == Some(median_interval(self.history@)),
    {
        if self.history.len() < 4 {
            return None;
        }
        let mut sorted: Vec<u64> = Vec::new();
        let mut i: usize = 0;
        assert(self.history@.take(0) =~= sorted@);
        while i < self.history.len()
            invariant
                i <= self.history@.len(),
                sorted@.len() == i,
                ascending(sorted@),
                sorted@.to_multiset() == self.history@.take(i as int).to_multiset(),
            decreases self.history.len() - i,
        {
            insert_sorted(&mut sorted, self.history[i]);
            proof {
                broadcast use vstd::seq_lib::group_to_multiset_ensures;
                assert(self.history@.take(i + 1) =~= self.history@.take(i as int).push(self.history@[i as int]));
            }
            i += 1;
        }
        proof {
            broadcast use vstd::seq_lib::group_to_multiset_ensures;
            assert(self.history@.take(self.history.len() as int) =~= self.history@);
            lemma_interval_order();
            lemma_ascending_sorted_by(sorted@);
            self.history@.lemma_sort_by_ensures(|a: u64, b: u64| interval_le(a, b));
            vstd::seq_lib::lemma_sorted_unique(
                sorted@,
                self.history@.sort_by(|a: u64, b: u64| interval_le(a, b)),
                |a: u64, b: u64| interval_le(a, b),
            );
            assert(sorted@.len() == self.history@.len());
        }
        Some(sorted[sorted.len() / 2])
    }

    fn observe(&mut self, interval: Option<u64>) -> (gap: bool)
        requires
            old(self).history@.len() <= CADENCE_HISTORY,
        ensures
            (final(self).history@, gap) == cadence_observed(old(self).history@, interval),
            final(self).history@.len() <= CADENCE_HISTORY,
    {
        let d = match interval {
            None => return false,
            Some(d) => d,
        };
        if d == 0 {
            return false;
        }
        if let Some(median) = self.median() {
            if d as u128 >= 2 * (median as u128) {
                return true;
            }
        }
        self.history.push(d);
        if self.history.len() > CADENCE_HISTORY {
            self.history.remove(0);
            assert(self.history@ =~= old(self).history@.push(d).drop_first());
        }
        false
    }

    fn reset(&mut self)
        ensures
            final(self).history@ == Seq::<u64>::empty(),
    {
        self.history.clear();
    }
}

/// The raw-mux tracker seen as plain values.
pub struct TrackerModel {
    pub swap_mux_channels: bool,
    pub state: MuxState,
    /// Latest byte-7 value of each phase since calibration.
    pub mux_values: Seq<Option<u8>>,
    /// The phase that carries input 7, once calibration found it.
    pub input_seven_phase: Option<usize>,
    pub next_phase: usize,
    pub last_phase: Option<usize>,
    pub calibration: CalibrationModel,
    pub calibration_error: Option<MuxCalibrationError>,
    pub loss_reason: Option<MuxLossReason>,
    /// Recent report intervals, oldest first.
    pub cadence: Seq<u64>,
}

/// A decoder seen as plain values.
pub struct DecoderModel {
    pub format: ReportFormat,
    pub mux: TrackerModel,
}

pub open spec fn tracker_wf(t: TrackerModel) -> bool {
    &&& t.mux_values.len() == 2
    &&& t.calibration.minimum.len() == 2
    &&& t.calibration.maximum.len() == 2
    &&& t.next_phase < 2
    &&& (t.input_seven_phase matches Some(p) ==> p < 2)
    &&& (t.last_phase matches Some(p) ==> p < 2)
    &&& t.cadence.len() <= 16
    &&& t.calibration.samples <= 64
    &&& (t.calibration.samples > 0 ==> is_calibrating(t.state))
    &&& (t.mux_values[0] is Some || t.mux_values[1] is Some ==> t.state == MuxState::Calibrated)
}

pub open spec fn no_mux_values() -> Seq<Option<u8>> {
    seq![None::<u8>, None::<u8>]
}

pub open spec fn tracker_new(swap_mux_channels: bool) -> TrackerModel {
    TrackerModel {
        swap_mux_channels,
        state: MuxState::Uncalibrated,
        mux_values: no_mux_values(),
        input_seven_phase: None,
        next_phase: 0,
        last_phase: None,
        calibration: calibration_empty(),
        calibration_error: None,
        loss_reason: None,
        cadence: Seq::empty(),
    }
}

/// Tracking lost: everything learnt is forgotten, except the next phase.
pub open spec fn tracker_lost(t: TrackerModel, reason: MuxLossReason) -> TrackerModel {
    TrackerModel {
        state: MuxState::Lost,
        mux_values: no_mux_values(),
        input_seven_phase: None,
        last_phase: None,
        calibration: calibration_empty(),
        calibration_error: None,
        loss_reason: Some(reason),
        cadence: Seq::empty(),
        ..t
    }
}

pub open spec fn tracker_reset(t: TrackerModel) -> TrackerModel {
    TrackerModel {
        state: MuxState::Uncalibrated,
        next_phase: 0,
        loss_reason: None,
        ..tracker_lost(t, MuxLossReason::Reconnected)
    }
}

pub open spec fn is_calibrating(state: MuxState) -> bool {
    state == MuxState::CalibratingFirst || state == MuxState::CalibratingSecond
}

pub open spec fn tracker_started(t: TrackerModel) -> (TrackerModel, Result<(), MuxCalibrationError>) {
    if is_calibrating(t.state) {
        (t, Err(MuxCalibrationError::AlreadyInProgress))
    } else {
        (TrackerModel { state: MuxState::CalibratingFirst, ..tracker_reset(t) }, Ok(()))
    }
}

pub open spec fn tracker_failed(t: TrackerModel, e: MuxCalibrationError) -> (TrackerModel, Result<(), MuxCalibrationError>) {
    (
        TrackerModel {
            state: MuxState::Uncalibrated,
            calibration_error: Some(e),
            calibration: calibration_empty(),
            ..t
        },
        Err(e),
    )
}

/// Confirms the control moved during the current calibration step: the
/// first step learns which phase carries input 7, the second checks that
/// input 8 moved in the other phase. Outside calibration the confirmation is
/// refused and the tracker left as it was.
pub open spec fn tracker_confirmed(t: TrackerModel) -> (TrackerModel, Result<(), MuxCalibrationError>) {
    let c = t.calibration;
    if !is_calibrating(t.state) {
        (t, Err(MuxCalibrationError::NotInProgress))
    } else if c.samples < 8 {
        tracker_failed(t, MuxCalibrationError::InsufficientMovement)
    } else if calibration_moved(c, 0) && calibration_moved(c, 1) {
        tracker_failed(t, MuxCalibrationError::BothPhasesMoved)
    } else if !calibration_moved(c, 0) && !calibration_moved(c, 1) {
        tracker_failed(t, MuxCalibrationError::InsufficientMovement)
    } else {
        let phase: usize = if calibration_moved(c, 0) { 0 } else { 1 };
        if t.state == MuxState::CalibratingFirst {
            (
                TrackerModel {
                    input_seven_phase: Some(phase),
                    state: MuxState::CalibratingSecond,
                    calibration: calibration_empty(),
                    calibration_error: None,
                    ..t
                },
                Ok(()),
            )
        } else if t.state == MuxState::CalibratingSecond {
            if t.input_seven_phase == Some(phase) {
                tracker_failed(t, MuxCalibrationError::WrongPhaseMoved)
            } else {
                (
                    TrackerModel {
                        state: MuxState::Calibrated,
                        calibration: calibration_empty(),
                        calibration_error: None,
                        loss_reason: None,
                        ..t
                    },
                    Ok(()),
                )
            }
        } else {
            (t, Err(MuxCalibrationError::NotInProgress))
        }
    }
}

/// Inputs 1-6 from their fixed bytes.
pub open spec fn analogue_channels(b: Seq<u8>) -> Seq<Option<u8>> {
    seq![Some(b[0]), Some(b[2]), Some(b[3]), Some(b[4]), Some(b[5]), Some(b[6])]
}

pub open spec fn linux_view(raw: RawReport) -> DecodedView {
    let b = raw.bytes_spec();
    DecodedView {
        channels: analogue_channels(b) + seq![Some(b[1]), Some(b[7])],
        legacy_button: None,
        raw,
        format: ReportFormat::LinuxDemuxed8,
    }
}

pub open spec fn legacy_view(raw: RawReport) -> DecodedView {
    let b = raw.bytes_spec();
    DecodedView {
        channels: analogue_channels(b) + seq![Some(b[7]), None],
        legacy_button: Some(b[1] != 0),
        raw,
        format: ReportFormat::Legacy7Button,
    }
}

/// Inputs 7 and 8 come from the two mux phases: input 7 from the calibrated
/// phase, input 8 from the other, the two exchanged when `swap` is set.
pub open spec fn muxed_view(raw: RawReport, values: Seq<u8>, seven: int, swap: bool) -> DecodedView {
    let eight = 1 - seven;
    DecodedView {
        channels: analogue_channels(raw.bytes_spec()) + if swap {
            seq![Some(values[eight]), Some(values[seven])]
        } else {
            seq![Some(values[seven]), Some(values[eight])]
        },
        legacy_button: None,
        raw,
        format: ReportFormat::RawMuxed8,
    }
}

/// One report through the raw-mux tracker.
pub open spec fn tracker_decoded(t: TrackerModel, raw: RawReport) -> (TrackerModel, Option<DecodedView>) {
    if t.state == MuxState::Lost {
        (t, None)
    } else {
        let (history, gap) = cadence_observed(t.cadence, raw.interval_spec());
        if gap {
            (tracker_lost(t, MuxLossReason::CadenceGap), None)
        } else {
            let phase = t.next_phase;
            let value = raw.bytes_spec()[7];
            let t1 = TrackerModel {
                cadence: history,
                next_phase: (1 - phase) as usize,
                last_phase: Some(phase),
                ..t
            };
            if is_calibrating(t.state) {
                let c = calibration_observed(t.calibration, phase as int, value);
                if c.samples > 64 {
                    (
                        TrackerModel {
                            state: MuxState::Uncalibrated,
                            calibration_error: Some(MuxCalibrationError::WindowExpired),
                            calibration: calibration_empty(),
                            ..t1
                        },
                        None,
                    )
                } else {
                    (TrackerModel { calibration: c, ..t1 }, None)
                }
            } else if t.state != MuxState::Calibrated {
                (t1, None)
            } else {
                let values = t.mux_values.update(phase as int, Some(value));
                let t2 = TrackerModel { mux_values: values, ..t1 };
                if values[0] is Some && values[1] is Some && t.input_seven_phase is Some {
                    (
                        t2,
                        Some(
                            muxed_view(
                                raw,
                                seq![values[0]->0, values[1]->0],
                                t.input_seven_phase->0 as int,
                                t.swap_mux_channels,
                            ),
                        ),
                    )
                } else {
                    (t2, None)
                }
            }
        }
    }
}

pub open spec fn decoded_view_opt(state: Option<DecodedState>) -> Option<DecodedView> {
    match state {
        Some(s) => Some(s@),
        None => None,
    }
}

struct MuxPhaseTracker {
    swap_mux_channels: bool,
    state: MuxState,
    mux_values: [Option<u8>; 2],
    input_seven_phase: Option<usize>,
    next_phase: usize,
    last_phase: Option<usize>,
    calibration: CalibrationObservation,
    calibration_error: Option<MuxCalibrationError>,
    loss_reason: Option<MuxLossReason>,
    cadence: CadenceTracker,
}

impl MuxPhaseTracker {
    closed spec fn model(&self) -> TrackerModel {
        TrackerModel {
            swap_mux_channels: self.swap_mux_channels,
            state: self.state,
            mux_values: self.mux_values@,
            input_seven_phase: self.input_seven_phase,
            next_phase: self.next_phase,
            last_phase: self.last_phase,
            calibration: self.calibration.model(),
            calibration_error: self.calibration_error,
            loss_reason: self.loss_reason,
            cadence: self.cadence.history@,
        }
    }

    fn new(swap_mux_channels: bool) -> (t: Self)
        ensures
            t.model() == tracker_new(swap_mux_channels),
    {
        let t = MuxPhaseTracker {
            swap_mux_channels,
            state: MuxState::Uncalibrated,
            mux_values: [None, None],
            input_seven_phase: None,
            next_phase: 0,
            last_phase: None,
            calibration: CalibrationObservation::new(),
            calibration_error: None,
            loss_reason: None,
            cadence: CadenceTracker::new(),
        };
        assert(t.model().mux_values =~= no_mux_values());
        t
    }

    fn decode(&mut self, raw: RawReport) -> (out: Option<DecodedState>)
        requires
            tracker_wf(old(self).model()),
        ensures
            tracker_wf(final(self).model()),
            (final(self).model(), decoded_view_opt(out)) == tracker_decoded(old(self).model(), raw),
    {
        if self.state == MuxState::Lost {
            return None;
        }
        if self.cadence.observe(raw.interval()) {
            self.mark_lost(MuxLossReason::CadenceGap);
            return None;
        }
        let phase = self.next_phase;
        self.next_phase = 1 - phase;
        self.last_phase = Some(phase);
        let value = raw.bytes()[7];
        if self.state == MuxState::CalibratingFirst || self.state == MuxState::CalibratingSecond {
            self.calibration.observe(phase, value);
            if self.calibration.samples > CALIBRATION_MAX_REPORTS {
                self.state = MuxState::Uncalibrated;
                self.calibration_error = Some(MuxCalibrationError::WindowExpired);
                self.calibration.reset();
            }
            return None;
        }
        if self.state != MuxState::Calibrated {
            return None;
        }
        self.mux_values = if phase == 0 {
            [Some(value), self.mux_values[1]]
        } else {
            [self.mux_values[0], Some(value)]
        };
        assert(self.mux_values@ =~= old(self).mux_values@.update(phase as int, Some(value)));
        let (first, second) = match (self.mux_values[0], self.mux_values[1]) {
            (Some(first), Some(second)) => (first, second),
            _ => return None,
        };
        let seven = match self.input_seven_phase {
            Some(seven) => seven,
            None => return None,
        };
        let eight = 1 - seven;
        let muxed = [first, second];
        let b = raw.bytes();
        let (ch7, ch8) = if self.swap_mux_channels {
            (muxed[eight], muxed[seven])
        } else {
            (muxed[seven], muxed[eight])
        };
        let state = DecodedState {
            channels: [Some(b[0]), Some(b[2]), Some(b[3]), Some(b[4]), Some(b[5]), Some(b[6]), Some(ch7), Some(ch8)],
            legacy_button: None,
            raw,
            format: ReportFormat::RawMuxed8,
        };
        proof {
            let v = muxed_view(raw, seq![first, second], seven as int, self.swap_mux_channels);
            assert(state@.channels =~= v.channels);
        }
        Some(state)
    }

    fn start_calibration(&mut self) -> (result: Result<(), MuxCalibrationError>)
        requires
            tracker_wf(old(self).model()),
        ensures
            tracker_wf(final(self).model()),
            (final(self).model(), result) == tracker_started(old(self).model()),
    {
        if self.state == MuxState::CalibratingFirst || self.state == MuxState::CalibratingSecond {
            return Err(MuxCalibrationError::AlreadyInProgress);
        }
        self.state = MuxState::CalibratingFirst;
        self.mux_values = [None, None];
        self.input_seven_phase = None;
        self.next_phase = 0;
        self.last_phase = None;
        self.calibration.reset();
        self.calibration_error = None;
        self.loss_reason = None;
        self.cadence.reset();
        assert(self.mux_values@ =~= no_mux_values());
        Ok(())
    }

    fn confirm_calibration(&mut self) -> (result: Result<(), MuxCalibrationError>)
        requires
            tracker_wf(old(self).model()),
        ensures
            tracker_wf(final(self).model()),
            (final(self).model(), result) == tracker_confirmed(old(self).model()),
    {
        if self.state != MuxState::CalibratingFirst && self.state != MuxState::CalibratingSecond {
            return Err(MuxCalibrationError::NotInProgress);
        }
        let changed = self.calibration.changed_phases();
        if self.calibration.samples < CALIBRATION_MIN_REPORTS {
            return self.fail_calibration(MuxCalibrationError::InsufficientMovement);
        }
        if changed[0] && changed[1] {
            return self.fail_calibration(MuxCalibrationError::BothPhasesMoved);
        }
        let changed_phase: usize = if changed[0] {
            0
        } else if changed[1] {
            1
        } else {
            return self.fail_calibration(MuxCalibrationError::InsufficientMovement);
        };
        match self.state {
            MuxState::CalibratingFirst => {
                self.input_seven_phase = Some(changed_phase);
                self.state = MuxState::CalibratingSecond;
                self.calibration.reset();
                self.calibration_error = None;
                Ok(())
            },
            MuxState::CalibratingSecond => {
                if self.input_seven_phase == Some(changed_phase) {
                    return self.fail_calibration(MuxCalibrationError::WrongPhaseMoved);
                }
                self.state = MuxState::Calibrated;
                self.calibration.reset();
                self.calibration_error = None;
                self.loss_reason = None;
                Ok(())
            },
            _ => Err(MuxCalibrationError::NotInProgress),
        }
    }

    fn fail_calibration(&mut self, error: MuxCalibrationError) -> (result: Result<(), MuxCalibrationError>)
        requires
            tracker_wf(old(self).model()),
            is_calibrating(old(self).model().state),
        ensures
            tracker_wf(final(self).model()),
            (final(self).model(), result) == tracker_failed(old(self).model(), error),
    {
        self.state = MuxState::Uncalibrated;
        self.calibration_error = Some(error);
        self.calibration.reset();
        Err(error)
    }

    fn mark_lost(&mut self, reason: MuxLossReason)
        requires
            tracker_wf(old(self).model()),
        ensures
            tracker_wf(final(self).model()),
            final(self).model() == tracker_lost(old(self).model(), reason),
    {
        self.state = MuxState::Lost;
        self.mux_values = [None, None];
        self.input_seven_phase = None;
        self.last_phase = None;
        self.calibration.reset();
        self.calibration_error = None;
        self.loss_reason = Some(reason);
        self.cadence.reset();
        assert(self.mux_values@ =~= no_mux_values());
    }

    fn reset(&mut self)
        requires
            tracker_wf(old(self).model()),
        ensures
            tracker_wf(final(self).model()),
            final(self).model() == tracker_reset(old(self).model()),
    {
        self.state = MuxState::Uncalibrated;
        self.mux_values = [None, None];
        self.input_seven_phase = None;
        self.next_phase = 0;
        self.last_phase = None;
        self.calibration.reset();
        self.calibration_error = None;
        self.loss_reason = None;
        self.cadence.reset();
        assert(self.mux_values@ =~= no_mux_values());
    }

    fn seen(&self) -> (seen: [bool; 2])
        requires
            tracker_wf(self.model()),
        ensures
            seen@ == seq![self.model().mux_values[0] is Some, self.model().mux_values[1] is Some],
    {
        let seen = [self.mux_values[0].is_some(), self.mux_values[1].is_some()];
        assert(seen@ =~= seq![self.model().mux_values[0] is Some, self.model().mux_values[1] is Some]);
        seen
    }

    fn calibration_samples(&self) -> (samples: usize)
        ensures
            samples == self.model().calibration.samples,
    {
        self.calibration.samples
    }
}

pub open spec fn decoder_wf(m: DecoderModel) -> bool {
    &&& tracker_wf(m.mux)
    &&& (m.format != ReportFormat::RawMuxed8 ==> m.mux.state == MuxState::Uncalibrated)
}

/// What a decoder publishes of its mux tracker hangs together: calibration
/// samples are only counted while a calibration runs, never more than its
/// window, and mux phases are only seen once calibrated.
pub proof fn law_decoder_status_is_coherent(m: DecoderModel, s: DecoderStatus)
    requires
        decoder_wf(m),
        status_matches(m, s),
    ensures
        s.selected_format == if m.format == ReportFormat::Auto { None } else { Some(m.format) },
        s.mux_state is Some <==> m.format == ReportFormat::RawMuxed8,
        s.calibration_target == 8,
        s.calibration_samples <= 64,
        s.calibration_samples > 0 ==> (s.mux_state == Some(MuxState::CalibratingFirst) || s.mux_state == Some(
            MuxState::CalibratingSecond,
        )),
        s.mux_seen[0] || s.mux_seen[1] ==> s.mux_state == Some(MuxState::Calibrated),
{
}

pub open spec fn decoder_new(format: ReportFormat, swap_mux_channels: bool) -> DecoderModel {
    DecoderModel { format, mux: tracker_new(swap_mux_channels) }
}

/// One report through the decoder: the non-muxed layouts decode every
/// report at once, `Auto` decodes none, and the raw-mux layout goes through
/// its tracker.
pub open spec fn decoder_decoded(m: DecoderModel, raw: RawReport) -> (DecoderModel, Option<DecodedView>) {
    match m.format {
        ReportFormat::Auto => (m, None),
        ReportFormat::RawMuxed8 => {
            let (mux, out) = tracker_decoded(m.mux, raw);
            (DecoderModel { mux, ..m }, out)
        },
        ReportFormat::LinuxDemuxed8 => (m, Some(linux_view(raw))),
        ReportFormat::Legacy7Button => (m, Some(legacy_view(raw))),
    }
}

/// In the legacy layout every report decodes at once, leaving the decoder as
/// it was: inputs 1-7 are report bytes 0 and 2-7 in order, input 8 is
/// absent, and byte 1 is the button (pressed when not zero).
pub proof fn law_legacy_layout(m: DecoderModel, raw: RawReport)
    requires
        m.format == ReportFormat::Legacy7Button,
    ensures
        ({
            let b = raw.bytes_spec();
            &&& decoder_decoded(m, raw).0 == m
            &&& decoder_decoded(m, raw).1 matches Some(v) && v.channels == seq![
                Some(b[0]),
                Some(b[2]),
                Some(b[3]),
                Some(b[4]),
                Some(b[5]),
                Some(b[6]),
                Some(b[7]),
                None::<u8>,
            ] && v.legacy_button == Some(b[1] != 0) && v.format == ReportFormat::Legacy7Button && v.raw == raw
        }),
{
    let b = raw.bytes_spec();
    assert(legacy_view(raw).channels =~= seq![
        Some(b[0]),
        Some(b[2]),
        Some(b[3]),
        Some(b[4]),
        Some(b[5]),
        Some(b[6]),
        Some(b[7]),
        None::<u8>,
    ]);
}

/// In the legacy layout the button byte feeds no input: two reports that
/// differ only in byte 1 decode to the same inputs.
pub proof fn law_legacy_button_byte_feeds_only_the_button(m: DecoderModel, first: RawReport, second: RawReport)
    requires
        m.format == ReportFormat::Legacy7Button,
        forall|i: int| 0 <= i < 8 && i != 1 ==> first.bytes_spec()[i] == second.bytes_spec()[i],
    ensures
        decoder_decoded(m, first).1 matches Some(a) && decoder_decoded(m, second).1 matches Some(b) && a.channels
            == b.channels,
{
    law_legacy_layout(m, first);
    law_legacy_layout(m, second);
    assert(first.bytes_spec()[0] == second.bytes_spec()[0]);
    assert(first.bytes_spec()[7] == second.bytes_spec()[7]);
}

/// In the Linux demultiplexed layout every report decodes at once, leaving
/// the decoder as it was: inputs 1-6 are report bytes 0 and 2-6, input 7 is
/// byte 1 and input 8 byte 7; there is no button.
pub proof fn law_linux_layout(m: DecoderModel, raw: RawReport)
    requires
        m.format == ReportFormat::LinuxDemuxed8,
    ensures
        ({
            let b = raw.bytes_spec();
            &&& decoder_decoded(m, raw).0 == m
            &&& decoder_decoded(m, raw).1 matches Some(v) && v.channels == seq![
                Some(b[0]),
                Some(b[2]),
                Some(b[3]),
                Some(b[4]),
                Some(b[5]),
                Some(b[6]),
                Some(b[1]),
                Some(b[7]),
            ] && v.legacy_button is None && v.format == ReportFormat::LinuxDemuxed8 && v.raw == raw
        }),
{
    let b = raw.bytes_spec();
    assert(linux_view(raw).channels =~= seq![
        Some(b[0]),
        Some(b[2]),
        Some(b[3]),
        Some(b[4]),
        Some(b[5]),
        Some(b[6]),
        Some(b[1]),
        Some(b[7]),
    ]);
}

pub open spec fn decoder_started(m: DecoderModel) -> (DecoderModel, Result<(), MuxCalibrationError>) {
    if m.format != ReportFormat::RawMuxed8 {
        (m, Err(MuxCalibrationError::UnsupportedFormat))
    } else {
        let (mux, r) = tracker_started(m.mux);
        (DecoderModel { mux, ..m }, r)
    }
}

pub open spec fn decoder_confirmed(m: DecoderModel) -> (DecoderModel, Result<(), MuxCalibrationError>) {
    if m.format != ReportFormat::RawMuxed8 {
        (m, Err(MuxCalibrationError::UnsupportedFormat))
    } else {
        let (mux, r) = tracker_confirmed(m.mux);
        (DecoderModel { mux, ..m }, r)
    }
}

pub open spec fn decoder_lost(m: DecoderModel, reason: MuxLossReason) -> DecoderModel {
    if m.format == ReportFormat::RawMuxed8 {
        DecoderModel { mux: tracker_lost(m.mux, reason), ..m }
    } else {
        m
    }
}

pub open spec fn decoder_reset(m: DecoderModel) -> DecoderModel {
    DecoderModel { mux: tracker_reset(m.mux), ..m }
}

/// What `status` reports of a decoder.
pub open spec fn status_matches(m: DecoderModel, s: DecoderStatus) -> bool {
    &&& s.selected_format == if m.format == ReportFormat::Auto {
        None
    } else {
        Some(m.format)
    }
    &&& s.mux_state == if m.format == ReportFormat::RawMuxed8 {
        Some(m.mux.state)
    } else {
        None
    }
    &&& s.mux_seen@ == seq![m.mux.mux_values[0] is Some, m.mux.mux_values[1] is Some]
    &&& s.current_phase == m.mux.last_phase
    &&& s.calibration_samples == m.mux.calibration.samples
    &&& s.calibration_target == 8
    &&& s.calibration_error == m.mux.calibration_error
    &&& s.loss_reason == m.mux.loss_reason
}

/// Turns reports of one layout into controller inputs.
pub struct Decoder {
    format: ReportFormat,
    mux: MuxPhaseTracker,
}

impl View for Decoder {
    type V = DecoderModel;

    closed spec fn view(&self) -> DecoderModel {
        DecoderModel { format: self.format, mux: self.mux.model() }
    }
}

impl Decoder {
    #[verifier::type_invariant]
    closed spec fn well_formed(&self) -> bool {
        decoder_wf(self@)
    }

    pub fn new(format: ReportFormat, swap_mux_channels: bool) -> (decoder: Self)
        ensures
            decoder@ == decoder_new(format, swap_mux_channels),
            decoder_wf(decoder@),
    {
        Decoder { format, mux: MuxPhaseTracker::new(swap_mux_channels) }
    }

    /// Decodes one report; `None` while no complete state is available.
    pub fn decode(&mut self, raw: RawReport) -> (result: Result<Option<DecodedState>, PacketError>)
        ensures
            decoder_wf(old(self)@),
            decoder_wf(final(self)@),
            result matches Ok(out) && (final(self)@, decoded_view_opt(out)) == decoder_decoded(
                old(self)@,
                raw,
            ),
    {
        proof { use_type_invariant(&*self); }
        match self.format {
            ReportFormat::Auto => Ok(None),
            ReportFormat::RawMuxed8 => {
                let mut mux = MuxPhaseTracker::new(false);
                std::mem::swap(&mut mux, &mut self.mux);
                let out = mux.decode(raw);
                self.mux = mux;
                Ok(out)
            },
            ReportFormat::LinuxDemuxed8 => Ok(Some(self.decode_linux_demuxed(raw))),
            ReportFormat::Legacy7Button => Ok(Some(self.decode_legacy(raw))),
        }
    }

    pub fn start_mux_calibration(&mut self) -> (result: Result<(), MuxCalibrationError>)
        ensures
            decoder_wf(old(self)@),
            decoder_wf(final(self)@),
            (final(self)@, result) == decoder_started(old(self)@),
    {
        proof { use_type_invariant(&*self); }
        if self.format != ReportFormat::RawMuxed8 {
            return Err(MuxCalibrationError::UnsupportedFormat);
        }
        let mut mux = MuxPhaseTracker::new(false);
        std::mem::swap(&mut mux, &mut self.mux);
        let result = mux.start_calibration();
        self.mux = mux;
        result
    }

    pub fn confirm_mux_calibration(&mut self) -> (result: Result<(), MuxCalibrationError>)
        ensures
            decoder_wf(old(self)@),
            decoder_wf(final(self)@),
            (final(self)@, result) == decoder_confirmed(old(self)@),
    {
        proof { use_type_invariant(&*self); }
        if self.format != ReportFormat::RawMuxed8 {
            return Err(MuxCalibrationError::UnsupportedFormat);
        }
        let mut mux = MuxPhaseTracker::new(false);
        std::mem::swap(&mut mux, &mut self.mux);
        let result = mux.confirm_calibration();
        self.mux = mux;
        result
    }

    pub fn mark_lost(&mut self, reason: MuxLossReason)
        ensures
            decoder_wf(old(self)@),
            decoder_wf(final(self)@),
            final(self)@ == decoder_lost(old(self)@, reason),
    {
        proof { use_type_invariant(&*self); }
        if self.format == ReportFormat::RawMuxed8 {
            let mut mux = MuxPhaseTracker::new(false);
            std::mem::swap(&mut mux, &mut self.mux);
            mux.mark_lost(reason);
            self.mux = mux;
        }
    }

    pub fn status(&self) -> (status: DecoderStatus)
        ensures
            decoder_wf(self@),
            status_matches(self@, status),
    {
        proof { use_type_invariant(&*self); }
        DecoderStatus {
            selected_format: match self.format {
                ReportFormat::Auto => None,
                format => Some(format),
            },
            mux_state: match self.format {
                ReportFormat::RawMuxed8 => Some(self.mux.state),
                _ => None,
            },
            mux_seen: self.mux.seen(),
            current_phase: self.mux.last_phase,
            calibration_samples: self.mux.calibration_samples(),
            calibration_target: CALIBRATION_MIN_REPORTS,
            calibration_error: self.mux.calibration_error,
            loss_reason: self.mux.loss_reason,
        }
    }

    pub fn reset(&mut self)
        ensures
            decoder_wf(old(self)@),
            decoder_wf(final(self)@),
            final(self)@ == decoder_reset(old(self)@),
    {
        proof { use_type_invariant(&*self); }
        let mut mux = MuxPhaseTracker::new(false);
        std::mem::swap(&mut mux, &mut self.mux);
        mux.reset();
        self.mux = mux;
    }

    fn decode_linux_demuxed(&self, raw: RawReport) -> (state: DecodedState)
        ensures
            state@ == linux_view(raw),
    {
        let b = raw.bytes();
        let state = DecodedState {
            channels: [Some(b[0]), Some(b[2]), Some(b[3]), Some(b[4]), Some(b[5]), Some(b[6]), Some(b[1]), Some(b[7])],
            legacy_button: None,
            raw,
            format: ReportFormat::LinuxDemuxed8,
        };
        assert(state@.channels =~= linux_view(raw).channels);
        state
    }

    fn decode_legacy(&self, raw: RawReport) -> (state: DecodedState)
        ensures
            state@ == legacy_view(raw),
    {
        let b = raw.bytes();
        let state = DecodedState {
            channels: [Some(b[0]), Some(b[2]), Some(b[3]), Some(b[4]), Some(b[5]), Some(b[6]), Some(b[7]), None],
            legacy_button: Some(b[1] != 0),
            raw,
            format: ReportFormat::Legacy7Button,
        };
        assert(state@.channels =~= legacy_view(raw).channels);
        state
    }
}

/// No two report formats share a label, so a format's label parses back to
/// that format.
pub proof fn law_format_labels_distinct(format: ReportFormat, other: ReportFormat)
    ensures
        format.label_spec() == other.label_spec() ==> format == other,
{
    reveal_strlit("auto");
    reveal_strlit("raw-muxed8");
    reveal_strlit("linux-demuxed8");
    reveal_strlit("legacy7-button");
    assert("auto"@.len() == 4);
    assert("raw-muxed8"@.len() == 10);
    assert("linux-demuxed8"@.len() == 14);
    assert("legacy7-button"@.len() == 14);
    assert("linux-demuxed8"@[1] == 'i');
    assert("legacy7-button"@[1] == 'e');
}

/// A raw-mux decoder whose tracking is lost stays lost and publishes
/// nothing, whatever reports arrive, until it is reset or recalibrated.
pub proof fn law_lost_mux_stays_silent(m: DecoderModel, raw: RawReport)
    requires
        m.format == ReportFormat::RawMuxed8,
        m.mux.state == MuxState::Lost,
    ensures
        decoder_decoded(m, raw) == (m, None::<DecodedView>),
{
}

/// Reports alone never calibrate the raw-mux decoder: only a confirmed
/// calibration does.
pub proof fn law_reports_never_calibrate(m: DecoderModel, raw: RawReport)
    requires
        m.mux.state != MuxState::Calibrated,
    ensures
        decoder_decoded(m, raw).0.mux.state != MuxState::Calibrated,
{
}

/// A raw-mux decoder publishes a state only once calibrated, and then only
/// with both mux phases seen since calibration.
pub proof fn law_mux_publishes_only_when_calibrated(m: DecoderModel, raw: RawReport)
    requires
        m.format == ReportFormat::RawMuxed8,
        decoder_decoded(m, raw).1 is Some,
    ensures
        m.mux.state == MuxState::Calibrated,
        decoder_decoded(m, raw).0.mux.mux_values[0] is Some,
        decoder_decoded(m, raw).0.mux.mux_values[1] is Some,
{
}

/// After a reset (a reconnect), a raw-mux decoder is uncalibrated: no state
/// is published until both mux phases are calibrated again.
pub proof fn law_reset_requires_recalibration(m: DecoderModel, raw: RawReport)
    requires
        m.format == ReportFormat::RawMuxed8,
    ensures
        decoder_reset(m).mux.state == MuxState::Uncalibrated,
        decoder_reset(m).mux.input_seven_phase is None,
        decoder_decoded(decoder_reset(m), raw).1 is None,
{
}

/// The demultiplexed layouts decode every report at once, and their
/// decoder keeps no state between reports.
pub proof fn law_demuxed_layouts_decode_every_report(m: DecoderModel, raw: RawReport)
    requires
        m.format == ReportFormat::LinuxDemuxed8 || m.format == ReportFormat::Legacy7Button,
    ensures
        decoder_decoded(m, raw).0 == m,
        decoder_decoded(m, raw).1 == Some(
            if m.format == ReportFormat::LinuxDemuxed8 {
                linux_view(raw)
            } else {
                legacy_view(raw)
            },
        ),
{
}

/// Exchanging the mux channels exchanges inputs 7 and 8 and leaves the
/// other inputs as they are.
pub proof fn law_swap_exchanges_mux_inputs(raw: RawReport, values: Seq<u8>, seven: int)
    requires
        values.len() == 2,
        0 <= seven < 2,
    ensures
        muxed_view(raw, values, seven, true).channels[6] == muxed_view(raw, values, seven, false).channels[7],
        muxed_view(raw, values, seven, true).channels[7] == muxed_view(raw, values, seven, false).channels[6],
        forall|k: int| 0 <= k < 6 ==> #[trigger] muxed_view(raw, values, seven, true).channels[k] == muxed_view(
            raw,
            values,
            seven,
            false,
        ).channels[k],
{
}

/// A started calibration forgets what the tracker had learnt and waits for
/// input 7 to be confirmed first.
pub proof fn law_calibration_starts_over(m: DecoderModel)
    requires
        m.format == ReportFormat::RawMuxed8,
        decoder_started(m).1 is Ok,
    ensures
        decoder_started(m).0.mux.state == MuxState::CalibratingFirst,
        decoder_started(m).0.mux.input_seven_phase is None,
        decoder_started(m).0.mux.mux_values == no_mux_values(),
{
}

/// Calibration needs two confirmations, one per mux phase: the first never
/// completes it.
pub proof fn law_first_confirmation_does_not_calibrate(m: DecoderModel)
    requires
        m.mux.state == MuxState::CalibratingFirst,
    ensures
        decoder_confirmed(m).0.mux.state != MuxState::Calibrated,
{
}

} // verus!

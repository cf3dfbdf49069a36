use std::time::Duration;

use vstd::prelude::*;

use crate::esphome::ServerIdentity;
use crate::rc::{safe_value, RcChannels};
use crate::reader::saturating_inc;

verus! {

/// How long a live input stays valid before the wire falls back to safe
/// channels, in nanoseconds.
pub const INPUT_STALE_AFTER_NS: u64 = 150_000_000;

/// Where and how often the network worker sends the RC channels.
#[derive(Debug)]
pub struct BackendConfig {
    pub address: String,
    pub encryption_key: String,
    pub transmit_interval: Duration,
}

impl Clone for BackendConfig {
    fn clone(&self) -> (copy: Self)
        ensures
            copy.address@ == self.address@,
            copy.encryption_key@ == self.encryption_key@,
            copy.transmit_interval == self.transmit_interval,
    {
        BackendConfig {
            address: self.address.clone(),
            encryption_key: self.encryption_key.clone(),
            transmit_interval: self.transmit_interval,
        }
    }
}

/// Whether the operator's input goes on the wire or is held safe.
#[derive(Clone, Copy, Debug, Eq, PartialEq, Structural)]
pub enum OutputMode {
    SafeHold,
    Live,
}

/// What the network worker reports to the console.
#[derive(Debug)]
pub enum BackendEvent {
    Connecting { address: String },
    Connected { server: ServerIdentity },
    CommandAcknowledged { sent: u64, acknowledged: u64, round_trip: Duration, safe_override: bool },
    Failed { message: String },
}

impl Clone for BackendEvent {
    fn clone(&self) -> (copy: Self)
        ensures
            match (self, copy) {
                (BackendEvent::Connecting { address: a }, BackendEvent::Connecting { address: b }) => a@ == b@,
                (BackendEvent::Connected { .. }, BackendEvent::Connected { .. }) => true,
                (BackendEvent::CommandAcknowledged { .. }, BackendEvent::CommandAcknowledged { .. }) => copy == *self,
                (BackendEvent::Failed { message: a }, BackendEvent::Failed { message: b }) => a@ == b@,
                _ => false,
            },
    {
        match self {
            BackendEvent::Connecting { address } => BackendEvent::Connecting { address: address.clone() },
            BackendEvent::Connected { server } => BackendEvent::Connected { server: server.clone() },
            BackendEvent::CommandAcknowledged { sent, acknowledged, round_trip, safe_override } => {
                BackendEvent::CommandAcknowledged {
                    sent: *sent,
                    acknowledged: *acknowledged,
                    round_trip: *round_trip,
                    safe_override: *safe_override,
                }
            },
            BackendEvent::Failed { message } => BackendEvent::Failed { message: message.clone() },
        }
    }
}

/// Why the network worker could not be started or stopped.
#[derive(Debug)]
pub enum BackendError {
    Spawn(std::io::Error),
    WorkerPanicked,
}

impl BackendError {
    pub fn message(&self) -> (text: &'static str)
        ensures
            text@ == match self {
                BackendError::Spawn(_) => "could not start ESPHome network worker"@,
                BackendError::WorkerPanicked => "ESPHome network worker panicked"@,
            },
    {
        match self {
            BackendError::Spawn(_) => "could not start ESPHome network worker",
            BackendError::WorkerPanicked => "ESPHome network worker panicked",
        }
    }
}

/// The output the console last asked for, with the time (nanoseconds on the
/// worker's monotonic clock) at which it asked.
#[derive(Clone, Copy, Debug)]
pub struct DesiredOutput {
    pub mode: OutputMode,
    pub channels: RcChannels,
    pub updated_at: u64,
}

impl DesiredOutput {
    /// Safe hold with the safe channels, asked for at `now`.
    pub fn safe(now: u64) -> (desired: Self)
        ensures
            desired.mode == OutputMode::SafeHold,
            desired.channels@ == Seq::new(16, |k: int| safe_value(k)),
            desired.updated_at == now,
    {
        DesiredOutput { mode: OutputMode::SafeHold, channels: RcChannels::safe(), updated_at: now }
    }
}

/// The wire falls back to safe channels in safe hold, and when the input is
/// older than the stale limit.
pub open spec fn safe_override_spec(mode: OutputMode, updated_at: u64, now: u64) -> bool {
    mode == OutputMode::SafeHold || (if now >= updated_at { now - updated_at } else { 0 }) > INPUT_STALE_AFTER_NS
}

/// The channels that go on the wire at `now`, and whether they are the safe
/// set in place of the desired one.
pub fn wire_output(desired: &DesiredOutput, now: u64) -> (output: (RcChannels, bool))
    ensures
        output.1 == safe_override_spec(desired.mode, desired.updated_at, now),
        output.1 ==> output.0@ == Seq::new(16, |k: int| safe_value(k)),
        !output.1 ==> output.0 == desired.channels,
{
    let age = if now >= desired.updated_at { now - desired.updated_at } else { 0 };
    let safe_override = desired.mode == OutputMode::SafeHold || age > INPUT_STALE_AFTER_NS;
    if safe_override {
        (RcChannels::safe(), true)
    } else {
        (desired.channels, false)
    }
}

/// What the worker sends once its transmit loop has ended, whether it was
/// stopped or the bridge failed: the safe channels, so that the bridge is
/// left holding safe values.
pub fn closing_channels() -> (channels: RcChannels)
    ensures
        channels@ == Seq::new(16, |k: int| safe_value(k)),
{
    RcChannels::safe()
}

/// Commands sent and acknowledged over one connection; both saturate.
#[derive(Clone, Copy, Debug, Eq, PartialEq, Structural)]
pub struct TransmitCounters {
    pub sent: u64,
    pub acknowledged: u64,
}

impl TransmitCounters {
    pub fn new() -> (counters: Self)
        ensures
            counters.sent == 0,
            counters.acknowledged == 0,
    {
        TransmitCounters { sent: 0, acknowledged: 0 }
    }

    /// One more command is about to go out.
    pub fn record_sent(&mut self)
        ensures
            final(self).sent == if old(self).sent == u64::MAX { u64::MAX } else { (old(self).sent + 1) as u64 },
            final(self).acknowledged == old(self).acknowledged,
    {
        self.sent = self.sent.saturating_add(1);
    }

    /// The device acknowledged the command: count it and report it.
    pub fn acknowledge(&mut self, round_trip: Duration, safe_override: bool) -> (event: BackendEvent)
        ensures
            final(self).sent == old(self).sent,
            final(self).acknowledged == if old(self).acknowledged == u64::MAX {
                u64::MAX
            } else {
                (old(self).acknowledged + 1) as u64
            },
            event == (BackendEvent::CommandAcknowledged {
                sent: final(self).sent,
                acknowledged: final(self).acknowledged,
                round_trip,
                safe_override,
            }),
    {
        self.acknowledged = self.acknowledged.saturating_add(1);
        BackendEvent::CommandAcknowledged {
            sent: self.sent,
            acknowledged: self.acknowledged,
            round_trip,
            safe_override,
        }
    }
}

/// What happens to the transmit loop of one connection.
#[derive(Debug)]
pub enum TransmitEvent {
    /// A transmission is due; the console last asked for `desired`.
    Due { desired: DesiredOutput, now: u64 },
    /// The bridge acknowledged the command that was sent last.
    Acknowledged { round_trip: Duration },
    /// Sending a command failed.
    SendFailed,
    /// The worker was asked to stop.
    Stopped,
}

/// What the transmit loop does next.
#[derive(Debug)]
pub enum TransmitAction {
    /// Send these channels to the bridge.
    Send { channels: RcChannels },
    /// Tell the console.
    Report { event: BackendEvent },
    /// The loop ends: send these channels one last time.
    Close { channels: RcChannels },
    /// Nothing to do.
    Idle,
}

/// A transmit session seen as its counters, whether the command awaiting
/// its acknowledgement carried the safe channels in place of the desired
/// ones, and whether the loop has ended.
pub struct TransmitSessionView {
    pub counters: TransmitCounters,
    pub in_flight: Option<bool>,
    pub closed: bool,
}

/// One step of the transmit loop, from `before` on `event`, giving `action`
/// and leaving `after`:
/// - a closed session does nothing more;
/// - a due transmission sends the wire output and counts it;
/// - an acknowledgement of the command in flight is counted and reported
///   with that command's override, and one with none in flight is ignored;
/// - a failed send or a stop ends the loop with the safe channels.
pub open spec fn transmit_step(
    before: TransmitSessionView,
    event: TransmitEvent,
    action: TransmitAction,
    after: TransmitSessionView,
) -> bool {
    if before.closed {
        action is Idle && after == before
    } else {
        match event {
            TransmitEvent::Due { desired, now } => {
                let safe_override = safe_override_spec(desired.mode, desired.updated_at, now);
                &&& action matches TransmitAction::Send { channels } && (if safe_override {
                    channels@ == Seq::new(16, |k: int| safe_value(k))
                } else {
                    channels == desired.channels
                })
                &&& after == (TransmitSessionView {
                    counters: TransmitCounters {
                        sent: saturating_inc(before.counters.sent),
                        acknowledged: before.counters.acknowledged,
                    },
                    in_flight: Some(safe_override),
                    closed: false,
                })
            },
            TransmitEvent::Acknowledged { round_trip } => match before.in_flight {
                Some(safe_override) => {
                    let counters = TransmitCounters {
                        sent: before.counters.sent,
                        acknowledged: saturating_inc(before.counters.acknowledged),
                    };
                    &&& action == (TransmitAction::Report {
                        event: BackendEvent::CommandAcknowledged {
                            sent: counters.sent,
                            acknowledged: counters.acknowledged,
                            round_trip,
                            safe_override,
                        },
                    })
                    &&& after == (TransmitSessionView { counters, in_flight: None, closed: false })
                },
                None => action is Idle && after == before,
            },
            TransmitEvent::SendFailed | TransmitEvent::Stopped => {
                &&& action matches TransmitAction::Close { channels } && channels@ == Seq::new(
                    16,
                    |k: int| safe_value(k),
                )
                &&& after == (TransmitSessionView { counters: before.counters, in_flight: None, closed: true })
            },
        }
    }
}

/// The decisions of the transmit loop of one connection: what goes on the
/// wire, what is reported, and that the loop ends by sending the safe
/// channels, after which it sends nothing more.
#[derive(Debug)]
pub struct TransmitSession {
    counters: TransmitCounters,
    in_flight: Option<bool>,
    closed: bool,
}

impl View for TransmitSession {
    type V = TransmitSessionView;

    closed spec fn view(&self) -> TransmitSessionView {
        TransmitSessionView { counters: self.counters, in_flight: self.in_flight, closed: self.closed }
    }
}

impl TransmitSession {
    pub fn new() -> (session: Self)
        ensures
            session@ == (TransmitSessionView {
                counters: TransmitCounters { sent: 0, acknowledged: 0 },
                in_flight: None,
                closed: false,
            }),
    {
        TransmitSession { counters: TransmitCounters::new(), in_flight: None, closed: false }
    }

    /// Whether the loop has ended.
    pub fn is_closed(&self) -> (closed: bool)
        ensures
            closed == self@.closed,
    {
        self.closed
    }

    /// One step of the loop.
    pub fn step(&mut self, event: TransmitEvent) -> (action: TransmitAction)
        ensures
            transmit_step(old(self)@, event, action, final(self)@),
    {
        if self.closed {
            return TransmitAction::Idle;
        }
        match event {
            TransmitEvent::Due { desired, now } => {
                let (channels, safe_override) = wire_output(&desired, now);
                self.counters.record_sent();
                self.in_flight = Some(safe_override);
                TransmitAction::Send { channels }
            },
            TransmitEvent::Acknowledged { round_trip } => match self.in_flight {
                Some(safe_override) => {
                    let event = self.counters.acknowledge(round_trip, safe_override);
                    self.in_flight = None;
                    TransmitAction::Report { event }
                },
                None => TransmitAction::Idle,
            },
            TransmitEvent::SendFailed | TransmitEvent::Stopped => {
                self.in_flight = None;
                self.closed = true;
                TransmitAction::Close { channels: closing_channels() }
            },
        }
    }
}

/// One recorded step of the transmit loop: the session before, the event,
/// the action taken and the session after.
pub type TransmitStepRecord = (TransmitSessionView, TransmitEvent, TransmitAction, TransmitSessionView);

/// A run of the transmit loop: each step follows `transmit_step` and starts
/// where the one before it left off.
pub open spec fn transmit_run(run: Seq<TransmitStepRecord>) -> bool
    decreases run.len(),
{
    if run.len() == 0 {
        true
    } else {
        &&& transmit_run(run.drop_last())
        &&& transmit_step(run.last().0, run.last().1, run.last().2, run.last().3)
        &&& (run.len() >= 2 ==> run[run.len() - 2].3 == run.last().0)
    }
}

proof fn lemma_transmit_run_steps(run: Seq<TransmitStepRecord>)
    requires
        transmit_run(run),
    ensures
        forall|i: int| 0 <= i < run.len() ==> transmit_step(#[trigger] run[i].0, run[i].1, run[i].2, run[i].3),
        forall|i: int| 0 < i < run.len() ==> (#[trigger] run[i]).0 == run[i - 1].3,
    decreases run.len(),
{
    if run.len() > 0 {
        let prefix = run.drop_last();
        lemma_transmit_run_steps(prefix);
        assert(forall|i: int| 0 <= i < prefix.len() ==> prefix[i] == run[i]);
    }
}

/// A due transmission on an open session sends the wire output for the
/// desired output it read.
pub open spec fn sends_wire_output(step: TransmitStepRecord) -> bool {
    !step.0.closed ==> match step.1 {
        TransmitEvent::Due { desired, now } => step.2 matches TransmitAction::Send { channels } && if safe_override_spec(
            desired.mode,
            desired.updated_at,
            now,
        ) {
            channels@ == Seq::new(16, |k: int| safe_value(k))
        } else {
            channels == desired.channels
        },
        _ => true,
    }
}

/// An acknowledgement right after a send reports that send's override.
pub open spec fn reports_override_of(previous: TransmitStepRecord, step: TransmitStepRecord) -> bool {
    !previous.0.closed ==> match (previous.1, step.1) {
        (TransmitEvent::Due { desired, now }, TransmitEvent::Acknowledged { .. }) => step.2 matches TransmitAction::Report {
            event: BackendEvent::CommandAcknowledged { safe_override, .. },
        } && safe_override == safe_override_spec(desired.mode, desired.updated_at, now),
        _ => true,
    }
}

/// Closing sends the safe channels.
pub open spec fn closes_safe(step: TransmitStepRecord) -> bool {
    match step.2 {
        TransmitAction::Close { channels } => channels@ == Seq::new(16, |k: int| safe_value(k)),
        _ => true,
    }
}

/// Over a whole transmit loop: every send carries the wire output for the
/// desired output read when it fell due; an acknowledgement right after a
/// send reports that send's override; the counters never go down; the loop
/// ends, on a stop or a failed send, by sending the safe channels, and after
/// that it does nothing more.
pub proof fn law_transmit_run(run: Seq<TransmitStepRecord>)
    requires
        transmit_run(run),
    ensures
        forall|i: int| 0 <= i < run.len() ==> sends_wire_output(#[trigger] run[i]),
        forall|j: int| 0 < j < run.len() ==> reports_override_of(run[j - 1], #[trigger] run[j]),
        forall|i: int, j: int|
            0 <= i <= j < run.len() ==> (#[trigger] run[i]).3.counters.sent <= (#[trigger] run[j]).3.counters.sent
                && run[i].3.counters.acknowledged <= run[j].3.counters.acknowledged,
        forall|i: int| 0 <= i < run.len() ==> closes_safe(#[trigger] run[i]),
        forall|i: int, j: int|
            0 <= i < j < run.len() && (#[trigger] run[i]).2 is Close ==> (#[trigger] run[j]).2 is Idle,
    decreases run.len(),
{
    lemma_transmit_run_steps(run);
    if run.len() > 0 {
        let prefix = run.drop_last();
        let n = run.len() - 1;
        law_transmit_run(prefix);
        lemma_transmit_run_steps(prefix);
        assert(forall|i: int| 0 <= i < n ==> prefix[i] == run[i]);
        assert(transmit_step(run[n].0, run[n].1, run[n].2, run[n].3));
        assert forall|i: int, j: int| 0 <= i <= j < run.len() implies (#[trigger] run[i]).3.counters.sent <= (
        #[trigger] run[j]).3.counters.sent && run[i].3.counters.acknowledged <= run[j].3.counters.acknowledged by {
            if j == n && i < n {
                assert(prefix[i] == run[i] && prefix[n - 1] == run[n - 1]);
                assert(run[n].0 == run[n - 1].3);
            } else if j < n {
                assert(prefix[i] == run[i] && prefix[j] == run[j]);
            }
        }
        assert forall|i: int, j: int| 0 <= i < j < run.len() && (#[trigger] run[i]).2 is Close implies (
        #[trigger] run[j]).2 is Idle by {
            lemma_closed_stays_closed(run, i, j);
        }
    }
}

proof fn lemma_closed_stays_closed(run: Seq<TransmitStepRecord>, i: int, j: int)
    requires
        transmit_run(run),
        0 <= i < j < run.len(),
        run[i].2 is Close,
    ensures
        run[j].0.closed,
        run[j].2 is Idle,
    decreases j - i,
{
    lemma_transmit_run_steps(run);
    assert(run[j].0 == run[j - 1].3);
    if j - 1 > i {
        lemma_closed_stays_closed(run, i, j - 1);
    }
}

/// The deadline of the next transmission: one interval after the previous
/// one (saturating at the end of the clock).
pub fn transmit_deadline(previous: u64, interval: u64) -> (deadline: u64)
    ensures
        deadline == if previous + interval > u64::MAX { u64::MAX as int } else { previous + interval },
{
    previous.saturating_add(interval)
}

/// After sleeping until `deadline`, a worker that woke late at `now` counts
/// from `now`: it does not try to catch up on missed transmissions.
pub fn resume_deadline(deadline: u64, now: u64) -> (resumed: u64)
    ensures
        resumed == if deadline < now { now } else { deadline },
{
    if deadline < now {
        now
    } else {
        deadline
    }
}

/// In safe hold, and whenever the input is older than the stale limit, the
/// wire carries the safe channels; otherwise exactly the desired ones.
pub proof fn law_wire_is_safe_unless_live_and_fresh(desired: DesiredOutput, now: u64)
    ensures
        safe_override_spec(desired.mode, desired.updated_at, now) <==> (desired.mode == OutputMode::SafeHold
            || now > desired.updated_at + INPUT_STALE_AFTER_NS),
{
}

} // verus!

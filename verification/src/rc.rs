use vstd::prelude::*;

use vstd::string::*;

use crate::protocol::DecodedState;
use crate::text::{decimal_chars, push_decimal};
use crate::CHANNEL_COUNT;

verus! {

/// Number of RC channels sent to the bridge.
pub const RC_CHANNEL_COUNT: usize = 16;
/// Lowest channel value, in microseconds.
pub const RC_MIN_US: u16 = 988;
/// Centre channel value, in microseconds.
pub const RC_MID_US: u16 = 1500;
/// Highest channel value, in microseconds.
pub const RC_MAX_US: u16 = 2012;

/// The safe value of output `k`: roll, pitch and yaw centred, everything
/// else (throttle, arm and the auxiliaries) low.
pub open spec fn safe_value(k: int) -> u16 {
    if k == 0 || k == 1 || k == 3 {
        1500
    } else {
        988
    }
}

/// Sixteen RC channel values in microseconds, AETR first and arm on channel 5.
#[derive(Clone, Copy, Debug, Eq, PartialEq)]
pub struct RcChannels {
    values: [u16; RC_CHANNEL_COUNT],
}

impl View for RcChannels {
    type V = Seq<u16>;

    closed spec fn view(&self) -> Seq<u16> {
        self.values@
    }
}

impl RcChannels {
    pub proof fn lemma_channel_count(&self)
        ensures
            self@.len() == RC_CHANNEL_COUNT,
    {
    }

    /// The disarmed channel set: centred sticks, low throttle, all auxiliaries low.
    pub fn safe() -> (channels: Self)
        ensures
            channels@ == Seq::new(16, |k: int| safe_value(k)),
    {
        let channels = RcChannels {
            values: [
                RC_MID_US,
                RC_MID_US,
                RC_MIN_US,
                RC_MID_US,
                RC_MIN_US,
                RC_MIN_US,
                RC_MIN_US,
                RC_MIN_US,
                RC_MIN_US,
                RC_MIN_US,
                RC_MIN_US,
                RC_MIN_US,
                RC_MIN_US,
                RC_MIN_US,
                RC_MIN_US,
                RC_MIN_US,
            ],
        };
        assert(channels@ =~= Seq::new(16, |k: int| safe_value(k)));
        channels
    }

    pub fn values(&self) -> (values: &[u16; RC_CHANNEL_COUNT])
        ensures
            values@ == self@,
    {
        &self.values
    }

    pub fn roll(&self) -> (value: u16)
        ensures
            value == self@[0],
    {
        self.values[0]
    }

    pub fn pitch(&self) -> (value: u16)
        ensures
            value == self@[1],
    {
        self.values[1]
    }

    pub fn throttle(&self) -> (value: u16)
        ensures
            value == self@[2],
    {
        self.values[2]
    }

    pub fn yaw(&self) -> (value: u16)
        ensures
            value == self@[3],
    {
        self.values[3]
    }

    /// Whether channel 5 (arm) is above centre.
    pub fn armed(&self) -> (armed: bool)
        ensures
            armed == (self@[4] > RC_MID_US),
    {
        self.values[4] > RC_MID_US
    }
}

/// Scales an analogue byte to microseconds: 126-129 is the centre, the rest
/// spreads 0-255 over 988-2012 with rounding.
pub open spec fn scale_spec(value: u8) -> u16 {
    if 126 <= value <= 129 {
        1500
    } else {
        (988 + (value as int * 1024 + 127) / 255) as u16
    }
}

/// How to spread one input's measured travel over the channel range.
#[derive(Clone, Copy, Debug, Eq, PartialEq, Structural)]
pub struct ChannelCalibration {
    pub minimum: u8,
    pub centre: u8,
    pub maximum: u8,
    pub deadband: u8,
}

/// A calibrated input: within `deadband` of `centre` is the centre; below it
/// the travel from `minimum` to `centre` covers 988-1500, above it the travel
/// from `centre` to `maximum` covers 1500-2012, with values beyond the ends held
/// at the ends; divisions round to nearest.
pub open spec fn calibrated_spec(value: u8, c: ChannelCalibration) -> u16 {
    let v = value as int;
    if c.centre - c.deadband <= v <= c.centre + c.deadband {
        1500
    } else if v < c.centre {
        if v <= c.minimum {
            988
        } else {
            (988 + ((v - c.minimum) * 512 + (c.centre - c.minimum) / 2) / (c.centre - c.minimum)) as u16
        }
    } else {
        if v >= c.maximum {
            2012
        } else {
            (1500 + ((v - c.centre) * 512 + (c.maximum - c.centre) / 2) / (c.maximum - c.centre)) as u16
        }
    }
}

/// One input byte to microseconds, inverted first when asked.
pub open spec fn output_spec(value: u8, inverted: bool, calibration: Option<ChannelCalibration>) -> u16 {
    let v: u8 = if inverted { (255 - value) as u8 } else { value };
    match calibration {
        None => scale_spec(v),
        Some(c) => calibrated_spec(v, c),
    }
}

proof fn lemma_output_bounds(value: u8, inverted: bool, calibration: Option<ChannelCalibration>)
    ensures
        RC_MIN_US <= output_spec(value, inverted, calibration) <= RC_MAX_US,
{
    let v: u8 = if inverted { (255 - value) as u8 } else { value };
    match calibration {
        None => {
            assert(v as int * 1024 + 127 <= 255 * 1024 + 127);
            assert((v as int * 1024 + 127) / 255 <= 1024) by (nonlinear_arith)
                requires v <= 255;
        },
        Some(c) => {
            let x = v as int;
            if c.centre - c.deadband <= x <= c.centre + c.deadband {
            } else if x < c.centre {
                if x > c.minimum {
                    let d = c.centre - c.minimum;
                    let n = x - c.minimum;
                    assert((n * 512 + d / 2) / d < 512) by (nonlinear_arith)
                        requires 0 < n < d, d <= 255;
                    assert((n * 512 + d / 2) / d >= 0) by (nonlinear_arith)
                        requires 0 < n < d, d <= 255;
                }
            } else {
                if x < c.maximum {
                    let d = c.maximum - c.centre;
                    let n = x - c.centre;
                    assert((n * 512 + d / 2) / d < 512) by (nonlinear_arith)
                        requires 0 < n < d, d <= 255;
                    assert((n * 512 + d / 2) / d >= 0) by (nonlinear_arith)
                        requires 0 < n < d, d <= 255;
                }
            }
        },
    }
}

fn scale_analogue(value: u8) -> (us: u16)
    ensures
        us == scale_spec(value),
{
    if 126 <= value && value <= 129 {
        return RC_MID_US;
    }
    assert((value as int * 1024 + 127) / 255 <= 1024) by (nonlinear_arith)
        requires value <= 255;
    RC_MIN_US + ((value as u32 * 1024 + 127) / 255) as u16
}

fn calibrated(value: u8, c: ChannelCalibration) -> (us: u16)
    ensures
        us == calibrated_spec(value, c),
{
    let v = value as u32;
    let centre = c.centre as u32;
    let deadband = c.deadband as u32;
    let minimum = c.minimum as u32;
    let maximum = c.maximum as u32;
    if v + deadband >= centre && v <= centre + deadband {
        RC_MID_US
    } else if v < centre {
        if v <= minimum {
            RC_MIN_US
        } else {
            let d = centre - minimum;
            let n = v - minimum;
            let q = (n * 512 + d / 2) / d;
            assert(q < 512) by (nonlinear_arith)
                requires 0 < n < d, d <= 255, q as int == ((n as int) * 512 + (d as int) / 2) / (d as int);
            RC_MIN_US + q as u16
        }
    } else {
        if v >= maximum {
            RC_MAX_US
        } else {
            let d = maximum - centre;
            let n = v - centre;
            let q = (n * 512 + d / 2) / d;
            assert(q < 512) by (nonlinear_arith)
                requires 0 < n < d, d <= 255, q as int == ((n as int) * 512 + (d as int) / 2) / (d as int);
            RC_MID_US + q as u16
        }
    }
}

fn output(value: u8, inverted: bool, calibration: Option<ChannelCalibration>) -> (us: u16)
    ensures
        us == output_spec(value, inverted, calibration),
        RC_MIN_US <= us <= RC_MAX_US,
{
    proof { lemma_output_bounds(value, inverted, calibration); }
    let v = if inverted { u8::MAX - value } else { value };
    match calibration {
        None => scale_analogue(v),
        Some(c) => calibrated(v, c),
    }
}

const PRIMARY_CHANNEL_COUNT: usize = 4;
const AUXILIARY_CHANNEL_COUNT: usize = 4;

/// A refused input assignment.
#[derive(Clone, Copy, Debug, Eq, PartialEq, Structural)]
pub enum MappingError {
    ChannelOutOfRange { channel: usize },
    DuplicateChannel { channel: usize },
}

impl MappingError {
    /// The error in words.
    pub fn message(&self) -> (text: String)
        ensures
            text@ == match *self {
                MappingError::ChannelOutOfRange { channel } => "channel "@ + decimal_chars(
                    channel as nat,
                ) + " is outside the valid 1-8 range"@,
                MappingError::DuplicateChannel { channel } => "channel "@ + decimal_chars(
                    channel as nat,
                ) + " is assigned to more than one primary control"@,
            },
    {
        let mut text = String::from_str("channel ");
        match *self {
            MappingError::ChannelOutOfRange { channel } => {
                push_decimal(&mut text, channel as u128);
                text.append(" is outside the valid 1-8 range");
            },
            MappingError::DuplicateChannel { channel } => {
                push_decimal(&mut text, channel as u128);
                text.append(" is assigned to more than one primary control");
            },
        }
        text
    }
}

/// The fault of the one-based channel at position `k`, given that the ones
/// before it are fine: outside 1-8, or a repeat of an earlier one.
pub open spec fn channel_error_at(channels: Seq<usize>, k: int) -> Option<MappingError> {
    if !(1 <= channels[k] <= 8) {
        Some(MappingError::ChannelOutOfRange { channel: channels[k] })
    } else if exists|j: int| 0 <= j < k && channels[j] == channels[k] {
        Some(MappingError::DuplicateChannel { channel: channels[k] })
    } else {
        None
    }
}

/// The first fault among the first `n` one-based channels.
pub open spec fn first_channel_error(channels: Seq<usize>, n: nat) -> Option<MappingError>
    decreases n,
{
    if n == 0 {
        None
    } else {
        match first_channel_error(channels, (n - 1) as nat) {
            Some(e) => Some(e),
            None => channel_error_at(channels, n - 1),
        }
    }
}

proof fn lemma_no_channel_error(channels: Seq<usize>, n: nat)
    requires
        first_channel_error(channels, n) is None,
        n <= channels.len(),
    ensures
        forall|k: int| 0 <= k < n ==> 1 <= #[trigger] channels[k] <= 8,
        forall|j: int, k: int| 0 <= j < k < n ==> channels[j] != channels[k],
    decreases n,
{
    if n > 0 {
        lemma_no_channel_error(channels, (n - 1) as nat);
    }
}

proof fn lemma_first_error_stable(channels: Seq<usize>, k: nat, n: nat)
    requires
        k <= n,
        first_channel_error(channels, k) is Some,
    ensures
        first_channel_error(channels, n) == first_channel_error(channels, k),
    decreases n - k,
{
    if n > k {
        lemma_first_error_stable(channels, k, (n - 1) as nat);
    }
}

/// Checks the first `n` one-based channels for range and repeats, in order.
fn check_channels(channels: &[usize], n: usize) -> (result: Result<(), MappingError>)
    requires
        n <= channels.len(),
    ensures
        match first_channel_error(channels@, n as nat) {
            None => result is Ok,
            Some(e) => result == Err::<(), MappingError>(e),
        },
{
    let mut seen = [false; 8];
    let mut i: usize = 0;
    while i < n
        invariant
            i <= n <= channels.len(),
            first_channel_error(channels@, i as nat) is None,
            forall|k: int| 0 <= k < 8 ==> seen@[k] == exists|j: int| 0 <= j < i && channels@[j] == k + 1,
        decreases n - i,
    {
        proof { lemma_no_channel_error(channels@, i as nat); }
        let channel = channels[i];
        if channel < 1 || channel > CHANNEL_COUNT {
            proof { lemma_first_error_stable(channels@, (i + 1) as nat, n as nat); }
            return Err(MappingError::ChannelOutOfRange { channel });
        }
        let index = channel - 1;
        if seen[index] {
            assert(seen@[index as int]);
            proof { lemma_first_error_stable(channels@, (i + 1) as nat, n as nat); }
            return Err(MappingError::DuplicateChannel { channel });
        }
        assert(!exists|j: int| 0 <= j < i && channels@[j] == channel);
        seen[index] = true;
        i += 1;
        proof {
            assert forall|k: int| 0 <= k < 8 implies seen@[k] == exists|j: int| 0 <= j < i && channels@[j] == k + 1 by {
                if k == index {
                    assert(channels@[i - 1] == k + 1);
                } else {
                    if exists|j: int| 0 <= j < i && channels@[j] == k + 1 {
                        let j = choose|j: int| 0 <= j < i && channels@[j] == k + 1;
                        assert(j < i - 1);
                    }
                }
            }
        }
    }
    Ok(())
}

/// The inputs below `n` that are not among `primary`, ascending.
pub open spec fn inputs_not_in(primary: Seq<usize>, n: nat) -> Seq<usize>
    decreases n,
{
    if n == 0 {
        Seq::empty()
    } else {
        let rest = inputs_not_in(primary, (n - 1) as nat);
        if primary.contains((n - 1) as usize) {
            rest
        } else {
            rest.push((n - 1) as usize)
        }
    }
}

spec fn covered(primary: Seq<usize>, n: nat) -> nat
    decreases n,
{
    if n == 0 {
        0
    } else {
        covered(primary, (n - 1) as nat) + if primary.contains((n - 1) as usize) { 1nat } else { 0nat }
    }
}

spec fn count_below(p: Seq<usize>, n: nat) -> nat
    decreases p.len(),
{
    if p.len() == 0 {
        0
    } else {
        count_below(p.drop_last(), n) + if p.last() < n { 1nat } else { 0nat }
    }
}

spec fn count_equal(p: Seq<usize>, v: usize) -> nat
    decreases p.len(),
{
    if p.len() == 0 {
        0
    } else {
        count_equal(p.drop_last(), v) + if p.last() == v { 1nat } else { 0nat }
    }
}

proof fn lemma_inputs_not_in_len(primary: Seq<usize>, n: nat)
    ensures
        inputs_not_in(primary, n).len() + covered(primary, n) == n,
    decreases n,
{
    if n > 0 {
        lemma_inputs_not_in_len(primary, (n - 1) as nat);
    }
}

proof fn lemma_count_below_step(p: Seq<usize>, n: nat)
    ensures
        n < usize::MAX ==> count_below(p, n + 1) == count_below(p, n) + count_equal(p, n as usize),
    decreases p.len(),
{
    if p.len() > 0 {
        lemma_count_below_step(p.drop_last(), n);
    }
}

proof fn lemma_count_equal_distinct(p: Seq<usize>, v: usize)
    requires
        p.no_duplicates(),
    ensures
        count_equal(p, v) == if p.contains(v) { 1nat } else { 0nat },
    decreases p.len(),
{
    if p.len() > 0 {
        let q = p.drop_last();
        assert(q.no_duplicates());
        lemma_count_equal_distinct(q, v);
        if p.last() == v {
            if q.contains(v) {
                let j = choose|j: int| 0 <= j < q.len() && q[j] == v;
                assert(p[j] == p[p.len() - 1]);
            }
            assert(p.contains(v)) by { assert(p[p.len() - 1] == v); }
        } else {
            if p.contains(v) {
                let j = choose|j: int| 0 <= j < p.len() && p[j] == v;
                assert(j < p.len() - 1);
                assert(q[j] == v);
            }
            if q.contains(v) {
                let j = choose|j: int| 0 <= j < q.len() && q[j] == v;
                assert(p[j] == v);
            }
        }
    }
}

proof fn lemma_covered_counts(p: Seq<usize>, n: nat)
    requires
        p.no_duplicates(),
        n <= 8,
    ensures
        covered(p, n) == count_below(p, n),
    decreases n,
{
    if n == 0 {
        lemma_count_below_zero(p);
    } else {
        lemma_covered_counts(p, (n - 1) as nat);
        lemma_count_below_step(p, (n - 1) as nat);
        lemma_count_equal_distinct(p, (n - 1) as usize);
    }
}

proof fn lemma_count_below_zero(p: Seq<usize>)
    ensures
        count_below(p, 0) == 0,
    decreases p.len(),
{
    if p.len() > 0 {
        lemma_count_below_zero(p.drop_last());
    }
}

proof fn lemma_count_below_all(p: Seq<usize>, n: nat)
    requires
        forall|k: int| 0 <= k < p.len() ==> p[k] < n,
    ensures
        count_below(p, n) == p.len(),
    decreases p.len(),
{
    if p.len() > 0 {
        lemma_count_below_all(p.drop_last(), n);
    }
}

/// With four distinct primaries among inputs 0-7, four inputs are left over.
proof fn lemma_four_auxiliaries(primary: Seq<usize>)
    requires
        primary.len() == 4,
        primary.no_duplicates(),
        forall|k: int| 0 <= k < 4 ==> primary[k] < 8,
    ensures
        inputs_not_in(primary, 8).len() == 4,
{
    lemma_inputs_not_in_len(primary, 8);
    lemma_covered_counts(primary, 8);
    lemma_count_below_all(primary, 8);
}

proof fn lemma_inputs_not_in_bounds(primary: Seq<usize>, n: nat)
    ensures
        forall|k: int| 0 <= k < inputs_not_in(primary, n).len() ==> #[trigger] inputs_not_in(primary, n)[k] < n,
    decreases n,
{
    if n > 0 {
        lemma_inputs_not_in_bounds(primary, (n - 1) as nat);
        let rest = inputs_not_in(primary, (n - 1) as nat);
        assert forall|k: int| 0 <= k < inputs_not_in(primary, n).len() implies #[trigger] inputs_not_in(primary, n)[k] < n by {
            if k < rest.len() {
                assert(inputs_not_in(primary, n)[k] == rest[k]);
            }
        }
    }
}

/// An input assignment seen as plain values (zero-based input indices).
pub struct MappingView {
    /// Inputs for roll, pitch, throttle and yaw.
    pub primary: Seq<usize>,
    /// Inputs for the auxiliary outputs 6-9.
    pub auxiliary: Seq<usize>,
    /// Inversion of the eight outputs: the four primaries, then the auxiliaries.
    pub inverted: Seq<bool>,
    /// Calibration per input, when set.
    pub calibration: Option<Seq<ChannelCalibration>>,
}

pub open spec fn mapping_wf(m: MappingView) -> bool {
    &&& m.primary.len() == 4
    &&& m.auxiliary.len() == 4
    &&& m.inverted.len() == 8
    &&& forall|k: int| 0 <= k < 4 ==> #[trigger] m.primary[k] < 8
    &&& forall|k: int| 0 <= k < 4 ==> #[trigger] m.auxiliary[k] < 8
    &&& (m.calibration matches Some(c) ==> c.len() == 8)
}

pub open spec fn calibration_for(m: MappingView, input: int) -> Option<ChannelCalibration> {
    match m.calibration {
        None => None,
        Some(c) => Some(c[input]),
    }
}

/// Output `k` of the mapping for decoded inputs `channels`: outputs 1-4 from
/// the primaries, 5 (arm) held low, 6-9 from the auxiliaries, the rest at
/// their safe values; an input that was not decoded leaves its output safe.
pub open spec fn mapped_value(m: MappingView, channels: Seq<Option<u8>>, k: int) -> u16 {
    if 0 <= k < 4 {
        match channels[m.primary[k] as int] {
            Some(v) => output_spec(v, m.inverted[k], calibration_for(m, m.primary[k] as int)),
            None => safe_value(k),
        }
    } else if 5 <= k < 9 {
        match channels[m.auxiliary[k - 5] as int] {
            Some(v) => output_spec(v, m.inverted[k - 1], calibration_for(m, m.auxiliary[k - 5] as int)),
            None => safe_value(k),
        }
    } else {
        safe_value(k)
    }
}

/// The inversion flag that output `k` follows: outputs 1-4 (indices 0-3)
/// the flags of roll, pitch, throttle and yaw, outputs 6-9 (indices 5-8)
/// the flags 4-7 of the auxiliaries.
pub open spec fn own_flag(k: int) -> int {
    if k < 4 {
        k
    } else {
        k - 1
    }
}

/// The input that drives output `k` (for outputs 1-4 and 6-9).
pub open spec fn driving_input(m: MappingView, k: int) -> int {
    if k < 4 {
        m.primary[k] as int
    } else {
        m.auxiliary[k - 5] as int
    }
}

/// An output is inverted by its own flag alone: changing any other
/// inversion flag leaves it as it was.
pub proof fn law_output_follows_only_its_own_flag(
    m: MappingView,
    channels: Seq<Option<u8>>,
    k: int,
    flag: int,
    value: bool,
)
    requires
        mapping_wf(m),
        0 <= k < 16,
        0 <= flag < 8,
        flag != own_flag(k),
    ensures
        mapped_value(MappingView { inverted: m.inverted.update(flag, value), ..m }, channels, k) == mapped_value(
            m,
            channels,
            k,
        ),
{
}

/// Inverting an output reads its input mirrored: with its flag set, output
/// `k` for input value `v` is what it is with the flag clear for `255 - v`.
pub proof fn law_inversion_mirrors_the_input(m: MappingView, channels: Seq<Option<u8>>, k: int, v: u8)
    requires
        mapping_wf(m),
        0 <= k < 4 || 5 <= k < 9,
        driving_input(m, k) < channels.len(),
        channels[driving_input(m, k)] == Some(v),
    ensures
        mapped_value(MappingView { inverted: m.inverted.update(own_flag(k), true), ..m }, channels, k)
            == mapped_value(
            MappingView { inverted: m.inverted.update(own_flag(k), false), ..m },
            channels.update(driving_input(m, k), Some((255 - v) as u8)),
            k,
        ),
{
}

/// An output whose flag is clear and whose input has no calibration is the
/// input scaled to microseconds; with the flag set, the mirrored input
/// scaled. An input that was not decoded leaves the output at its safe value.
pub proof fn law_uncalibrated_output_scales_its_input(m: MappingView, channels: Seq<Option<u8>>, k: int)
    requires
        mapping_wf(m),
        m.calibration is None,
        0 <= k < 4 || 5 <= k < 9,
        driving_input(m, k) < channels.len(),
    ensures
        channels[driving_input(m, k)] matches Some(v) ==> mapped_value(m, channels, k) == if m.inverted[own_flag(k)] {
            scale_spec((255 - v) as u8)
        } else {
            scale_spec(v)
        },
        channels[driving_input(m, k)] is None ==> mapped_value(m, channels, k) == safe_value(k),
{
}

/// Which adapter inputs drive which RC outputs.
#[derive(Clone, Copy, Debug, Eq, PartialEq)]
pub struct RcMapping {
    primary_indices: [usize; PRIMARY_CHANNEL_COUNT],
    auxiliary_indices: [usize; AUXILIARY_CHANNEL_COUNT],
    inverted: [bool; CHANNEL_COUNT],
    calibration: Option<[ChannelCalibration; CHANNEL_COUNT]>,
}

impl View for RcMapping {
    type V = MappingView;

    closed spec fn view(&self) -> MappingView {
        MappingView {
            primary: self.primary_indices@,
            auxiliary: self.auxiliary_indices@,
            inverted: self.inverted@,
            calibration: match self.calibration {
                None => None,
                Some(c) => Some(c@),
            },
        }
    }
}

impl RcMapping {
    #[verifier::type_invariant]
    closed spec fn well_formed(&self) -> bool {
        mapping_wf(self@)
    }

    /// Assigns one-based inputs to roll, pitch, throttle and yaw; the four
    /// other inputs drive the auxiliaries in ascending order.
    pub fn new(one_based_channels: [usize; PRIMARY_CHANNEL_COUNT], inverted: [bool; PRIMARY_CHANNEL_COUNT]) -> (result:
        Result<Self, MappingError>)
        ensures
            match first_channel_error(one_based_channels@, 4) {
                Some(e) => result == Err::<Self, MappingError>(e),
                None => result matches Ok(mapping) && {
                    &&& mapping_wf(mapping@)
                    &&& mapping@.primary == Seq::new(4, |k: int| (one_based_channels@[k] - 1) as usize)
                    &&& mapping@.auxiliary == inputs_not_in(mapping@.primary, 8)
                    &&& mapping@.inverted == inverted@ + seq![false, false, false, false]
                    &&& mapping@.calibration is None
                },
            },
    {
        check_channels(one_based_channels.as_slice(), PRIMARY_CHANNEL_COUNT)?;
        proof { lemma_no_channel_error(one_based_channels@, 4); }
        let primary_indices: [usize; PRIMARY_CHANNEL_COUNT] = [
            one_based_channels[0] - 1,
            one_based_channels[1] - 1,
            one_based_channels[2] - 1,
            one_based_channels[3] - 1,
        ];
        let ghost primary = primary_indices@;
        assert(primary =~= Seq::new(4, |k: int| (one_based_channels@[k] - 1) as usize));
        assert(primary.no_duplicates());
        let mut auxiliary: Vec<usize> = Vec::new();
        let mut input: usize = 0;
        while input < CHANNEL_COUNT
            invariant
                input <= 8,
                primary == primary_indices@,
                auxiliary@ == inputs_not_in(primary, input as nat),
            decreases 8 - input,
        {
            let mut found = false;
            let mut k: usize = 0;
            while k < PRIMARY_CHANNEL_COUNT
                invariant
                    k <= 4,
                    primary == primary_indices@,
                    found == exists|j: int| 0 <= j < k && primary[j] == input,
                decreases 4 - k,
            {
                if primary_indices[k] == input {
                    found = true;
                }
                k += 1;
            }
            assert(found == primary.contains(input));
            if !found {
                auxiliary.push(input);
            }
            input += 1;
        }
        proof {
            lemma_four_auxiliaries(primary);
            lemma_inputs_not_in_bounds(primary, 8);
        }
        let auxiliary_indices = [auxiliary[0], auxiliary[1], auxiliary[2], auxiliary[3]];
        assert(auxiliary_indices@ =~= auxiliary@);
        let all_inverted = [inverted[0], inverted[1], inverted[2], inverted[3], false, false, false, false];
        assert(all_inverted@ =~= inverted@ + seq![false, false, false, false]);
        Ok(RcMapping { primary_indices, auxiliary_indices, inverted: all_inverted, calibration: None })
    }

    /// Assigns all eight one-based inputs: the first four to roll, pitch,
    /// throttle and yaw, the rest to the auxiliaries.
    pub fn new_full(one_based_channels: [usize; CHANNEL_COUNT], inverted: [bool; CHANNEL_COUNT]) -> (result: Result<
        Self,
        MappingError,
    >)
        ensures
            match first_channel_error(one_based_channels@, 8) {
                Some(e) => result == Err::<Self, MappingError>(e),
                None => result matches Ok(mapping) && {
                    &&& mapping_wf(mapping@)
                    &&& mapping@.primary == Seq::new(4, |k: int| (one_based_channels@[k] - 1) as usize)
                    &&& mapping@.auxiliary == Seq::new(4, |k: int| (one_based_channels@[k + 4] - 1) as usize)
                    &&& mapping@.inverted == inverted@
                    &&& mapping@.calibration is None
                },
            },
    {
        check_channels(one_based_channels.as_slice(), CHANNEL_COUNT)?;
        proof { lemma_no_channel_error(one_based_channels@, 8); }
        let c = one_based_channels;
        let mapping = RcMapping {
            primary_indices: [c[0] - 1, c[1] - 1, c[2] - 1, c[3] - 1],
            auxiliary_indices: [c[4] - 1, c[5] - 1, c[6] - 1, c[7] - 1],
            inverted,
            calibration: None,
        };
        assert(mapping@.primary =~= Seq::new(4, |k: int| (one_based_channels@[k] - 1) as usize));
        assert(mapping@.auxiliary =~= Seq::new(4, |k: int| (one_based_channels@[k + 4] - 1) as usize));
        Ok(mapping)
    }

    /// The same assignment with per-input calibration.
    pub fn with_calibration(self, calibration: [ChannelCalibration; CHANNEL_COUNT]) -> (mapping: Self)
        ensures
            mapping@ == (MappingView { calibration: Some(calibration@), ..self@ }),
    {
        proof { use_type_invariant(&self); }
        RcMapping { calibration: Some(calibration), ..self }
    }

    /// One-based inputs of roll, pitch, throttle and yaw.
    pub fn primary_channels(&self) -> (channels: [usize; PRIMARY_CHANNEL_COUNT])
        ensures
            mapping_wf(self@),
            channels@ == Seq::new(4, |k: int| (self@.primary[k] + 1) as usize),
    {
        proof { use_type_invariant(self); }
        let channels = [
            self.primary_indices[0] + 1,
            self.primary_indices[1] + 1,
            self.primary_indices[2] + 1,
            self.primary_indices[3] + 1,
        ];
        assert(channels@ =~= Seq::new(4, |k: int| (self@.primary[k] + 1) as usize));
        channels
    }

    /// One-based inputs of all eight outputs: the primaries, then the auxiliaries.
    pub fn all_channels(&self) -> (channels: [usize; CHANNEL_COUNT])
        ensures
            mapping_wf(self@),
            channels@ == Seq::new(8, |k: int| (if k < 4 { self@.primary[k] } else { self@.auxiliary[k - 4] } + 1) as usize),
    {
        proof { use_type_invariant(self); }
        let channels = [
            self.primary_indices[0] + 1,
            self.primary_indices[1] + 1,
            self.primary_indices[2] + 1,
            self.primary_indices[3] + 1,
            self.auxiliary_indices[0] + 1,
            self.auxiliary_indices[1] + 1,
            self.auxiliary_indices[2] + 1,
            self.auxiliary_indices[3] + 1,
        ];
        assert(channels@ =~= Seq::new(8, |k: int| (if k < 4 { self@.primary[k] } else { self@.auxiliary[k - 4] } + 1) as usize));
        channels
    }

    pub fn inverted(&self) -> (inverted: [bool; CHANNEL_COUNT])
        ensures
            inverted@ == self@.inverted,
    {
        self.inverted
    }

    fn calibration_at(&self, input: usize) -> (c: Option<ChannelCalibration>)
        requires
            input < 8,
            mapping_wf(self@),
        ensures
            c == calibration_for(self@, input as int),
    {
        match &self.calibration {
            None => None,
            Some(c) => Some(c[input]),
        }
    }

    /// The RC channels for one decoded state. Every value lies within
    /// 988-2012 and channel 5 (arm) stays low: arming is decided elsewhere.
    pub fn map(&self, state: DecodedState) -> (channels: RcChannels)
        ensures
            mapping_wf(self@),
            channels@ == Seq::new(16, |k: int| mapped_value(self@, state@.channels, k)),
            forall|k: int| 0 <= k < 16 ==> RC_MIN_US <= #[trigger] channels@[k] <= RC_MAX_US,
            channels@[4] == RC_MIN_US,
    {
        proof { use_type_invariant(self); }
        let raw = state.channels();
        proof { state.lemma_channel_count(); }
        let mut values = *RcChannels::safe().values();
        let mut output_index: usize = 0;
        while output_index < PRIMARY_CHANNEL_COUNT
            invariant
                output_index <= 4,
                mapping_wf(self@),
                raw@ == state@.channels,
                raw@.len() == 8,
                forall|k: int| 0 <= k < output_index ==> values@[k] == mapped_value(self@, raw@, k),
                forall|k: int| output_index <= k < 16 ==> values@[k] == safe_value(k),
            decreases 4 - output_index,
        {
            let input = self.primary_indices[output_index];
            if let Some(v) = raw[input] {
                values[output_index] = output(v, self.inverted[output_index], self.calibration_at(input));
            }
            output_index += 1;
        }
        let mut offset: usize = 0;
        while offset < AUXILIARY_CHANNEL_COUNT
            invariant
                offset <= 4,
                mapping_wf(self@),
                raw@ == state@.channels,
                raw@.len() == 8,
                forall|k: int| 0 <= k < 4 ==> values@[k] == mapped_value(self@, raw@, k),
                values@[4] == safe_value(4),
                forall|k: int| 5 <= k < 5 + offset ==> values@[k] == mapped_value(self@, raw@, k),
                forall|k: int| 5 + offset <= k < 16 ==> values@[k] == safe_value(k),
            decreases 4 - offset,
        {
            let input = self.auxiliary_indices[offset];
            if let Some(v) = raw[input] {
                values[5 + offset] = output(v, self.inverted[4 + offset], self.calibration_at(input));
            }
            offset += 1;
        }
        let channels = RcChannels { values };
        proof {
            assert(channels@ =~= Seq::new(16, |k: int| mapped_value(self@, state@.channels, k)));
            assert forall|k: int| 0 <= k < 16 implies RC_MIN_US <= #[trigger] channels@[k] <= RC_MAX_US by {
                if 0 <= k < 4 {
                    if let Some(v) = raw@[self@.primary[k] as int] {
                        lemma_output_bounds(v, self@.inverted[k], calibration_for(self@, self@.primary[k] as int));
                    }
                } else if 5 <= k < 9 {
                    if let Some(v) = raw@[self@.auxiliary[k - 5] as int] {
                        lemma_output_bounds(v, self@.inverted[k - 1], calibration_for(self@, self@.auxiliary[k - 5] as int));
                    }
                }
            }
        }
        channels
    }
}

impl Default for RcMapping {
    /// Inputs 1-4 to roll, pitch, throttle and yaw, 5-8 to the auxiliaries,
    /// nothing inverted, no calibration.
    fn default() -> (mapping: Self)
        ensures
            mapping@.primary == seq![0usize, 1, 2, 3],
            mapping@.auxiliary == seq![4usize, 5, 6, 7],
            mapping@.inverted == seq![false, false, false, false, false, false, false, false],
            mapping@.calibration is None,
            mapping_wf(mapping@),
    {
        let mapping = RcMapping {
            primary_indices: [0, 1, 2, 3],
            auxiliary_indices: [4, 5, 6, 7],
            inverted: [false; 8],
            calibration: None,
        };
        assert(mapping@.primary =~= seq![0usize, 1, 2, 3]);
        assert(mapping@.auxiliary =~= seq![4usize, 5, 6, 7]);
        assert(mapping@.inverted =~= seq![false, false, false, false, false, false, false, false]);
        mapping
    }
}

/// Which input arms the aircraft, and how.
#[derive(Clone, Copy, Debug, Eq, PartialEq, Structural)]
pub struct ArmConfig {
    /// Zero-based input that drives arming; none means never armed.
    pub channel: Option<usize>,
    pub threshold: u8,
    pub hysteresis: u8,
    pub inverted: bool,
}

impl Default for ArmConfig {
    /// No arm input.
    fn default() -> (config: Self)
        ensures
            config == (ArmConfig { channel: None, threshold: 127, hysteresis: 4, inverted: false }),
    {
        ArmConfig { channel: None, threshold: 127, hysteresis: 4, inverted: false }
    }
}

/// The arm state after one decoded input: with no arm input (or no value for
/// it) disarmed; otherwise an armed controller stays armed until the value
/// falls to `threshold - hysteresis`, and a disarmed one arms once it reaches
/// `threshold + hysteresis` (both saturating).
pub open spec fn arm_next(config: ArmConfig, armed: bool, channels: Seq<Option<u8>>) -> bool {
    match config.channel {
        None => false,
        Some(c) => if c >= 8 {
            false
        } else {
            match channels[c as int] {
                None => false,
                Some(raw) => {
                    let v: u8 = if config.inverted { (255 - raw) as u8 } else { raw };
                    let lower = if config.threshold >= config.hysteresis {
                        config.threshold - config.hysteresis
                    } else {
                        0
                    };
                    let upper = if config.threshold + config.hysteresis <= 255 {
                        config.threshold + config.hysteresis
                    } else {
                        255
                    };
                    if armed {
                        !(v <= lower)
                    } else {
                        v >= upper
                    }
                },
            }
        },
    }
}

/// Arms from one input with hysteresis.
#[derive(Clone, Copy, Debug)]
pub struct ArmController {
    config: ArmConfig,
    armed: bool,
}

impl ArmController {
    pub closed spec fn config_spec(&self) -> ArmConfig {
        self.config
    }

    pub closed spec fn armed_spec(&self) -> bool {
        self.armed
    }

    pub fn new(config: ArmConfig) -> (controller: Self)
        ensures
            controller.config_spec() == config,
            !controller.armed_spec(),
    {
        ArmController { config, armed: false }
    }

    /// Takes one decoded state and returns whether the controller is armed.
    pub fn update(&mut self, state: DecodedState) -> (armed: bool)
        ensures
            final(self).config_spec() == old(self).config_spec(),
            armed == final(self).armed_spec(),
            armed == arm_next(old(self).config_spec(), old(self).armed_spec(), state@.channels),
    {
        proof { state.lemma_channel_count(); }
        let value = match self.config.channel {
            None => None,
            Some(c) => state.channel(c),
        };
        self.armed = match value {
            None => false,
            Some(raw) => {
                let v = if self.config.inverted { u8::MAX - raw } else { raw };
                let lower = self.config.threshold.saturating_sub(self.config.hysteresis);
                let upper = self.config.threshold.saturating_add(self.config.hysteresis);
                if self.armed {
                    !(v <= lower)
                } else {
                    v >= upper
                }
            },
        };
        self.armed
    }

    pub fn is_armed(&self) -> (armed: bool)
        ensures
            armed == self.armed_spec(),
    {
        self.armed
    }
}

/// An accepted stick assignment reads back unchanged: the one-based inputs
/// a mapping reports are the ones it was made from.
pub proof fn law_assignment_reads_back(channels: Seq<usize>, n: nat)
    requires
        n == 4 || n == 8,
        channels.len() == n,
        first_channel_error(channels, n) is None,
    ensures
        Seq::new(n, |k: int| ((channels[k] - 1) as usize + 1) as usize) == channels,
        forall|j: int, k: int| 0 <= j < k < n ==> channels[j] != channels[k],
{
    lemma_no_channel_error(channels, n);
    assert(Seq::new(n, |k: int| ((channels[k] - 1) as usize + 1) as usize) =~= channels);
}

/// Scaling spreads the byte range over the channel range: 0 gives 988, 255
/// gives 2012, 126-129 give the centre 1500, and a larger byte never gives
/// a smaller value.
pub proof fn law_scale_spans_the_channel_range(v: u8, w: u8)
    ensures
        scale_spec(0) == 988,
        scale_spec(255) == 2012,
        126 <= v <= 129 ==> scale_spec(v) == 1500,
        v <= w ==> scale_spec(v) <= scale_spec(w),
{
    let a = v as int;
    let b = w as int;
    assert((255 * 1024 + 127) / 255 == 1024);
    if a <= b {
        assert((a * 1024 + 127) / 255 <= (b * 1024 + 127) / 255) by (nonlinear_arith)
            requires a <= b;
        if a < 126 {
            assert((a * 1024 + 127) / 255 <= 502) by (nonlinear_arith)
                requires 0 <= a < 126;
        }
        if b > 129 {
            assert((b * 1024 + 127) / 255 >= 522) by (nonlinear_arith)
                requires b > 129;
        }
    }
}

/// Inverting an uncalibrated input mirrors its output about the centre:
/// the two outputs always sum to 3000 us.
pub proof fn law_inversion_mirrors_output(value: u8)
    ensures
        output_spec(value, true, None) + output_spec(value, false, None) == 3000,
{
    let v = value as int;
    let w = 255 - v;
    if 126 <= v <= 129 {
    } else {
        let x = v * 1024 + 127;
        let q = x / 255;
        let r = x % 255;
        assert(x == q * 255 + r && 0 <= r < 255);
        assert(w * 1024 + 127 == (1024 - q) * 255 + (254 - r)) by (nonlinear_arith)
            requires x == v * 1024 + 127, x == q * 255 + r, w == 255 - v;
        assert((w * 1024 + 127) / 255 == 1024 - q) by (nonlinear_arith)
            requires w * 1024 + 127 == (1024 - q) * 255 + (254 - r), 0 <= r < 255;
    }
}

/// The arm switch has hysteresis: an armed controller stays armed while the
/// input stays above `threshold - hysteresis`, and a disarmed one stays
/// disarmed while it stays below `threshold + hysteresis`.
pub proof fn law_arm_hysteresis(config: ArmConfig, channels: Seq<Option<u8>>, value: u8)
    requires
        config.channel matches Some(c) && c < 8 && channels.len() == 8 && channels[c as int] == Some(value),
        config.threshold >= config.hysteresis,
        config.threshold + config.hysteresis <= 255,
    ensures
        ({
            let v = if config.inverted { 255 - value } else { value as int };
            &&& (v > config.threshold - config.hysteresis ==> arm_next(config, true, channels))
            &&& (v < config.threshold + config.hysteresis ==> !arm_next(config, false, channels))
            &&& (v >= config.threshold + config.hysteresis ==> arm_next(config, false, channels))
            &&& (v <= config.threshold - config.hysteresis ==> !arm_next(config, true, channels))
        }),
{
}

/// Without an arm input the controller never arms.
pub proof fn law_no_arm_input_never_arms(config: ArmConfig, armed: bool, channels: Seq<Option<u8>>)
    requires
        config.channel is None,
    ensures
        !arm_next(config, armed, channels),
{
}

} // verus!

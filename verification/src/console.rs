use vstd::prelude::*;
use vstd::string::*;
use vstd::utf8::{encode_utf8, is_ascii_chars, is_ascii_chars_encode_utf8, is_char_boundary};

use std::time::Duration;

use crate::backend::{BackendEvent, OutputMode};
use crate::esphome::ServerIdentity;
use crate::crsf::{crsf_error_text, telemetry_spec, CrsfFrame, Telemetry, VerticalSpeed};
use crate::reader::saturating_inc;
use crate::rc::{first_channel_error, mapping_wf, MappingError, RcMapping};
use crate::text::{decimal_chars, push_decimal};
use crate::CHANNEL_COUNT;

verus! {

/// Highest throttle, in microseconds, at which live forwarding may start.
pub const SAFE_THROTTLE_MAX_US: u16 = 1050;
/// Transmit rate when none is given.
pub const DEFAULT_TRANSMIT_RATE_HZ: u16 = 20;
/// Highest transmit rate accepted.
pub const MAX_TRANSMIT_RATE_HZ: u16 = 50;
/// Oldest controller input, in nanoseconds, that live forwarding may start from.
pub const LIVE_INPUT_MAX_AGE_NS: u64 = 150_000_000;

/// A refused console configuration.
#[derive(Clone, Copy, Debug, Eq, PartialEq, Structural)]
pub enum ConfigError {
    TransmitRate { value: u16, maximum: u16 },
    Mapping(MappingError),
}

impl ConfigError {
    /// The error in words.
    pub fn message(&self) -> (text: String)
        ensures
            text@ == match *self {
                ConfigError::TransmitRate { value, maximum } => "transmit rate "@ + decimal_chars(value as nat)
                    + " Hz is invalid; use 1-"@ + decimal_chars(maximum as nat) + " Hz"@,
                ConfigError::Mapping(error) => mapping_error_text(error),
            },
    {
        match *self {
            ConfigError::TransmitRate { value, maximum } => {
                let mut text = String::from_str("transmit rate ");
                push_decimal(&mut text, value as u128);
                text.append(" Hz is invalid; use 1-");
                push_decimal(&mut text, maximum as u128);
                text.append(" Hz");
                text
            },
            ConfigError::Mapping(error) => error.message(),
        }
    }
}

/// `MappingError::message` of the error.
pub open spec fn mapping_error_text(error: MappingError) -> Seq<char> {
    match error {
        MappingError::ChannelOutOfRange { channel } => "channel "@ + decimal_chars(channel as nat)
            + " is outside the valid 1-8 range"@,
        MappingError::DuplicateChannel { channel } => "channel "@ + decimal_chars(channel as nat)
            + " is assigned to more than one primary control"@,
    }
}

/// Checks the command-line configuration: a transmit rate of 1-50 Hz, then
/// the stick assignment, which becomes the mapping.
pub fn configured_mapping(transmit_rate_hz: u16, channels: [usize; 4], inverted: [bool; 4]) -> (result: Result<
    RcMapping,
    ConfigError,
>)
    ensures
        !(1 <= transmit_rate_hz <= MAX_TRANSMIT_RATE_HZ) ==> result == Err::<RcMapping, ConfigError>(
            ConfigError::TransmitRate { value: transmit_rate_hz, maximum: MAX_TRANSMIT_RATE_HZ },
        ),
        1 <= transmit_rate_hz <= MAX_TRANSMIT_RATE_HZ ==> match first_channel_error(channels@, 4) {
            Some(error) => result == Err::<RcMapping, ConfigError>(ConfigError::Mapping(error)),
            None => result matches Ok(mapping) && {
                &&& mapping_wf(mapping@)
                &&& mapping@.primary == Seq::new(4, |k: int| (channels@[k] - 1) as usize)
                &&& mapping@.inverted == inverted@ + seq![false, false, false, false]
                &&& mapping@.calibration is None
            },
        },
{
    if !(1 <= transmit_rate_hz && transmit_rate_hz <= MAX_TRANSMIT_RATE_HZ) {
        return Err(ConfigError::TransmitRate { value: transmit_rate_hz, maximum: MAX_TRANSMIT_RATE_HZ });
    }
    match RcMapping::new(channels, inverted) {
        Ok(mapping) => Ok(mapping),
        Err(error) => Err(ConfigError::Mapping(error)),
    }
}

/// Why the console did or did not change the output mode.
#[derive(Clone, Copy, Debug, Eq, PartialEq, Structural)]
pub enum LiveToggle {
    /// Live forwarding stopped.
    SafeHoldEnabled,
    /// No controller report has arrived yet.
    NoReport,
    /// The last controller report is too old.
    StaleInput,
    /// The throttle (in microseconds) is above the safe limit.
    ThrottleHigh { throttle: u16 },
    /// Live forwarding started.
    LiveEnabled,
}

impl LiveToggle {
    /// The notice the console shows for it.
    pub fn notice(&self) -> (text: String)
        ensures
            text@ == match *self {
                LiveToggle::SafeHoldEnabled => "Safe hold enabled"@,
                LiveToggle::NoReport => "Cannot go live before the first controller report"@,
                LiveToggle::StaleInput => "Cannot go live while controller input is stale"@,
                LiveToggle::ThrottleHigh { throttle } => "Cannot go live: throttle is "@ + decimal_chars(
                    throttle as nat,
                ) + " us (must be <= "@ + decimal_chars(SAFE_THROTTLE_MAX_US as nat) + ")"@,
                LiveToggle::LiveEnabled => "Live forwarding enabled; controller considered armed"@,
            },
    {
        match *self {
            LiveToggle::SafeHoldEnabled => String::from_str("Safe hold enabled"),
            LiveToggle::NoReport => String::from_str("Cannot go live before the first controller report"),
            LiveToggle::StaleInput => String::from_str("Cannot go live while controller input is stale"),
            LiveToggle::ThrottleHigh { throttle } => {
                let mut text = String::from_str("Cannot go live: throttle is ");
                push_decimal(&mut text, throttle as u128);
                text.append(" us (must be <= ");
                push_decimal(&mut text, SAFE_THROTTLE_MAX_US as u128);
                text.append(")");
                text
            },
            LiveToggle::LiveEnabled => String::from_str("Live forwarding enabled; controller considered armed"),
        }
    }
}

/// What the live key does: from live it always returns to safe hold; from
/// safe hold it goes live only with a controller report at most 150 ms old
/// (`input_age`, in nanoseconds) and the mapped throttle at or below 1050 us.
pub open spec fn toggle_live_spec(mode: OutputMode, input_age: Option<u64>, throttle: u16) -> LiveToggle {
    if mode == OutputMode::Live {
        LiveToggle::SafeHoldEnabled
    } else {
        match input_age {
            None => LiveToggle::NoReport,
            Some(age) => if age > LIVE_INPUT_MAX_AGE_NS {
                LiveToggle::StaleInput
            } else if throttle > SAFE_THROTTLE_MAX_US {
                LiveToggle::ThrottleHigh { throttle }
            } else {
                LiveToggle::LiveEnabled
            },
        }
    }
}

/// The live key: the new output mode and why.
pub fn toggle_live(mode: OutputMode, input_age: Option<u64>, throttle: u16) -> (result: (OutputMode, LiveToggle))
    ensures
        result.1 == toggle_live_spec(mode, input_age, throttle),
        result.0 == if result.1 == LiveToggle::LiveEnabled { OutputMode::Live } else { OutputMode::SafeHold },
{
    if mode == OutputMode::Live {
        return (OutputMode::SafeHold, LiveToggle::SafeHoldEnabled);
    }
    match input_age {
        None => (OutputMode::SafeHold, LiveToggle::NoReport),
        Some(age) => {
            if age > LIVE_INPUT_MAX_AGE_NS {
                (OutputMode::SafeHold, LiveToggle::StaleInput)
            } else if throttle > SAFE_THROTTLE_MAX_US {
                (OutputMode::SafeHold, LiveToggle::ThrottleHigh { throttle })
            } else {
                (OutputMode::Live, LiveToggle::LiveEnabled)
            }
        },
    }
}

/// The keys the mapping editor reacts to.
#[derive(Clone, Copy, Debug, Eq, PartialEq, Structural)]
pub enum EditorKey {
    Escape,
    Up,
    Down,
    Left,
    Right,
    Invert,
    Enter,
    Other,
}

/// What the console does after a key in the mapping editor.
#[derive(Clone, Copy, Debug, Eq, PartialEq, Structural)]
pub enum MappingEditorAction {
    Continue,
    Cancel,
    Save,
}

/// The mapping being edited: one one-based input per output (roll, pitch,
/// throttle, yaw, then the auxiliaries), their inversion, the selected
/// output, and the last refusal.
#[derive(Clone, Debug)]
pub struct MappingEditor {
    pub selected: usize,
    pub channels: [usize; CHANNEL_COUNT],
    pub inverted: [bool; CHANNEL_COUNT],
    pub error: Option<String>,
}

/// The selection is an output and every input is one of the eight.
pub open spec fn editor_wf(editor: MappingEditor) -> bool {
    &&& editor.selected < CHANNEL_COUNT
    &&& forall|k: int| 0 <= k < CHANNEL_COUNT ==> 1 <= #[trigger] editor.channels@[k] <= CHANNEL_COUNT
}

/// The input one below `channel`, but not below the first.
pub open spec fn input_below(channel: usize) -> usize {
    if channel <= 1 { 1 } else { (channel - 1) as usize }
}

/// The input one above `channel`, but not above the eighth.
pub open spec fn input_above(channel: usize) -> usize {
    if channel >= CHANNEL_COUNT { CHANNEL_COUNT } else { (channel + 1) as usize }
}

impl MappingEditor {
    /// An editor on the mapping's current assignment, the first output selected.
    pub fn from_mapping(mapping: &RcMapping) -> (editor: Self)
        ensures
            editor_wf(editor),
            editor.selected == 0,
            editor.channels@ == Seq::new(8, |k: int| (if k < 4 { mapping@.primary[k] } else { mapping@.auxiliary[k - 4] } + 1) as usize),
            editor.inverted@ == mapping@.inverted,
            editor.error is None,
    {
        MappingEditor { selected: 0, channels: mapping.all_channels(), inverted: mapping.inverted(), error: None }
    }

    /// The same editor showing a refusal.
    pub fn with_error(self, error: String) -> (editor: Self)
        ensures
            editor.selected == self.selected,
            editor.channels == self.channels,
            editor.inverted == self.inverted,
            editor.error == Some(error),
    {
        MappingEditor { error: Some(error), ..self }
    }

    /// Saves the edited assignment as a full mapping; a refused one stays in
    /// the editor with the refusal shown.
    pub fn save(self) -> (result: Result<RcMapping, MappingEditor>)
        ensures
            match first_channel_error(self.channels@, 8) {
                Some(error) => result matches Err(editor) && {
                    &&& editor.selected == self.selected
                    &&& editor.channels == self.channels
                    &&& editor.inverted == self.inverted
                    &&& editor.error matches Some(text) && text@ == mapping_error_text(error)
                },
                None => result matches Ok(mapping) && {
                    &&& mapping_wf(mapping@)
                    &&& mapping@.primary == Seq::new(4, |k: int| (self.channels@[k] - 1) as usize)
                    &&& mapping@.auxiliary == Seq::new(4, |k: int| (self.channels@[k + 4] - 1) as usize)
                    &&& mapping@.inverted == self.inverted@
                    &&& mapping@.calibration is None
                },
            },
    {
        match RcMapping::new_full(self.channels, self.inverted) {
            Ok(mapping) => Ok(mapping),
            Err(error) => {
                let text = error.message();
                Err(self.with_error(text))
            },
        }
    }
}

/// One key in the mapping editor: up and down move the selection, left and
/// right step the selected output's input within 1-8, `i` flips its
/// inversion (each edit clears the refusal shown), Enter saves and Escape
/// cancels.
pub fn handle_mapping_event(key: EditorKey, editor: &mut MappingEditor) -> (action: MappingEditorAction)
    requires
        key == EditorKey::Left || key == EditorKey::Right || key == EditorKey::Invert ==> old(editor).selected
            < CHANNEL_COUNT,
        key == EditorKey::Right ==> old(editor).channels@[old(editor).selected as int] < usize::MAX,
        key == EditorKey::Down ==> old(editor).selected < usize::MAX,
    ensures
        editor_wf(*old(editor)) ==> editor_wf(*final(editor)),
        old(editor).selected < CHANNEL_COUNT ==> final(editor).selected < CHANNEL_COUNT,
        action == match key {
            EditorKey::Escape => MappingEditorAction::Cancel,
            EditorKey::Enter => MappingEditorAction::Save,
            _ => MappingEditorAction::Continue,
        },
        final(editor).selected == match key {
            EditorKey::Up => if old(editor).selected == 0 { 0 } else { (old(editor).selected - 1) as usize },
            EditorKey::Down => if old(editor).selected + 1 >= CHANNEL_COUNT {
                (CHANNEL_COUNT - 1) as usize
            } else {
                (old(editor).selected + 1) as usize
            },
            _ => old(editor).selected,
        },
        final(editor).channels@ == match key {
            EditorKey::Left => old(editor).channels@.update(
                old(editor).selected as int,
                input_below(old(editor).channels@[old(editor).selected as int]),
            ),
            EditorKey::Right => old(editor).channels@.update(
                old(editor).selected as int,
                input_above(old(editor).channels@[old(editor).selected as int]),
            ),
            _ => old(editor).channels@,
        },
        final(editor).inverted@ == match key {
            EditorKey::Invert => old(editor).inverted@.update(
                old(editor).selected as int,
                !old(editor).inverted@[old(editor).selected as int],
            ),
            _ => old(editor).inverted@,
        },
        final(editor).error == match key {
            EditorKey::Left | EditorKey::Right | EditorKey::Invert => None,
            _ => old(editor).error,
        },
{
    let selected = editor.selected;
    match key {
        EditorKey::Escape => MappingEditorAction::Cancel,
        EditorKey::Enter => MappingEditorAction::Save,
        EditorKey::Up => {
            editor.selected = if selected == 0 { 0 } else { selected - 1 };
            MappingEditorAction::Continue
        },
        EditorKey::Down => {
            editor.selected = if selected + 1 >= CHANNEL_COUNT { CHANNEL_COUNT - 1 } else { selected + 1 };
            MappingEditorAction::Continue
        },
        EditorKey::Left => {
            let channel = editor.channels[selected];
            editor.channels[selected] = if channel <= 1 { 1 } else { channel - 1 };
            editor.error = None;
            MappingEditorAction::Continue
        },
        EditorKey::Right => {
            let channel = editor.channels[selected];
            editor.channels[selected] = if channel >= CHANNEL_COUNT { CHANNEL_COUNT } else { channel + 1 };
            editor.error = None;
            MappingEditorAction::Continue
        },
        EditorKey::Invert => {
            editor.inverted[selected] = !editor.inverted[selected];
            editor.error = None;
            MappingEditorAction::Continue
        },
        EditorKey::Other => MappingEditorAction::Continue,
    }
}

/// The UTF-8 bytes of `"..."`.
pub open spec fn ellipsis_bytes() -> Seq<u8> {
    seq![46u8, 46u8, 46u8]
}

/// The UTF-8 encoding of a concatenation is the concatenation of the
/// encodings.
proof fn lemma_encode_utf8_concat(a: Seq<char>, b: Seq<char>)
    ensures
        encode_utf8(a + b) == encode_utf8(a) + encode_utf8(b),
    decreases a.len(),
{
    if a.len() == 0 {
        assert(a + b =~= b);
        assert(encode_utf8(a) + encode_utf8(b) =~= encode_utf8(b));
    } else {
        lemma_encode_utf8_concat(a.drop_first(), b);
        assert((a + b).drop_first() =~= a.drop_first() + b);
        assert((a + b)[0] == a[0]);
        assert(encode_utf8(a + b) =~= encode_utf8(a) + encode_utf8(b));
    }
}

/// A run of `n` dots encodes as `n` bytes 46.
proof fn lemma_dots_encode(n: nat)
    ensures
        encode_utf8(Seq::new(n, |i: int| '.')) == Seq::new(n, |i: int| 46u8),
{
    let dots = Seq::new(n, |i: int| '.');
    assert(is_ascii_chars(dots));
    is_ascii_chars_encode_utf8(dots);
    assert(('.' as u8) == 46u8);
    assert(encode_utf8(dots) =~= Seq::new(n, |i: int| 46u8));
}

/// Shortens text to at most `maximum` bytes of UTF-8: text that is too long
/// keeps its first `maximum - 3` bytes and gets `...`; when even that does
/// not fit, only dots remain. The cut must fall between two characters.
pub fn truncate_ascii(value: &str, maximum: usize) -> (text: String)
    requires
        encode_utf8(value@).len() <= usize::MAX,
        encode_utf8(value@).len() > maximum && maximum > 3 ==> is_char_boundary(
            encode_utf8(value@),
            maximum - 3,
        ),
    ensures
        encode_utf8(text@) == if encode_utf8(value@).len() <= maximum {
            encode_utf8(value@)
        } else if maximum <= 3 {
            Seq::new(maximum as nat, |i: int| 46u8)
        } else {
            encode_utf8(value@).subrange(0, maximum - 3) + ellipsis_bytes()
        },
{
    let length = value.len();
    assert(value.spec_bytes() == encode_utf8(value@));
    if length <= maximum {
        return value.to_owned();
    }
    if maximum <= 3 {
        let mut text = String::new();
        let mut i: usize = 0;
        while i < maximum
            invariant
                i <= maximum,
                text@ == Seq::new(i as nat, |j: int| '.'),
            decreases maximum - i,
        {
            text.append(".");
            proof { reveal_strlit("."); }
            i += 1;
            assert(text@ =~= Seq::new(i as nat, |j: int| '.'));
        }
        proof { lemma_dots_encode(maximum as nat); }
        return text;
    }
    let (head, _) = value.split_at(maximum - 3);
    let mut text = head.to_owned();
    text.append("...");
    proof {
        reveal_strlit("...");
        lemma_encode_utf8_concat(head@, "..."@);
        assert("..."@ =~= Seq::new(3, |i: int| '.'));
        lemma_dots_encode(3);
        assert(ellipsis_bytes() =~= Seq::new(3, |i: int| 46u8));
    }
    text
}

/// Output goes live only from safe hold, with a controller report at most
/// 150 ms old and the throttle at or below 1050 us; from live, the key
/// always returns to safe hold.
pub proof fn law_live_needs_fresh_low_throttle(mode: OutputMode, input_age: Option<u64>, throttle: u16)
    ensures
        toggle_live_spec(mode, input_age, throttle) == LiveToggle::LiveEnabled ==> {
            &&& mode == OutputMode::SafeHold
            &&& input_age matches Some(age) && age <= LIVE_INPUT_MAX_AGE_NS
            &&& throttle <= SAFE_THROTTLE_MAX_US
        },
        mode == OutputMode::Live ==> toggle_live_spec(mode, input_age, throttle) == LiveToggle::SafeHoldEnabled,
{
}

/// The editor keeps every input within 1-8, whatever keys are pressed.
pub proof fn law_editor_inputs_stay_in_range(channel: usize)
    requires
        1 <= channel <= CHANNEL_COUNT,
    ensures
        1 <= input_below(channel) <= CHANNEL_COUNT,
        1 <= input_above(channel) <= CHANNEL_COUNT,
        input_below(input_above(channel)) == channel || channel == CHANNEL_COUNT,
        input_above(input_below(channel)) == channel || channel == 1,
{
}

/// Name of a telemetry kind, as `Telemetry::name` gives it.
pub open spec fn telemetry_kind(t: Telemetry<Seq<char>>) -> Seq<char> {
    match t {
        Telemetry::Gps { .. } => "GPS"@,
        Telemetry::Vario { .. } => "Vario"@,
        Telemetry::Battery { .. } => "Battery"@,
        Telemetry::BarometricAltitude { .. } => "Barometric altitude"@,
        Telemetry::Heartbeat => "Heartbeat"@,
        Telemetry::Barometer { .. } => "Barometer"@,
        Telemetry::Magnetometer { .. } => "Magnetometer"@,
        Telemetry::Attitude { .. } => "Attitude"@,
        Telemetry::FlightMode(_) => "Flight mode"@,
        Telemetry::DeviceInfo => "Device info"@,
        Telemetry::MspResponse => "MSP response"@,
        Telemetry::Range { .. } => "Range"@,
        Telemetry::Unknown { .. } => "Unknown"@,
    }
}

/// Last GPS reading, in the units of the frame.
#[derive(Clone, Copy, Debug, Eq, PartialEq, Structural)]
pub struct GpsTelemetry {
    pub latitude_e7: i32,
    pub longitude_e7: i32,
    pub ground_speed_dkmh: u16,
    pub heading_cdeg: u16,
    pub altitude_metres: i32,
    pub satellites: u8,
}

/// Last battery reading, in the units of the frame.
#[derive(Clone, Copy, Debug, Eq, PartialEq, Structural)]
pub struct BatteryTelemetry {
    pub voltage_dv: u16,
    pub current_da: u16,
    pub capacity_mah: u32,
    pub remaining_percent: u8,
}

/// Last attitude reading, in radians times 10^4.
#[derive(Clone, Copy, Debug, Eq, PartialEq, Structural)]
pub struct AttitudeTelemetry {
    pub pitch_e4: i16,
    pub roll_e4: i16,
    pub yaw_e4: i16,
}

/// Last barometer reading, in the units of the frame.
#[derive(Clone, Copy, Debug, Eq, PartialEq, Structural)]
pub struct BarometerTelemetry {
    pub pressure_pa: i32,
    pub temperature_cdeg_c: i32,
}

#[derive(Clone, Copy, Debug, Eq, PartialEq, Structural)]
pub struct MagnetometerTelemetry {
    pub x: i16,
    pub y: i16,
    pub z: i16,
}

/// Last range reading per direction, in millimetres.
#[derive(Clone, Copy, Debug, Eq, PartialEq, Structural)]
pub struct RangeTelemetry {
    pub front_mm: Option<u16>,
    pub back_mm: Option<u16>,
    pub left_mm: Option<u16>,
    pub right_mm: Option<u16>,
}

/// What the console shows of the flight controller's CRSF telemetry: frame
/// counts, the last frame and its kind or error, and the latest reading of
/// each kind (times in nanoseconds on the console's clock).
#[derive(Debug)]
pub struct FlightControllerTelemetry {
    pub frames_received: u64,
    pub frames_rejected: u64,
    pub last_update: Option<u64>,
    pub last_frame: Option<CrsfFrame>,
    pub last_kind: Option<&'static str>,
    pub last_error: Option<String>,
    pub battery: Option<BatteryTelemetry>,
    pub attitude: Option<AttitudeTelemetry>,
    pub gps: Option<GpsTelemetry>,
    pub flight_mode: Option<String>,
    pub vertical_speed: Option<VerticalSpeed>,
    pub barometric_altitude_dm: Option<i32>,
    pub barometer: Option<BarometerTelemetry>,
    pub magnetometer: Option<MagnetometerTelemetry>,
    pub range: Option<RangeTelemetry>,
}

/// The readings other than the flight mode are those of `before`.
pub open spec fn numeric_readings_kept(after: &FlightControllerTelemetry, before: &FlightControllerTelemetry) -> bool {
    &&& after.battery == before.battery
    &&& after.attitude == before.attitude
    &&& after.gps == before.gps
    &&& after.vertical_speed == before.vertical_speed
    &&& after.barometric_altitude_dm == before.barometric_altitude_dm
    &&& after.barometer == before.barometer
    &&& after.magnetometer == before.magnetometer
    &&& after.range == before.range
}

/// The readings after taking in telemetry `t`: the kinds that `t` carries are
/// replaced by its values (a barometric altitude also brings a vertical
/// speed), every other reading is kept.
pub open spec fn readings_after(
    after: &FlightControllerTelemetry,
    before: &FlightControllerTelemetry,
    t: Telemetry<Seq<char>>,
) -> bool {
    &&& (match t {
        Telemetry::FlightMode(mode) => after.flight_mode matches Some(m) && m@ == mode,
        _ => after.flight_mode == before.flight_mode,
    })
    &&& after.gps == match t {
        Telemetry::Gps { latitude_e7, longitude_e7, ground_speed_dkmh, heading_cdeg, altitude_metres, satellites } =>
            Some(GpsTelemetry { latitude_e7, longitude_e7, ground_speed_dkmh, heading_cdeg, altitude_metres, satellites }),
        _ => before.gps,
    }
    &&& after.battery == match t {
        Telemetry::Battery { voltage_dv, current_da, capacity_mah, remaining_percent } =>
            Some(BatteryTelemetry { voltage_dv, current_da, capacity_mah, remaining_percent }),
        _ => before.battery,
    }
    &&& after.vertical_speed == match t {
        Telemetry::Vario { vertical_speed_cms } => Some(VerticalSpeed::CentimetresPerSecond(vertical_speed_cms)),
        Telemetry::BarometricAltitude { vertical_speed, .. } => Some(vertical_speed),
        _ => before.vertical_speed,
    }
    &&& after.barometric_altitude_dm == match t {
        Telemetry::BarometricAltitude { altitude_dm, .. } => Some(altitude_dm),
        _ => before.barometric_altitude_dm,
    }
    &&& after.barometer == match t {
        Telemetry::Barometer { pressure_pa, temperature_cdeg_c } => Some(BarometerTelemetry { pressure_pa, temperature_cdeg_c }),
        _ => before.barometer,
    }
    &&& after.magnetometer == match t {
        Telemetry::Magnetometer { x, y, z } => Some(MagnetometerTelemetry { x, y, z }),
        _ => before.magnetometer,
    }
    &&& after.attitude == match t {
        Telemetry::Attitude { pitch_e4, roll_e4, yaw_e4 } => Some(AttitudeTelemetry { pitch_e4, roll_e4, yaw_e4 }),
        _ => before.attitude,
    }
    &&& after.range == match t {
        Telemetry::Range { front_mm, back_mm, left_mm, right_mm } => Some(RangeTelemetry { front_mm, back_mm, left_mm, right_mm }),
        _ => before.range,
    }
}

impl Default for FlightControllerTelemetry {
    /// Nothing received yet.
    fn default() -> (telemetry: Self)
        ensures
            telemetry.frames_received == 0,
            telemetry.frames_rejected == 0,
            telemetry.last_update is None,
            telemetry.last_frame is None,
            telemetry.last_kind is None,
            telemetry.last_error is None,
            telemetry.battery is None && telemetry.attitude is None && telemetry.gps is None,
            telemetry.flight_mode is None && telemetry.vertical_speed is None,
            telemetry.barometric_altitude_dm is None && telemetry.barometer is None,
            telemetry.magnetometer is None && telemetry.range is None,
    {
        FlightControllerTelemetry {
            frames_received: 0,
            frames_rejected: 0,
            last_update: None,
            last_frame: None,
            last_kind: None,
            last_error: None,
            battery: None,
            attitude: None,
            gps: None,
            flight_mode: None,
            vertical_speed: None,
            barometric_altitude_dm: None,
            barometer: None,
            magnetometer: None,
            range: None,
        }
    }
}

impl FlightControllerTelemetry {
    /// Takes in one frame received at `now`: it is counted and kept; its
    /// telemetry updates the matching reading, or, when it does not decode,
    /// the frame counts as rejected and its error is shown.
    pub fn update(&mut self, frame: CrsfFrame, now: u64)
        ensures
            final(self).frames_received == saturating_inc(old(self).frames_received),
            final(self).last_update == Some(now),
            final(self).last_frame matches Some(kept) && kept@ == frame@,
            match telemetry_spec(frame@[2], CrsfFrame::payload_of(frame@)) {
                Ok(t) => {
                    &&& final(self).frames_rejected == old(self).frames_rejected
                    &&& final(self).last_error is None
                    &&& final(self).last_kind matches Some(kind) && kind@ == telemetry_kind(t)
                    &&& readings_after(final(self), old(self), t)
                },
                Err(error) => {
                    &&& final(self).frames_rejected == saturating_inc(old(self).frames_rejected)
                    &&& final(self).last_kind matches Some(kind) && kind@ == "Malformed"@
                    &&& final(self).last_error matches Some(text) && text@ == crsf_error_text(error)
                    &&& numeric_readings_kept(final(self), old(self))
                    &&& final(self).flight_mode == old(self).flight_mode
                },
            },
    {
        self.frames_received = self.frames_received.saturating_add(1);
        self.last_update = Some(now);
        self.last_error = None;
        match frame.telemetry() {
            Ok(telemetry) => {
                self.last_kind = Some(telemetry.name());
                match telemetry {
                    Telemetry::Gps { latitude_e7, longitude_e7, ground_speed_dkmh, heading_cdeg, altitude_metres, satellites } => {
                        self.gps = Some(GpsTelemetry { latitude_e7, longitude_e7, ground_speed_dkmh, heading_cdeg, altitude_metres, satellites });
                    },
                    Telemetry::Vario { vertical_speed_cms } => {
                        self.vertical_speed = Some(VerticalSpeed::CentimetresPerSecond(vertical_speed_cms));
                    },
                    Telemetry::Battery { voltage_dv, current_da, capacity_mah, remaining_percent } => {
                        self.battery = Some(BatteryTelemetry { voltage_dv, current_da, capacity_mah, remaining_percent });
                    },
                    Telemetry::BarometricAltitude { altitude_dm, vertical_speed } => {
                        self.barometric_altitude_dm = Some(altitude_dm);
                        self.vertical_speed = Some(vertical_speed);
                    },
                    Telemetry::Barometer { pressure_pa, temperature_cdeg_c } => {
                        self.barometer = Some(BarometerTelemetry { pressure_pa, temperature_cdeg_c });
                    },
                    Telemetry::Magnetometer { x, y, z } => {
                        self.magnetometer = Some(MagnetometerTelemetry { x, y, z });
                    },
                    Telemetry::Attitude { pitch_e4, roll_e4, yaw_e4 } => {
                        self.attitude = Some(AttitudeTelemetry { pitch_e4, roll_e4, yaw_e4 });
                    },
                    Telemetry::FlightMode(mode) => {
                        self.flight_mode = Some(mode);
                    },
                    Telemetry::Range { front_mm, back_mm, left_mm, right_mm } => {
                        self.range = Some(RangeTelemetry { front_mm, back_mm, left_mm, right_mm });
                    },
                    Telemetry::Heartbeat | Telemetry::DeviceInfo | Telemetry::MspResponse | Telemetry::Unknown { .. } => {},
                }
            },
            Err(error) => {
                self.frames_rejected = self.frames_rejected.saturating_add(1);
                self.last_kind = Some("Malformed");
                self.last_error = Some(error.message());
            },
        }
        self.last_frame = Some(frame);
    }

    /// Counts a frame that could not even be read, with its reason.
    pub fn reject(&mut self, message: String)
        ensures
            final(self).frames_rejected == saturating_inc(old(self).frames_rejected),
            final(self).last_error == Some(message),
            final(self).frames_received == old(self).frames_received,
            final(self).last_kind == old(self).last_kind,
            final(self).last_update == old(self).last_update,
            numeric_readings_kept(final(self), old(self)),
            final(self).flight_mode == old(self).flight_mode,
    {
        self.frames_rejected = self.frames_rejected.saturating_add(1);
        self.last_error = Some(message);
    }
}

/// The connection to the bridge as the console shows it.
#[derive(Debug)]
pub enum BackendState {
    Starting,
    Connecting { address: String },
    Connected { server: ServerIdentity },
    Failed { message: String },
}

/// What the console knows of the network worker: the connection, the
/// command counts and round trip of the last acknowledgement, and whether
/// the wire carries safe values.
#[derive(Debug)]
pub struct BackendStatus {
    pub state: BackendState,
    pub commands_sent: u64,
    pub commands_acknowledged: u64,
    pub last_round_trip: Option<Duration>,
    pub safe_override: bool,
}

impl BackendStatus {
    /// Before the worker reports anything: starting, nothing sent, and the
    /// wire taken to carry safe values.
    pub fn new() -> (status: Self)
        ensures
            status.state is Starting,
            status.commands_sent == 0,
            status.commands_acknowledged == 0,
            status.last_round_trip is None,
            status.safe_override,
    {
        BackendStatus {
            state: BackendState::Starting,
            commands_sent: 0,
            commands_acknowledged: 0,
            last_round_trip: None,
            safe_override: true,
        }
    }

    /// Takes in one worker event: connection events set the connection, an
    /// acknowledgement sets the counts, round trip and wire output, and a
    /// failure sets the connection and marks the wire safe.
    pub fn update(&mut self, event: BackendEvent)
        ensures
            match event {
                BackendEvent::Connecting { address } => *final(self) == (BackendStatus {
                    state: BackendState::Connecting { address },
                    ..*old(self)
                }),
                BackendEvent::Connected { server } => *final(self) == (BackendStatus {
                    state: BackendState::Connected { server },
                    ..*old(self)
                }),
                BackendEvent::CommandAcknowledged { sent, acknowledged, round_trip, safe_override } => *final(self)
                    == (BackendStatus {
                    commands_sent: sent,
                    commands_acknowledged: acknowledged,
                    last_round_trip: Some(round_trip),
                    safe_override,
                    ..*old(self)
                }),
                BackendEvent::Failed { message } => *final(self) == (BackendStatus {
                    state: BackendState::Failed { message },
                    safe_override: true,
                    ..*old(self)
                }),
            },
    {
        match event {
            BackendEvent::Connecting { address } => {
                self.state = BackendState::Connecting { address };
            },
            BackendEvent::Connected { server } => {
                self.state = BackendState::Connected { server };
            },
            BackendEvent::CommandAcknowledged { sent, acknowledged, round_trip, safe_override } => {
                self.commands_sent = sent;
                self.commands_acknowledged = acknowledged;
                self.last_round_trip = Some(round_trip);
                self.safe_override = safe_override;
            },
            BackendEvent::Failed { message } => {
                self.state = BackendState::Failed { message };
                self.safe_override = true;
            },
        }
    }
}

} // verus!

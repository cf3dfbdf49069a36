use vstd::prelude::*;
use vstd::string::*;

use crate::text::{
    ascii_words, decimal_chars, hex_byte, hex_byte_chars, hex_join, is_ascii_ws,
    lemma_ascii_words_split, parse_hex_byte, push_decimal, push_hex_byte, push_hex_join,
};

verus! {

/// Largest complete CRSF frame, address and checksum included.
pub const CRSF_FRAME_SIZE_MAX: usize = 64;
pub const CRSF_FRAME_TYPE_GPS: u8 = 0x02;
pub const CRSF_FRAME_TYPE_VARIO: u8 = 0x07;
pub const CRSF_FRAME_TYPE_BATTERY: u8 = 0x08;
pub const CRSF_FRAME_TYPE_BAROMETRIC_ALTITUDE: u8 = 0x09;
pub const CRSF_FRAME_TYPE_HEARTBEAT: u8 = 0x0B;
pub const CRSF_FRAME_TYPE_BAROMETER: u8 = 0x11;
pub const CRSF_FRAME_TYPE_MAGNETOMETER: u8 = 0x12;
pub const CRSF_FRAME_TYPE_ATTITUDE: u8 = 0x1E;
pub const CRSF_FRAME_TYPE_FLIGHT_MODE: u8 = 0x21;
pub const CRSF_FRAME_TYPE_DEVICE_INFO: u8 = 0x29;
pub const CRSF_FRAME_TYPE_MSP_RESPONSE: u8 = 0x7B;
pub const CRSF_FRAME_TYPE_RANGE: u8 = 0x7C;

const CRSF_FRAME_LENGTH_MIN: u8 = 2;
const CRSF_FRAME_LENGTH_MAX: u8 = 62;

/// One bit step of the CRC-8/DVB-S2 polynomial (0xD5).
pub open spec fn crc8_shift(crc: u8) -> u8 {
    if crc & 0x80 != 0 {
        ((crc << 1u8) ^ 0xD5u8) as u8
    } else {
        (crc << 1u8) as u8
    }
}

/// `n` bit steps applied to `crc`.
pub open spec fn crc8_shifts(crc: u8, n: nat) -> u8
    decreases n,
{
    if n == 0 {
        crc
    } else {
        crc8_shift(crc8_shifts(crc, (n - 1) as nat))
    }
}

/// CRC-8/DVB-S2 of a byte sequence, as used by CRSF frames.
pub open spec fn crc8_spec(bytes: Seq<u8>) -> u8
    decreases bytes.len(),
{
    if bytes.len() == 0 {
        0
    } else {
        crc8_shifts(crc8_spec(bytes.drop_last()) ^ bytes.last(), 8)
    }
}

proof fn lemma_shifts_of_zero(n: nat)
    ensures
        crc8_shifts(0, n) == 0,
    decreases n,
{
    if n > 0 {
        lemma_shifts_of_zero((n - 1) as nat);
        assert(0u8 & 0x80u8 == 0) by (bit_vector);
        assert((0u8 << 1u8) as u8 == 0) by (bit_vector);
    }
}

/// Appending the checksum to the bytes it covers leaves a residue of zero:
/// the CRC of bytes followed by their CRC is 0.
pub proof fn law_crc_residue_is_zero(bytes: Seq<u8>)
    ensures
        crc8_spec(bytes.push(crc8_spec(bytes))) == 0,
{
    let with_crc = bytes.push(crc8_spec(bytes));
    assert(with_crc.drop_last() =~= bytes);
    let c = crc8_spec(bytes);
    assert(c ^ c == 0) by (bit_vector);
    lemma_shifts_of_zero(8);
}

/// Each bit step of the checksum multiplies by x modulo the DVB-S2
/// polynomial x^8 + x^7 + x^6 + x^4 + x^2 + 1: the byte doubles, and when its
/// top bit falls out the low byte of the polynomial, 0xD5, is added (xor).
pub proof fn law_crc8_step_reduces_by_d5(c: u8)
    ensures
        crc8_shift(c) == if c < 128 {
            (2 * c) as u8
        } else {
            ((2 * c - 256) as u8) ^ 0xD5u8
        },
{
    assert(c & 0x80 != 0 <==> c >= 128) by (bit_vector);
    assert(c < 128 ==> (c << 1u8) as u8 == (2 * c) as u8) by (bit_vector);
    assert(c >= 128 ==> ((c << 1u8) ^ 0xD5u8) as u8 == ((2 * c - 256) as u8) ^ 0xD5u8) by (bit_vector);
}

spec fn crc8_eight_steps(c: u8) -> u8 {
    crc8_shift(crc8_shift(crc8_shift(crc8_shift(crc8_shift(crc8_shift(crc8_shift(crc8_shift(c))))))))
}

proof fn lemma_crc8_push(bytes: Seq<u8>, b: u8)
    ensures
        crc8_spec(bytes.push(b)) == crc8_eight_steps(crc8_spec(bytes) ^ b),
{
    assert(bytes.push(b).drop_last() =~= bytes);
    reveal_with_fuel(crc8_shifts, 9);
}

/// The standard check value of CRC-8/DVB-S2: the ASCII digits "123456789"
/// give 0xBC.
pub proof fn law_crc8_check_value()
    ensures
        crc8_spec(seq![0x31u8, 0x32u8, 0x33u8, 0x34u8, 0x35u8, 0x36u8, 0x37u8, 0x38u8, 0x39u8]) == 0xBCu8,
{
    assert({
        &&& crc8_eight_steps(0x31u8) == 0x23u8
        &&& crc8_eight_steps(0x11u8) == 0x87u8
        &&& crc8_eight_steps(0xB4u8) == 0xE7u8
        &&& crc8_eight_steps(0xD3u8) == 0x8Au8
        &&& crc8_eight_steps(0xBFu8) == 0x64u8
        &&& crc8_eight_steps(0x52u8) == 0xB0u8
        &&& crc8_eight_steps(0x87u8) == 0xBBu8
        &&& crc8_eight_steps(0x83u8) == 0x45u8
        &&& crc8_eight_steps(0x7Cu8) == 0xBCu8
    }) by (bit_vector);
    assert(0x00u8 ^ 0x31u8 == 0x31u8 && 0x23u8 ^ 0x32u8 == 0x11u8 && 0x87u8 ^ 0x33u8 == 0xB4u8 && 0xE7u8 ^ 0x34u8
        == 0xD3u8 && 0x8Au8 ^ 0x35u8 == 0xBFu8 && 0x64u8 ^ 0x36u8 == 0x52u8 && 0xB0u8 ^ 0x37u8 == 0x87u8 && 0xBBu8
        ^ 0x38u8 == 0x83u8 && 0x45u8 ^ 0x39u8 == 0x7Cu8) by (bit_vector);
    let s0 = Seq::<u8>::empty();
    let s1 = s0.push(0x31u8);
    let s2 = s1.push(0x32u8);
    let s3 = s2.push(0x33u8);
    let s4 = s3.push(0x34u8);
    let s5 = s4.push(0x35u8);
    let s6 = s5.push(0x36u8);
    let s7 = s6.push(0x37u8);
    let s8 = s7.push(0x38u8);
    let s9 = s8.push(0x39u8);
    lemma_crc8_push(s0, 0x31u8);
    lemma_crc8_push(s1, 0x32u8);
    lemma_crc8_push(s2, 0x33u8);
    lemma_crc8_push(s3, 0x34u8);
    lemma_crc8_push(s4, 0x35u8);
    lemma_crc8_push(s5, 0x36u8);
    lemma_crc8_push(s6, 0x37u8);
    lemma_crc8_push(s7, 0x38u8);
    lemma_crc8_push(s8, 0x39u8);
    assert(s9 =~= seq![0x31u8, 0x32u8, 0x33u8, 0x34u8, 0x35u8, 0x36u8, 0x37u8, 0x38u8, 0x39u8]);
}

/// CRC-8/DVB-S2 checksum over `bytes`.
pub fn crc8_dvb_s2(bytes: &[u8]) -> (crc: u8)
    ensures
        crc == crc8_spec(bytes@),
{
    let mut crc: u8 = 0;
    let mut i: usize = 0;
    while i < bytes.len()
        invariant
            i <= bytes.len(),
            crc == crc8_spec(bytes@.take(i as int)),
        decreases bytes.len() - i,
    {
        let start = crc ^ bytes[i];
        crc = start;
        let mut bit: u8 = 0;
        while bit < 8
            invariant
                bit <= 8,
                crc == crc8_shifts(start, bit as nat),
            decreases 8 - bit,
        {
            crc = if crc & 0x80 != 0 {
                (crc << 1u8) ^ 0xD5
            } else {
                crc << 1u8
            };
            bit += 1;
        }
        assert(bytes@.take(i + 1).drop_last() =~= bytes@.take(i as int));
        i += 1;
    }
    assert(bytes@.take(bytes.len() as int) =~= bytes@);
    crc
}


/// Why a CRSF frame or its telemetry payload was refused.
#[allow(inconsistent_fields)]
#[derive(Clone, Debug, Eq, PartialEq)]
pub enum CrsfError {
    InvalidHexByte { position: usize, value: String },
    FrameSize { actual: usize },
    DeclaredLengthOutOfRange { declared: usize },
    LengthMismatch { declared: usize, actual: usize },
    CrcMismatch { expected: u8, actual: u8 },
    PayloadLength { frame_type: u8, expected: usize, actual: usize },
    UnsupportedRangeVersion { version: u8 },
}

/// `CrsfError::message` of the error.
pub open spec fn crsf_error_text(error: CrsfError) -> Seq<char> {
    match error {
        CrsfError::InvalidHexByte { position, value } => "CRSF hex byte "@ + decimal_chars(
            position as nat,
        ) + " is invalid: "@ + value@,
        CrsfError::FrameSize { actual } => "CRSF frame has "@ + decimal_chars(actual as nat)
            + " bytes; expected 4-"@ + decimal_chars(CRSF_FRAME_SIZE_MAX as nat),
        CrsfError::DeclaredLengthOutOfRange { declared } => "CRSF declared length "@
            + decimal_chars(declared as nat) + " is outside 2-62"@,
        CrsfError::LengthMismatch { declared, actual } => "CRSF declared total length "@
            + decimal_chars(declared as nat) + ", received "@ + decimal_chars(actual as nat)
            + " bytes"@,
        CrsfError::CrcMismatch { expected, actual } => "CRSF CRC mismatch: frame has 0x"@
            + hex_byte_chars(expected, true) + ", calculated 0x"@ + hex_byte_chars(actual, true),
        CrsfError::PayloadLength { frame_type, expected, actual } => "CRSF frame type 0x"@
            + hex_byte_chars(frame_type, true) + " payload has "@ + decimal_chars(actual as nat)
            + " bytes; expected "@ + decimal_chars(expected as nat),
        CrsfError::UnsupportedRangeVersion { version } => "CRSF range telemetry version "@
            + decimal_chars(version as nat) + " is unsupported; expected version 1"@,
    }
}

impl CrsfError {
    /// The error in words.
    pub fn message(&self) -> (text: String)
        ensures
            text@ == crsf_error_text(*self),
    {
        match self {
            CrsfError::InvalidHexByte { position, value } => {
                let mut text = "CRSF hex byte ".to_string();
                push_decimal(&mut text, *position as u128);
                text.append(" is invalid: ");
                text.append(value.as_str());
                text
            },
            CrsfError::FrameSize { actual } => {
                let mut text = "CRSF frame has ".to_string();
                push_decimal(&mut text, *actual as u128);
                text.append(" bytes; expected 4-");
                push_decimal(&mut text, CRSF_FRAME_SIZE_MAX as u128);
                text
            },
            CrsfError::DeclaredLengthOutOfRange { declared } => {
                let mut text = "CRSF declared length ".to_string();
                push_decimal(&mut text, *declared as u128);
                text.append(" is outside 2-62");
                text
            },
            CrsfError::LengthMismatch { declared, actual } => {
                let mut text = "CRSF declared total length ".to_string();
                push_decimal(&mut text, *declared as u128);
                text.append(", received ");
                push_decimal(&mut text, *actual as u128);
                text.append(" bytes");
                text
            },
            CrsfError::CrcMismatch { expected, actual } => {
                let mut text = "CRSF CRC mismatch: frame has 0x".to_string();
                push_hex_byte(&mut text, *expected, true);
                text.append(", calculated 0x");
                push_hex_byte(&mut text, *actual, true);
                text
            },
            CrsfError::PayloadLength { frame_type, expected, actual } => {
                let mut text = "CRSF frame type 0x".to_string();
                push_hex_byte(&mut text, *frame_type, true);
                text.append(" payload has ");
                push_decimal(&mut text, *actual as u128);
                text.append(" bytes; expected ");
                push_decimal(&mut text, *expected as u128);
                text
            },
            CrsfError::UnsupportedRangeVersion { version } => {
                let mut text = "CRSF range telemetry version ".to_string();
                push_decimal(&mut text, *version as u128);
                text.append(" is unsupported; expected version 1");
                text
            },
        }
    }
}

/// The checks a raw frame must pass, in the order in which they are made:
/// total size, declared length, agreement of the two, then the checksum
/// over type and payload.
pub open spec fn frame_check(raw: Seq<u8>) -> Result<(), CrsfError> {
    if !(4 <= raw.len() <= CRSF_FRAME_SIZE_MAX) {
        Err(CrsfError::FrameSize { actual: raw.len() as usize })
    } else if !(2 <= raw[1] <= 62) {
        Err(CrsfError::DeclaredLengthOutOfRange { declared: raw[1] as usize })
    } else if raw.len() != raw[1] + 2 {
        Err(CrsfError::LengthMismatch { declared: (raw[1] + 2) as usize, actual: raw.len() as usize })
    } else if crc8_spec(raw.subrange(2, raw.len() - 1)) != raw.last() {
        Err(CrsfError::CrcMismatch {
            expected: raw.last(),
            actual: crc8_spec(raw.subrange(2, raw.len() - 1)),
        })
    } else {
        Ok(())
    }
}

/// A checked CRSF frame: address, type, payload and checksum.
#[derive(Debug, Eq, PartialEq)]
pub struct CrsfFrame {
    address: u8,
    frame_type: u8,
    payload: Vec<u8>,
    raw: Vec<u8>,
}

impl View for CrsfFrame {
    type V = Seq<u8>;

    /// A frame is seen as its raw bytes; every other part is read from them.
    closed spec fn view(&self) -> Seq<u8> {
        self.raw@
    }
}

impl CrsfFrame {
    #[verifier::type_invariant]
    closed spec fn wf(&self) -> bool {
        &&& frame_check(self.raw@) is Ok
        &&& self.address == self.raw@[0]
        &&& self.frame_type == self.raw@[2]
        &&& self.payload@ == self.raw@.subrange(3, self.raw@.len() - 1)
    }

    /// The payload of a frame with raw bytes `raw`.
    pub open spec fn payload_of(raw: Seq<u8>) -> Seq<u8> {
        raw.subrange(3, raw.len() - 1)
    }

    /// Checks `raw` as a complete CRSF frame.
    pub fn parse(raw: &[u8]) -> (result: Result<Self, CrsfError>)
        ensures
            match result {
                Ok(frame) => frame_check(raw@) is Ok && frame@ == raw@,
                Err(e) => frame_check(raw@) == Err::<(), CrsfError>(e),
            },
    {
        let len = raw.len();
        if len < 4 || len > CRSF_FRAME_SIZE_MAX {
            return Err(CrsfError::FrameSize { actual: len });
        }
        let declared = raw[1];
        if declared < CRSF_FRAME_LENGTH_MIN || declared > CRSF_FRAME_LENGTH_MAX {
            return Err(CrsfError::DeclaredLengthOutOfRange { declared: declared as usize });
        }
        let expected = declared as usize + 2;
        if len != expected {
            return Err(CrsfError::LengthMismatch { declared: expected, actual: len });
        }
        let expected_crc = raw[len - 1];
        let checked = slice_range(raw, 2, len - 1);
        let actual_crc = crc8_dvb_s2(checked.as_slice());
        if actual_crc != expected_crc {
            return Err(CrsfError::CrcMismatch { expected: expected_crc, actual: actual_crc });
        }
        let payload = slice_range(raw, 3, len - 1);
        let copy = slice_range(raw, 0, len);
        assert(copy@ =~= raw@);
        Ok(CrsfFrame { address: raw[0], frame_type: raw[2], payload, raw: copy })
    }

    pub fn address(&self) -> (address: u8)
        ensures
            address == self@[0],
    {
        proof { use_type_invariant(self); }
        self.address
    }

    pub fn frame_type(&self) -> (frame_type: u8)
        ensures
            frame_type == self@[2],
    {
        proof { use_type_invariant(self); }
        self.frame_type
    }

    pub fn payload(&self) -> (payload: &[u8])
        ensures
            payload@ == Self::payload_of(self@),
    {
        proof { use_type_invariant(self); }
        self.payload.as_slice()
    }

    pub fn raw(&self) -> (raw: &[u8])
        ensures
            raw@ == self@,
            frame_check(raw@) is Ok,
    {
        proof { use_type_invariant(self); }
        self.raw.as_slice()
    }
}

impl<'a> TryFrom<&'a [u8]> for CrsfFrame {
    type Error = CrsfError;

    fn try_from(raw: &'a [u8]) -> (result: Result<Self, CrsfError>)
        ensures
            match result {
                Ok(frame) => frame_check(raw@) is Ok && frame@ == raw@,
                Err(e) => frame_check(raw@) == Err::<(), CrsfError>(e),
            },
    {
        Self::parse(raw)
    }
}

impl<'a> vstd::std_specs::convert::TryFromSpecImpl<&'a [u8]> for CrsfFrame {
    /// The frame has no spec-level constructor; `try_from` states its result
    /// over the raw bytes in its own `ensures` instead.
    open spec fn obeys_try_from_spec() -> bool {
        false
    }

    open spec fn try_from_spec(raw: &'a [u8]) -> Result<Self, CrsfError> {
        Err(CrsfError::FrameSize { actual: raw@.len() as usize })
    }
}

impl Clone for CrsfFrame {
    fn clone(&self) -> (copy: Self)
        ensures
            copy@ == self@,
    {
        proof { use_type_invariant(self); }
        let raw = slice_range(self.raw.as_slice(), 0, self.raw.len());
        let payload = slice_range(self.payload.as_slice(), 0, self.payload.len());
        assert(raw@ =~= self.raw@);
        assert(payload@ =~= self.payload@);
        CrsfFrame { address: self.address, frame_type: self.frame_type, payload, raw }
    }
}

/// A copy of `bytes[start..end]`.
pub(crate) fn slice_range(bytes: &[u8], start: usize, end: usize) -> (out: Vec<u8>)
    requires
        start <= end <= bytes.len(),
    ensures
        out@ == bytes@.subrange(start as int, end as int),
{
    let mut out: Vec<u8> = Vec::new();
    let mut i = start;
    while i < end
        invariant
            start <= i <= end <= bytes.len(),
            out@ == bytes@.subrange(start as int, i as int),
        decreases end - i,
    {
        out.push(bytes[i]);
        i += 1;
    }
    out
}

/// Big-endian `u16` at `at`.
pub open spec fn be16(s: Seq<u8>, at: int) -> u16 {
    (s[at] as int * 256 + s[at + 1] as int) as u16
}

/// Big-endian `u32` at `at`.
pub open spec fn be32(s: Seq<u8>, at: int) -> u32 {
    (s[at] as int * 16777216 + s[at + 1] as int * 65536 + s[at + 2] as int * 256
        + s[at + 3] as int) as u32
}

/// Index of the first zero byte of `s`, or its length when it has none.
pub open spec fn first_zero(s: Seq<u8>) -> int
    decreases s.len(),
{
    if s.len() == 0 {
        0
    } else if s[0] == 0 {
        0
    } else {
        1 + first_zero(s.drop_first())
    }
}

/// What `String::from_utf8_lossy` makes of a byte sequence.
pub uninterp spec fn utf8_lossy(bytes: Seq<u8>) -> Seq<char>;

/// Calls `String::from_utf8_lossy`: the result is the lossy UTF-8 decoding
/// of the bytes, which depends on the bytes alone. Bytes that are all ASCII
/// are valid UTF-8, which the call returns unchanged, one character per byte.
#[verifier::external_body]
pub(crate) fn string_from_utf8_lossy(bytes: &[u8]) -> (text: String)
    ensures
        text@ == utf8_lossy(bytes@),
        (forall|i: int| 0 <= i < bytes@.len() ==> bytes@[i] < 128) ==> text@ == bytes@.map_values(
            |b: u8| b as char,
        ),
{
    String::from_utf8_lossy(bytes).into_owned()
}

/// Vertical speed as a barometric-altitude frame carries it.
#[derive(Clone, Copy, Debug, Eq, PartialEq)]
pub enum VerticalSpeed {
    /// The three-byte form: a signed exponent code `p`, standing for
    /// `sign(p) * (e^(|p| * 0.026) - 1)` metres per second.
    Packed(i8),
    /// The four-byte form: centimetres per second.
    CentimetresPerSecond(i16),
}

/// Flight-controller telemetry in the units the frames carry.
/// `Text` is `String` at run time and `Seq<char>` in specifications.
#[derive(Clone, Debug, Eq, PartialEq)]
pub enum Telemetry<Text> {
    Gps {
        /// Degrees times 10^7.
        latitude_e7: i32,
        /// Degrees times 10^7.
        longitude_e7: i32,
        /// Kilometres per hour times 10.
        ground_speed_dkmh: u16,
        /// Degrees times 100.
        heading_cdeg: u16,
        altitude_metres: i32,
        satellites: u8,
    },
    Vario { vertical_speed_cms: i16 },
    Battery {
        /// Volts times 10.
        voltage_dv: u16,
        /// Amperes times 10.
        current_da: u16,
        capacity_mah: u32,
        remaining_percent: u8,
    },
    BarometricAltitude { altitude_dm: i32, vertical_speed: VerticalSpeed },
    Heartbeat,
    Barometer {
        pressure_pa: i32,
        /// Degrees Celsius times 100.
        temperature_cdeg_c: i32,
    },
    Magnetometer { x: i16, y: i16, z: i16 },
    Attitude {
        /// Radians times 10^4.
        pitch_e4: i16,
        roll_e4: i16,
        yaw_e4: i16,
    },
    FlightMode(Text),
    DeviceInfo,
    MspResponse,
    Range {
        front_mm: Option<u16>,
        back_mm: Option<u16>,
        left_mm: Option<u16>,
        right_mm: Option<u16>,
    },
    Unknown { frame_type: u8 },
}

pub type CrsfTelemetry = Telemetry<String>;

/// The telemetry value with its text taken by view.
pub open spec fn telemetry_view(t: Telemetry<String>) -> Telemetry<Seq<char>> {
    match t {
        Telemetry::Gps {
            latitude_e7,
            longitude_e7,
            ground_speed_dkmh,
            heading_cdeg,
            altitude_metres,
            satellites,
        } => Telemetry::Gps {
            latitude_e7,
            longitude_e7,
            ground_speed_dkmh,
            heading_cdeg,
            altitude_metres,
            satellites,
        },
        Telemetry::Vario { vertical_speed_cms } => Telemetry::Vario { vertical_speed_cms },
        Telemetry::Battery { voltage_dv, current_da, capacity_mah, remaining_percent } =>
            Telemetry::Battery { voltage_dv, current_da, capacity_mah, remaining_percent },
        Telemetry::BarometricAltitude { altitude_dm, vertical_speed } =>
            Telemetry::BarometricAltitude { altitude_dm, vertical_speed },
        Telemetry::Heartbeat => Telemetry::Heartbeat,
        Telemetry::Barometer { pressure_pa, temperature_cdeg_c } =>
            Telemetry::Barometer { pressure_pa, temperature_cdeg_c },
        Telemetry::Magnetometer { x, y, z } => Telemetry::Magnetometer { x, y, z },
        Telemetry::Attitude { pitch_e4, roll_e4, yaw_e4 } =>
            Telemetry::Attitude { pitch_e4, roll_e4, yaw_e4 },
        Telemetry::FlightMode(text) => Telemetry::FlightMode(text@),
        Telemetry::DeviceInfo => Telemetry::DeviceInfo,
        Telemetry::MspResponse => Telemetry::MspResponse,
        Telemetry::Range { front_mm, back_mm, left_mm, right_mm } =>
            Telemetry::Range { front_mm, back_mm, left_mm, right_mm },
        Telemetry::Unknown { frame_type } => Telemetry::Unknown { frame_type },
    }
}

pub open spec fn telemetry_result_view(r: Result<CrsfTelemetry, CrsfError>) -> Result<
    Telemetry<Seq<char>>,
    CrsfError,
> {
    match r {
        Ok(t) => Ok(telemetry_view(t)),
        Err(e) => Err(e),
    }
}

pub open spec fn payload_length_error(frame_type: u8, expected: usize, p: Seq<u8>) -> CrsfError {
    CrsfError::PayloadLength { frame_type, expected, actual: p.len() as usize }
}

/// One direction of a range frame: absent when its bit of the validity mask
/// is clear or when the sensor reports 0xFFFF.
pub open spec fn range_reading(p: Seq<u8>, at: int, valid_mask: u8, index: u8) -> Option<u16> {
    if valid_mask & (1u8 << index) == 0 || be16(p, at) == 0xFFFF {
        None
    } else {
        Some(be16(p, at))
    }
}

/// The telemetry carried by a frame of type `frame_type` with payload `p`.
pub open spec fn telemetry_spec(frame_type: u8, p: Seq<u8>) -> Result<Telemetry<Seq<char>>, CrsfError> {
    if frame_type == CRSF_FRAME_TYPE_GPS {
        if p.len() != 15 {
            Err(payload_length_error(frame_type, 15, p))
        } else {
            Ok(Telemetry::Gps {
                latitude_e7: be32(p, 0) as i32,
                longitude_e7: be32(p, 4) as i32,
                ground_speed_dkmh: be16(p, 8),
                heading_cdeg: be16(p, 10),
                altitude_metres: (be16(p, 12) - 1000) as i32,
                satellites: p[14],
            })
        }
    } else if frame_type == CRSF_FRAME_TYPE_VARIO {
        if p.len() != 2 {
            Err(payload_length_error(frame_type, 2, p))
        } else {
            Ok(Telemetry::Vario { vertical_speed_cms: be16(p, 0) as i16 })
        }
    } else if frame_type == CRSF_FRAME_TYPE_BATTERY {
        if p.len() != 8 {
            Err(payload_length_error(frame_type, 8, p))
        } else {
            Ok(Telemetry::Battery {
                voltage_dv: be16(p, 0),
                current_da: be16(p, 2),
                capacity_mah: (p[4] as int * 65536 + p[5] as int * 256 + p[6] as int) as u32,
                remaining_percent: p[7],
            })
        }
    } else if frame_type == CRSF_FRAME_TYPE_BAROMETRIC_ALTITUDE {
        if p.len() != 3 && p.len() != 4 {
            Err(payload_length_error(frame_type, 3, p))
        } else {
            let packed = be16(p, 0);
            Ok(Telemetry::BarometricAltitude {
                altitude_dm: if packed < 0x8000 {
                    (packed - 10000) as i32
                } else {
                    ((packed - 0x8000) * 10) as i32
                },
                vertical_speed: if p.len() == 3 {
                    VerticalSpeed::Packed(p[2] as i8)
                } else {
                    VerticalSpeed::CentimetresPerSecond(be16(p, 2) as i16)
                },
            })
        }
    } else if frame_type == CRSF_FRAME_TYPE_HEARTBEAT {
        Ok(Telemetry::Heartbeat)
    } else if frame_type == CRSF_FRAME_TYPE_BAROMETER {
        if p.len() != 8 {
            Err(payload_length_error(frame_type, 8, p))
        } else {
            Ok(Telemetry::Barometer {
                pressure_pa: be32(p, 0) as i32,
                temperature_cdeg_c: be32(p, 4) as i32,
            })
        }
    } else if frame_type == CRSF_FRAME_TYPE_MAGNETOMETER {
        if p.len() != 6 {
            Err(payload_length_error(frame_type, 6, p))
        } else {
            Ok(Telemetry::Magnetometer {
                x: be16(p, 0) as i16,
                y: be16(p, 2) as i16,
                z: be16(p, 4) as i16,
            })
        }
    } else if frame_type == CRSF_FRAME_TYPE_ATTITUDE {
        if p.len() != 6 {
            Err(payload_length_error(frame_type, 6, p))
        } else {
            Ok(Telemetry::Attitude {
                pitch_e4: be16(p, 0) as i16,
                roll_e4: be16(p, 2) as i16,
                yaw_e4: be16(p, 4) as i16,
            })
        }
    } else if frame_type == CRSF_FRAME_TYPE_FLIGHT_MODE {
        Ok(Telemetry::FlightMode(utf8_lossy(p.take(first_zero(p)))))
    } else if frame_type == CRSF_FRAME_TYPE_DEVICE_INFO {
        Ok(Telemetry::DeviceInfo)
    } else if frame_type == CRSF_FRAME_TYPE_MSP_RESPONSE {
        Ok(Telemetry::MspResponse)
    } else if frame_type == CRSF_FRAME_TYPE_RANGE {
        if p.len() != 12 {
            Ok(Telemetry::Unknown { frame_type })
        } else if p[2] != 1 {
            Err(CrsfError::UnsupportedRangeVersion { version: p[2] })
        } else {
            Ok(Telemetry::Range {
                front_mm: range_reading(p, 4, p[3], 0),
                back_mm: range_reading(p, 6, p[3], 1),
                left_mm: range_reading(p, 8, p[3], 2),
                right_mm: range_reading(p, 10, p[3], 3),
            })
        }
    } else {
        Ok(Telemetry::Unknown { frame_type })
    }
}

fn read_u16(bytes: &[u8], at: usize) -> (value: u16)
    requires
        at + 2 <= bytes.len(),
    ensures
        value == be16(bytes@, at as int),
{
    bytes[at] as u16 * 256 + bytes[at + 1] as u16
}

fn read_i16(bytes: &[u8], at: usize) -> (value: i16)
    requires
        at + 2 <= bytes.len(),
    ensures
        value == be16(bytes@, at as int) as i16,
{
    read_u16(bytes, at) as i16
}

fn read_u32(bytes: &[u8], at: usize) -> (value: u32)
    requires
        at + 4 <= bytes.len(),
    ensures
        value == be32(bytes@, at as int),
{
    bytes[at] as u32 * 16777216 + bytes[at + 1] as u32 * 65536 + bytes[at + 2] as u32 * 256
        + bytes[at + 3] as u32
}

fn read_i32(bytes: &[u8], at: usize) -> (value: i32)
    requires
        at + 4 <= bytes.len(),
    ensures
        value == be32(bytes@, at as int) as i32,
{
    read_u32(bytes, at) as i32
}

fn read_range(bytes: &[u8], at: usize, valid_mask: u8, index: u8) -> (reading: Option<u16>)
    requires
        at + 2 <= bytes.len(),
        index < 8,
    ensures
        reading == range_reading(bytes@, at as int, valid_mask, index),
{
    let millimetres = read_u16(bytes, at);
    if valid_mask & (1u8 << index) == 0 || millimetres == u16::MAX {
        None
    } else {
        Some(millimetres)
    }
}

fn require_payload(frame_type: u8, payload: &[u8], expected: usize) -> (result: Result<(), CrsfError>)
    ensures
        result is Ok <==> payload@.len() == expected,
        result is Err ==> result == Err::<(), CrsfError>(payload_length_error(frame_type, expected, payload@)),
{
    if payload.len() == expected {
        Ok(())
    } else {
        Err(CrsfError::PayloadLength { frame_type, expected, actual: payload.len() })
    }
}

/// Index of the first zero byte, or the length.
pub(crate) fn first_zero_index(bytes: &[u8]) -> (end: usize)
    ensures
        end as int == first_zero(bytes@),
        end <= bytes.len(),
{
    let mut i: usize = 0;
    while i < bytes.len() && bytes[i] != 0
        invariant
            i <= bytes.len(),
            forall|j: int| 0 <= j < i ==> bytes@[j] != 0,
        decreases bytes.len() - i,
    {
        i += 1;
    }
    proof { lemma_first_zero(bytes@, i as int); }
    i
}

proof fn lemma_first_zero(s: Seq<u8>, i: int)
    requires
        0 <= i <= s.len(),
        forall|j: int| 0 <= j < i ==> s[j] != 0,
        i == s.len() || s[i] == 0,
    ensures
        first_zero(s) == i,
    decreases s.len(),
{
    if s.len() > 0 && s[0] != 0 {
        lemma_first_zero(s.drop_first(), i - 1);
    }
}

/// A barometer frame carries the pressure in pascals as the big-endian
/// 32-bit value of payload bytes 0-3, then the temperature in hundredths of
/// a degree as that of bytes 4-7; any other payload length is refused.
pub proof fn law_barometer_pressure_then_temperature(p: Seq<u8>)
    ensures
        p.len() == 8 ==> (telemetry_spec(CRSF_FRAME_TYPE_BAROMETER, p) matches Ok(
            Telemetry::Barometer { pressure_pa, temperature_cdeg_c },
        ) && pressure_pa as u32 as int == word32(p, 0) && temperature_cdeg_c as u32 as int == word32(p, 4)),
        p.len() != 8 ==> telemetry_spec(CRSF_FRAME_TYPE_BAROMETER, p) == Err::<Telemetry<Seq<char>>, CrsfError>(
            CrsfError::PayloadLength { frame_type: CRSF_FRAME_TYPE_BAROMETER, expected: 8, actual: p.len() as usize },
        ),
{
    if p.len() == 8 {
        let pressure = be32(p, 0);
        let temperature = be32(p, 4);
        assert(pressure as i32 as u32 == pressure) by (bit_vector);
        assert(temperature as i32 as u32 == temperature) by (bit_vector);
    }
}

/// The big-endian 16-bit number in payload bytes `at` and `at + 1`.
pub open spec fn word16(p: Seq<u8>, at: int) -> int {
    p[at] as int * 256 + p[at + 1] as int
}

/// The big-endian 32-bit number in payload bytes `at` to `at + 3`.
pub open spec fn word32(p: Seq<u8>, at: int) -> int {
    p[at] as int * 16777216 + p[at + 1] as int * 65536 + p[at + 2] as int * 256 + p[at + 3] as int
}

proof fn lemma_signed_round_trips()
    ensures
        forall|v: u16| #[trigger] (v as i16) as u16 == v,
        forall|v: u32| #[trigger] (v as i32) as u32 == v,
{
    assert(forall|v: u16| #[trigger] (v as i16) as u16 == v) by (bit_vector);
    assert(forall|v: u32| #[trigger] (v as i32) as u32 == v) by (bit_vector);
}

/// A GPS frame of 15 bytes carries, big-endian and in this order, latitude
/// and longitude (32 bits each), ground speed, heading and altitude plus
/// 1000 m (16 bits each), then the satellite count.
pub proof fn law_gps_fields(p: Seq<u8>)
    requires
        p.len() == 15,
    ensures
        telemetry_spec(CRSF_FRAME_TYPE_GPS, p) matches Ok(
            Telemetry::Gps {
                latitude_e7,
                longitude_e7,
                ground_speed_dkmh,
                heading_cdeg,
                altitude_metres,
                satellites,
            },
        ) && latitude_e7 as u32 as int == word32(p, 0) && longitude_e7 as u32 as int == word32(p, 4)
            && ground_speed_dkmh as int == word16(p, 8) && heading_cdeg as int == word16(p, 10)
            && altitude_metres as int == word16(p, 12) - 1000 && satellites == p[14],
{
    lemma_signed_round_trips();
    assert((be32(p, 0) as i32) as u32 == be32(p, 0));
    assert((be32(p, 4) as i32) as u32 == be32(p, 4));
}

/// A battery frame of 8 bytes carries, big-endian and in this order, the
/// voltage and the current (16 bits each), the capacity used (24 bits) and
/// the remaining percentage.
pub proof fn law_battery_fields(p: Seq<u8>)
    requires
        p.len() == 8,
    ensures
        telemetry_spec(CRSF_FRAME_TYPE_BATTERY, p) matches Ok(
            Telemetry::Battery { voltage_dv, current_da, capacity_mah, remaining_percent },
        ) && voltage_dv as int == word16(p, 0) && current_da as int == word16(p, 2) && capacity_mah as int
            == p[4] as int * 65536 + p[5] as int * 256 + p[6] as int && remaining_percent == p[7],
{
}

/// A vario frame of 2 bytes carries the signed big-endian vertical speed.
pub proof fn law_vario_field(p: Seq<u8>)
    requires
        p.len() == 2,
    ensures
        telemetry_spec(CRSF_FRAME_TYPE_VARIO, p) matches Ok(Telemetry::Vario { vertical_speed_cms })
            && vertical_speed_cms as u16 as int == word16(p, 0),
{
    lemma_signed_round_trips();
    assert((be16(p, 0) as i16) as u16 == be16(p, 0));
}

/// Magnetometer and attitude frames of 6 bytes carry three signed
/// big-endian 16-bit values in order: x, y, z, or pitch, roll, yaw.
pub proof fn law_three_axis_fields(p: Seq<u8>)
    requires
        p.len() == 6,
    ensures
        telemetry_spec(CRSF_FRAME_TYPE_MAGNETOMETER, p) matches Ok(Telemetry::Magnetometer { x, y, z })
            && x as u16 as int == word16(p, 0) && y as u16 as int == word16(p, 2) && z as u16 as int == word16(p, 4),
        telemetry_spec(CRSF_FRAME_TYPE_ATTITUDE, p) matches Ok(Telemetry::Attitude { pitch_e4, roll_e4, yaw_e4 })
            && pitch_e4 as u16 as int == word16(p, 0) && roll_e4 as u16 as int == word16(p, 2) && yaw_e4 as u16 as int
            == word16(p, 4),
{
    lemma_signed_round_trips();
    assert((be16(p, 0) as i16) as u16 == be16(p, 0));
    assert((be16(p, 2) as i16) as u16 == be16(p, 2));
    assert((be16(p, 4) as i16) as u16 == be16(p, 4));
}

/// A barometric-altitude frame carries the altitude in its first two bytes,
/// big-endian: below 0x8000 in decimetres above -1000 m, otherwise in metres
/// in the low 15 bits; a third byte is the packed vertical speed, or bytes
/// 2-3 the signed vertical speed in cm/s.
pub proof fn law_barometric_altitude_fields(p: Seq<u8>)
    requires
        p.len() == 3 || p.len() == 4,
    ensures
        telemetry_spec(CRSF_FRAME_TYPE_BAROMETRIC_ALTITUDE, p) matches Ok(
            Telemetry::BarometricAltitude { altitude_dm, vertical_speed },
        ) && altitude_dm as int == (if word16(p, 0) < 0x8000 {
            word16(p, 0) - 10000
        } else {
            (word16(p, 0) - 0x8000) * 10
        }) && (if p.len() == 3 {
            vertical_speed == VerticalSpeed::Packed(p[2] as i8)
        } else {
            vertical_speed matches VerticalSpeed::CentimetresPerSecond(v) && v as u16 as int == word16(p, 2)
        }),
{
    lemma_signed_round_trips();
    if p.len() == 4 {
        assert((be16(p, 2) as i16) as u16 == be16(p, 2));
    }
}

/// A range frame of 12 bytes, version 1 (byte 2), carries front, back, left
/// and right readings as big-endian 16-bit millimetres in bytes 4-11; each
/// is present when its bit (0 to 3) of the mask in byte 3 is set and it is
/// not 0xFFFF.
pub proof fn law_range_fields(p: Seq<u8>)
    requires
        p.len() == 12,
        p[2] == 1,
    ensures
        telemetry_spec(CRSF_FRAME_TYPE_RANGE, p) matches Ok(
            Telemetry::Range { front_mm, back_mm, left_mm, right_mm },
        ) && front_mm == (if p[3] % 2 == 1 && word16(p, 4) != 0xFFFF { Some(word16(p, 4) as u16) } else { None })
            && back_mm == (if (p[3] / 2) % 2 == 1 && word16(p, 6) != 0xFFFF {
            Some(word16(p, 6) as u16)
        } else {
            None
        }) && left_mm == (if (p[3] / 4) % 2 == 1 && word16(p, 8) != 0xFFFF {
            Some(word16(p, 8) as u16)
        } else {
            None
        }) && right_mm == (if (p[3] / 8) % 2 == 1 && word16(p, 10) != 0xFFFF {
            Some(word16(p, 10) as u16)
        } else {
            None
        }),
{
    let mask = p[3];
    assert(mask & (1u8 << 0u8) == 0 <==> mask % 2 == 0) by (bit_vector);
    assert(mask & (1u8 << 1u8) == 0 <==> (mask / 2) % 2 == 0) by (bit_vector);
    assert(mask & (1u8 << 2u8) == 0 <==> (mask / 4) % 2 == 0) by (bit_vector);
    assert(mask & (1u8 << 3u8) == 0 <==> (mask / 8) % 2 == 0) by (bit_vector);
}

impl CrsfFrame {
    /// The telemetry that this frame carries.
    pub fn telemetry(&self) -> (result: Result<CrsfTelemetry, CrsfError>)
        ensures
            telemetry_result_view(result) == telemetry_spec(self@[2], Self::payload_of(self@)),
            ({
                let name = Self::payload_of(self@).take(first_zero(Self::payload_of(self@)));
                self@[2] == CRSF_FRAME_TYPE_FLIGHT_MODE && (forall|i: int| 0 <= i < name.len() ==> name[i] < 128)
                    ==> (result matches Ok(Telemetry::FlightMode(text)) && text@ == name.map_values(|b: u8| b as char))
            }),
    {
        proof { use_type_invariant(self); }
        let p = self.payload.as_slice();
        let frame_type = self.frame_type;
        if frame_type == CRSF_FRAME_TYPE_GPS {
            require_payload(frame_type, p, 15)?;
            Ok(Telemetry::Gps {
                latitude_e7: read_i32(p, 0),
                longitude_e7: read_i32(p, 4),
                ground_speed_dkmh: read_u16(p, 8),
                heading_cdeg: read_u16(p, 10),
                altitude_metres: read_u16(p, 12) as i32 - 1000,
                satellites: p[14],
            })
        } else if frame_type == CRSF_FRAME_TYPE_VARIO {
            require_payload(frame_type, p, 2)?;
            Ok(Telemetry::Vario { vertical_speed_cms: read_i16(p, 0) })
        } else if frame_type == CRSF_FRAME_TYPE_BATTERY {
            require_payload(frame_type, p, 8)?;
            let capacity_mah = p[4] as u32 * 65536 + p[5] as u32 * 256 + p[6] as u32;
            Ok(Telemetry::Battery {
                voltage_dv: read_u16(p, 0),
                current_da: read_u16(p, 2),
                capacity_mah,
                remaining_percent: p[7],
            })
        } else if frame_type == CRSF_FRAME_TYPE_BAROMETRIC_ALTITUDE {
            if p.len() != 3 && p.len() != 4 {
                return Err(CrsfError::PayloadLength { frame_type, expected: 3, actual: p.len() });
            }
            let packed = read_u16(p, 0);
            let altitude_dm = if packed < 0x8000 {
                packed as i32 - 10000
            } else {
                (packed - 0x8000) as i32 * 10
            };
            let vertical_speed = if p.len() == 3 {
                VerticalSpeed::Packed(p[2] as i8)
            } else {
                VerticalSpeed::CentimetresPerSecond(read_i16(p, 2))
            };
            Ok(Telemetry::BarometricAltitude { altitude_dm, vertical_speed })
        } else if frame_type == CRSF_FRAME_TYPE_HEARTBEAT {
            Ok(Telemetry::Heartbeat)
        } else if frame_type == CRSF_FRAME_TYPE_BAROMETER {
            require_payload(frame_type, p, 8)?;
            Ok(Telemetry::Barometer { pressure_pa: read_i32(p, 0), temperature_cdeg_c: read_i32(p, 4) })
        } else if frame_type == CRSF_FRAME_TYPE_MAGNETOMETER {
            require_payload(frame_type, p, 6)?;
            Ok(Telemetry::Magnetometer { x: read_i16(p, 0), y: read_i16(p, 2), z: read_i16(p, 4) })
        } else if frame_type == CRSF_FRAME_TYPE_ATTITUDE {
            require_payload(frame_type, p, 6)?;
            Ok(Telemetry::Attitude { pitch_e4: read_i16(p, 0), roll_e4: read_i16(p, 2), yaw_e4: read_i16(p, 4) })
        } else if frame_type == CRSF_FRAME_TYPE_FLIGHT_MODE {
            let end = first_zero_index(p);
            let name = slice_range(p, 0, end);
            assert(name@ =~= p@.take(end as int));
            Ok(Telemetry::FlightMode(string_from_utf8_lossy(name.as_slice())))
        } else if frame_type == CRSF_FRAME_TYPE_DEVICE_INFO {
            Ok(Telemetry::DeviceInfo)
        } else if frame_type == CRSF_FRAME_TYPE_MSP_RESPONSE {
            Ok(Telemetry::MspResponse)
        } else if frame_type == CRSF_FRAME_TYPE_RANGE {
            if p.len() != 12 {
                return Ok(Telemetry::Unknown { frame_type });
            }
            let version = p[2];
            if version != 1 {
                return Err(CrsfError::UnsupportedRangeVersion { version });
            }
            let valid_mask = p[3];
            Ok(Telemetry::Range {
                front_mm: read_range(p, 4, valid_mask, 0),
                back_mm: read_range(p, 6, valid_mask, 1),
                left_mm: read_range(p, 8, valid_mask, 2),
                right_mm: read_range(p, 10, valid_mask, 3),
            })
        } else {
            Ok(Telemetry::Unknown { frame_type })
        }
    }
}

impl Telemetry<String> {
    /// A short human-readable name of the telemetry kind.
    pub fn name(&self) -> (name: &'static str)
        ensures
            name@ == match self {
                Telemetry::Gps { .. } => "GPS"@,
                Telemetry::Vario { .. } => "Vario"@,
                Telemetry::Battery { .. } => "Battery"@,
                Telemetry::BarometricAltitude { .. } => "Barometric altitude"@,
                Telemetry::Heartbeat => "Heartbeat"@,
                Telemetry::Barometer { .. } => "Barometer"@,
                Telemetry::Magnetometer { .. } => "Magnetometer"@,
                Telemetry::Attitude { .. } => "Attitude"@,
                Telemetry::FlightMode(_) => "Flight mode"@,
                Telemetry::DeviceInfo => "Device info"@,
                Telemetry::MspResponse => "MSP response"@,
                Telemetry::Range { .. } => "Range"@,
                Telemetry::Unknown { .. } => "Unknown"@,
            },
    {
        match self {
            Telemetry::Gps { .. } => "GPS",
            Telemetry::Vario { .. } => "Vario",
            Telemetry::Battery { .. } => "Battery",
            Telemetry::BarometricAltitude { .. } => "Barometric altitude",
            Telemetry::Heartbeat => "Heartbeat",
            Telemetry::Barometer { .. } => "Barometer",
            Telemetry::Magnetometer { .. } => "Magnetometer",
            Telemetry::Attitude { .. } => "Attitude",
            Telemetry::FlightMode(_) => "Flight mode",
            Telemetry::DeviceInfo => "Device info",
            Telemetry::MspResponse => "MSP response",
            Telemetry::Range { .. } => "Range",
            Telemetry::Unknown { .. } => "Unknown",
        }
    }
}

/// The bytes that hexadecimal words stand for, where each of them is one.
pub open spec fn hex_words_bytes(words: Seq<Seq<char>>) -> Seq<u8> {
    Seq::new(words.len(), |k: int| hex_byte(words[k])->0)
}

impl CrsfFrame {
    /// Reads a frame written as hexadecimal bytes separated by ASCII whitespace.
    /// The first word that is not a hexadecimal byte is reported with its
    /// one-based position; otherwise the bytes are checked as a frame.
    pub fn from_hex(value: &str) -> (result: Result<Self, CrsfError>)
        ensures
            ({
                let words = ascii_words(value@);
                &&& (exists|k: int| 0 <= k < words.len() && hex_byte(words[k]) is None) ==> (
                result matches Err(CrsfError::InvalidHexByte { position, value: text }) && {
                    &&& 1 <= position <= words.len()
                    &&& hex_byte(words[position - 1]) is None
                    &&& forall|k: int| 0 <= k < position - 1 ==> hex_byte(words[k]) is Some
                    &&& text@ == words[position - 1]
                })
                &&& (forall|k: int| 0 <= k < words.len() ==> hex_byte(words[k]) is Some) ==> (
                match result {
                    Ok(frame) => frame_check(hex_words_bytes(words)) is Ok && frame@ == hex_words_bytes(
                        words,
                    ),
                    Err(e) => frame_check(hex_words_bytes(words)) == Err::<(), CrsfError>(e),
                })
            }),
    {
        let n = value.unicode_len();
        let ghost text = value@;
        let ghost words = ascii_words(text);
        let mut raw: Vec<u8> = Vec::new();
        let mut start: Option<usize> = None;
        let mut i: usize = 0;
        while i < n
            invariant
                n == text.len(),
                text == value@,
                words == ascii_words(text),
                i <= n,
                match start {
                    None => raw@.len() == ascii_words(text.take(i as int)).len() && (i == 0
                        || is_ascii_ws(text[i - 1])) && raw@.len() <= i,
                    Some(st) => {
                        &&& st < i
                        &&& raw@.len() <= st
                        &&& ascii_words(text.take(i as int)).len() == raw@.len() + 1
                        &&& ascii_words(text.take(i as int)).last() == text.subrange(
                            st as int,
                            i as int,
                        )
                        &&& forall|k: int| st <= k < i ==> !is_ascii_ws(#[trigger] text[k])
                        &&& (st == 0 || is_ascii_ws(text[st - 1]))
                    },
                },
                forall|k: int|
                    0 <= k < raw@.len() ==> hex_byte(#[trigger] ascii_words(text.take(i as int))[k])
                        == Some(raw@[k]),
            decreases n - i,
        {
            let c = value.get_char(i);
            let ghost before = ascii_words(text.take(i as int));
            let ghost after = ascii_words(text.take(i + 1));
            assert(text.take(i + 1).drop_last() =~= text.take(i as int));
            assert(text.take(i + 1).last() == c);
            if c == ' ' || c == '\t' || c == '\n' || c == '\x0C' || c == '\r' {
                assert(after == before);
                if let Some(st) = start {
                    match parse_hex_byte(value, st, i) {
                        Some(byte) => {
                            raw.push(byte);
                            start = None;
                        },
                        None => {
                            proof {
                                lemma_ascii_words_split(text, i + 1, n as int);
                                assert(text.take(n as int) =~= text);
                                assert(words[raw@.len() as int] == after[raw@.len() as int]);
                                assert forall|k: int| 0 <= k < raw@.len() implies hex_byte(
                                    words[k],
                                ) is Some by {
                                    assert(words[k] == after[k]);
                                }
                            }
                            let word = value.substring_char(st, i).to_owned();
                            return Err(CrsfError::InvalidHexByte { position: raw.len() + 1, value: word });
                        },
                    }
                }
            } else {
                match start {
                    None => {
                        assert(after == before.push(seq![c]));
                        assert(text.subrange(i as int, i + 1) =~= seq![c]);
                        start = Some(i);
                    },
                    Some(st) => {
                        assert(text[i - 1] == text.take(i + 1)[i - 1]);
                        assert(!is_ascii_ws(text[i - 1]));
                        assert(after == before.update(before.len() - 1, before.last().push(c)));
                        assert(text.subrange(st as int, i + 1) =~= text.subrange(st as int, i as int).push(c));
                    },
                }
            }
            i += 1;
        }
        assert(text.take(n as int) =~= text);
        if let Some(st) = start {
            match parse_hex_byte(value, st, n) {
                Some(byte) => {
                    raw.push(byte);
                },
                None => {
                    let word = value.substring_char(st, n).to_owned();
                    return Err(CrsfError::InvalidHexByte { position: raw.len() + 1, value: word });
                },
            }
        }
        assert(raw@ =~= hex_words_bytes(words));
        Self::parse(raw.as_slice())
    }

    /// The raw bytes as two-digit upper-case hexadecimal separated by spaces.
    pub fn raw_hex(&self) -> (text: String)
        ensures
            text@ == hex_join(self@, true),
    {
        let mut text = String::new();
        push_hex_join(&mut text, self.raw.as_slice(), true);
        assert(text@ =~= hex_join(self@, true));
        text
    }
}

} // verus!

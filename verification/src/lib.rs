use vstd::prelude::*;

use crate::text::{
    ascii_lower, ascii_lower_seq, contains_chars, contains_run, eq_ignore_ascii_case, hex_fixed, push_hex_fixed,
    push_lowered,
};

pub mod backend;
pub mod capture;
pub mod console;
pub mod crsf;
pub mod esphome;
pub mod noise;
pub mod protocol;
pub mod rc;
pub mod reader;
pub mod text;

pub use crsf::{
    crc8_dvb_s2, CrsfError, CrsfFrame, CrsfTelemetry, Telemetry, VerticalSpeed,
    CRSF_FRAME_SIZE_MAX, CRSF_FRAME_TYPE_ATTITUDE, CRSF_FRAME_TYPE_BAROMETER,
    CRSF_FRAME_TYPE_BAROMETRIC_ALTITUDE, CRSF_FRAME_TYPE_BATTERY, CRSF_FRAME_TYPE_DEVICE_INFO,
    CRSF_FRAME_TYPE_FLIGHT_MODE, CRSF_FRAME_TYPE_GPS, CRSF_FRAME_TYPE_HEARTBEAT,
    CRSF_FRAME_TYPE_MAGNETOMETER, CRSF_FRAME_TYPE_MSP_RESPONSE, CRSF_FRAME_TYPE_RANGE,
    CRSF_FRAME_TYPE_VARIO,
};
pub use protocol::{
    DecodedState, Decoder, DecoderStatus, MuxCalibrationError, MuxLossReason, MuxState,
    PacketError, RawReport, ReportFormat, ReportFormatParseError,
};
pub use rc::{
    ArmConfig, ArmController, ChannelCalibration, MappingError, RcChannels, RcMapping,
    RC_CHANNEL_COUNT, RC_MAX_US, RC_MID_US, RC_MIN_US,
};

verus! {

/// `std::io::Error`, carried through the library's error types.
#[verifier::external_type_specification]
#[verifier::external_body]
pub struct ExIoError(std::io::Error);

/// USB vendor id of the SAILI/PhoenixRC adapter.
pub const VENDOR_ID: u16 = 0x1781;
/// USB product id of the SAILI/PhoenixRC adapter.
pub const PRODUCT_ID: u16 = 0x0898;
/// Number of decoded controller inputs.
pub const CHANNEL_COUNT: usize = 8;
/// Size of one adapter report.
pub const REPORT_SIZE: usize = 8;
/// Largest HID report read from the adapter.
pub const MAX_REPORT_SIZE: usize = 64;

/// What the HID layer reports about the opened adapter.
#[derive(Clone, Debug, Eq, PartialEq)]
pub struct DeviceIdentity {
    pub manufacturer: String,
    pub product: String,
    pub serial_number: Option<String>,
    pub path: String,
    pub usage_page: u16,
    pub usage: u16,
    pub interface_number: i32,
    pub descriptor_hash: Option<String>,
    pub kernel_driver: Option<String>,
}

/// The report layout that device metadata suggests: the Linux `pxrc` driver
/// demultiplexes the inputs; adapters that name FeiYing, GoldWarrior or
/// KHobby (in any case) send the raw multiplexed layout.
pub open spec fn format_hint_spec(kernel_driver: Option<Seq<char>>, manufacturer: Seq<char>, product: Seq<char>) -> Option<ReportFormat> {
    if kernel_driver matches Some(d) && ascii_lower_seq(d) == ascii_lower_seq("pxrc"@) {
        Some(ReportFormat::LinuxDemuxed8)
    } else {
        let identity = ascii_lower_seq(manufacturer + " "@ + product);
        if contains_run(identity, "feiying"@) || contains_run(identity, "goldwarrior"@) || contains_run(
            identity,
            "khobby"@,
        ) {
            Some(ReportFormat::RawMuxed8)
        } else {
            None
        }
    }
}

/// An adapter that names FeiYing, GoldWarrior or KHobby, in any letter case,
/// anywhere in "manufacturer product", sends the raw multiplexed layout,
/// unless the `pxrc` driver has it: the name occurs at `at` when each of its
/// letters matches the text there with upper-case letters lowered.
pub proof fn law_named_adapters_send_raw_mux(
    kernel_driver: Option<Seq<char>>,
    manufacturer: Seq<char>,
    product: Seq<char>,
    name: Seq<char>,
    at: int,
)
    requires
        name == "feiying"@ || name == "goldwarrior"@ || name == "khobby"@,
        !(kernel_driver matches Some(d) && ascii_lower_seq(d) == ascii_lower_seq("pxrc"@)),
        0 <= at,
        at + name.len() <= (manufacturer + " "@ + product).len(),
        forall|k: int| 0 <= k < name.len() ==> ascii_lower((manufacturer + " "@ + product)[at + k]) == name[k],
    ensures
        format_hint_spec(kernel_driver, manufacturer, product) == Some(ReportFormat::RawMuxed8),
{
    let text = manufacturer + " "@ + product;
    let identity = ascii_lower_seq(text);
    assert(identity.subrange(at, at + name.len()) =~= name);
    assert(contains_run(identity, name));
}

/// A device that the `pxrc` driver (named in any letter case) has sends the
/// demultiplexed Linux layout, whatever it is called.
pub proof fn law_pxrc_driver_means_linux_layout(driver: Seq<char>, manufacturer: Seq<char>, product: Seq<char>)
    requires
        ascii_lower_seq(driver) == ascii_lower_seq("pxrc"@),
    ensures
        format_hint_spec(Some(driver), manufacturer, product) == Some(ReportFormat::LinuxDemuxed8),
{
}

impl DeviceIdentity {
    pub fn format_hint(&self) -> (hint: Option<ReportFormat>)
        ensures
            hint == format_hint_spec(
                match self.kernel_driver {
                    Some(d) => Some(d@),
                    None => None,
                },
                self.manufacturer@,
                self.product@,
            ),
    {
        if let Some(driver) = &self.kernel_driver {
            if eq_ignore_ascii_case(driver.as_str(), "pxrc") {
                return Some(ReportFormat::LinuxDemuxed8);
            }
        }
        let mut identity: Vec<char> = Vec::new();
        push_lowered(&mut identity, self.manufacturer.as_str());
        push_lowered(&mut identity, " ");
        push_lowered(&mut identity, self.product.as_str());
        assert(identity@ =~= ascii_lower_seq(self.manufacturer@ + " "@ + self.product@));
        if contains_chars(&identity, "feiying") || contains_chars(&identity, "goldwarrior")
            || contains_chars(&identity, "khobby") {
            Some(ReportFormat::RawMuxed8)
        } else {
            None
        }
    }
}

/// The 64-bit FNV-1a hash of the bytes.
pub open spec fn fnv1a_64(bytes: Seq<u8>) -> u64
    decreases bytes.len(),
{
    if bytes.len() == 0 {
        0xcbf29ce484222325u64
    } else {
        let mixed = fnv1a_64(bytes.drop_last()) ^ (bytes.last() as u64);
        ((mixed as nat * 0x100000001b3nat) % 0x1_0000_0000_0000_0000nat) as u64
    }
}

/// FNV-1a over 64 bits: the hash of no bytes is the offset basis
/// 0xcbf29ce484222325, and each further byte is mixed in by xor and then
/// multiplied by the FNV prime 0x100000001b3, modulo 2^64.
pub proof fn law_fnv1a_64_steps(bytes: Seq<u8>, b: u8)
    ensures
        fnv1a_64(Seq::empty()) == 0xcbf29ce484222325u64,
        fnv1a_64(bytes.push(b)) as nat == ((fnv1a_64(bytes) ^ (b as u64)) as nat * 1099511628211nat)
            % 18446744073709551616nat,
{
    assert(bytes.push(b).drop_last() =~= bytes);
}

/// A fingerprint of the adapter's HID report descriptor: the 64-bit FNV-1a
/// hash of its bytes in sixteen lower-case hexadecimal digits.
pub fn descriptor_hash(descriptor: &[u8]) -> (text: String)
    ensures
        text@ == hex_fixed(fnv1a_64(descriptor@) as nat, 16, false),
{
    let mut hash: u64 = 0xcbf29ce484222325;
    let mut i: usize = 0;
    while i < descriptor.len()
        invariant
            i <= descriptor.len(),
            hash == fnv1a_64(descriptor@.take(i as int)),
        decreases descriptor.len() - i,
    {
        assert(descriptor@.take(i + 1).drop_last() =~= descriptor@.take(i as int));
        assert(descriptor@.take(i + 1).last() == descriptor@[i as int]);
        hash = hash ^ (descriptor[i] as u64);
        hash = hash.wrapping_mul(0x100000001b3);
        i += 1;
    }
    assert(descriptor@.take(i as int) =~= descriptor@);
    let mut text = String::new();
    push_hex_fixed(&mut text, hash, 16, false);
    text
}

/// One HID report with its arrival time in nanoseconds.
#[derive(Clone, Debug)]
pub struct HidReport {
    bytes: Vec<u8>,
    received_at: u64,
}

impl HidReport {
    pub closed spec fn bytes_spec(&self) -> Seq<u8> {
        self.bytes@
    }

    pub closed spec fn received_at_spec(&self) -> u64 {
        self.received_at
    }

    pub fn bytes(&self) -> (bytes: &[u8])
        ensures
            bytes@ == self.bytes_spec(),
    {
        self.bytes.as_slice()
    }

    pub fn received_at(&self) -> (at: u64)
        ensures
            at == self.received_at_spec(),
    {
        self.received_at
    }
}

/// The outcome of one timed HID read: nothing arrived, or a report arrived
/// (arrival time in nanoseconds on the reader's monotonic clock).
#[derive(Clone, Debug, Eq, PartialEq)]
pub enum ReadReportStatus {
    Timeout,
    Report { bytes: Vec<u8>, received_at: u64 },
}

} // verus!

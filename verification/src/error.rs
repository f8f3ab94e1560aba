//! The library's error values and their user-facing messages.

use vstd::prelude::*;

use crate::device::{hidpp_error_name, hidpp_error_name_text, ProtocolError};
use crate::text::{dec, hex2_lower, push_dec, push_hex2_lower, push_str, NumberError};

verus! {

/// A diagnostic whose text is fixed.
#[derive(Clone, Copy, Debug, PartialEq, Eq)]
pub enum Msg {
    FeatureReplyTooShort,
    FeatureUnavailable,
    InvalidShortRequest,
    RequestNotSent,
    NoDevice,
    ShortLookupReply,
    ShortDeviceInfo,
    ShortModelTable,
    InvalidModelTable,
    NoBoltMouse,
    BatteryReplyTooShort,
    DpiRange,
    DpiReplyTooShort,
    FirmwareUnreadable,
    FirmwareInfoTooShort,
    ReceiverTimeout,
    ReceiverRequestNotSent,
    FirmwareEntityTooShort,
    HardwareRevisionTooShort,
    ReceiverEntityTooShort,
    ForceButtonFixed,
    ForceCurrentTooShort,
    ForceReplyTooShort,
    ForceReplyInvalid,
    HapticStrengthRange,
    HapticReplyTooShort,
    HapticEffectRange,
    HapticPacketNotSent,
    HostRange,
    WheelSettingUsage,
    ThumbSettingUsage,
    RatchetChoice,
    RatchetSpeedRange,
    WheelForceRange,
    ToggleChoice,
    WheelReplyTooShort,
    ThumbReplyTooShort,
    ConfigRatchet,
    ConfigLine,
    ConfigBool,
    ConfigString,
    DaemonUsage,
    ServiceUnderSudo,
    EmptyUid,
    UnknownCommand,
    StatusUsage,
    SetUsage,
    HapticStrengthMisuse,
    BatteryJsonHint,
    DpiJsonHint,
    WheelJsonHint,
    ThumbWheelJsonHint,
    ForceButtonJsonHint,
    HapticJsonHint,
    FirmwareJsonHint,
    TooManySymlinks,
}

/// The text of each fixed diagnostic.
pub open spec fn msg_text(m: Msg) -> Seq<char> {
    match m {
        Msg::FeatureReplyTooShort => "the feature lookup reply was too short"@,
        Msg::FeatureUnavailable => "that feature isn't available on this device"@,
        Msg::InvalidShortRequest => "invalid short HID++ request"@,
        Msg::RequestNotSent => "that request didn't fully send"@,
        Msg::NoDevice => "couldn't find an MX Master 4 HID++ device over Bluetooth or a Logi Bolt receiver"@,
        Msg::ShortLookupReply => "short feature lookup reply"@,
        Msg::ShortDeviceInfo => "short device information reply"@,
        Msg::ShortModelTable => "short device model ID table"@,
        Msg::InvalidModelTable => "invalid device model ID table"@,
        Msg::NoBoltMouse => "couldn't find a connected MX Master 4 in the Bolt receiver's device slots"@,
        Msg::BatteryReplyTooShort => "the battery reply was too short"@,
        Msg::DpiRange => "pick a DPI value from 200 to 8000"@,
        Msg::DpiReplyTooShort => "the dpi reply was too short"@,
        Msg::FirmwareUnreadable => "couldn't read firmware information from the mouse or Bolt receiver"@,
        Msg::FirmwareInfoTooShort => "the device firmware information reply was too short"@,
        Msg::ReceiverTimeout => "the Bolt receiver didn't answer the firmware request in time"@,
        Msg::ReceiverRequestNotSent => "the receiver firmware request didn't fully send"@,
        Msg::FirmwareEntityTooShort => "the mouse firmware entity reply was too short"@,
        Msg::HardwareRevisionTooShort => "the mouse hardware revision reply was too short"@,
        Msg::ReceiverEntityTooShort => "the Bolt receiver firmware entity reply was too short"@,
        Msg::ForceButtonFixed => "that force button isn't changeable"@,
        Msg::ForceCurrentTooShort => "the force-button current reply was too short"@,
        Msg::ForceReplyTooShort => "the force-button reply was too short"@,
        Msg::ForceReplyInvalid => "the force-button reply was invalid"@,
        Msg::HapticStrengthRange => "pick a haptic strength from 0 to 100"@,
        Msg::HapticReplyTooShort => "the haptic reply was too short"@,
        Msg::HapticEffectRange => "pick a haptic effect from 0 to 14"@,
        Msg::HapticPacketNotSent => "that haptic packet didn't fully send"@,
        Msg::HostRange => "pick a host from 1 to 3"@,
        Msg::WheelSettingUsage => "try `mx4 set wheel ratchet free`, `mx4 set wheel ratchet-speed 10`, `mx4 set wheel force 75`, `mx4 set wheel invert on`, `mx4 set wheel resolution on`, or `mx4 set wheel divert on`"@,
        Msg::ThumbSettingUsage => "try `mx4 set thumb-wheel invert on` or `mx4 set thumb-wheel divert on`"@,
        Msg::RatchetChoice => "pick `free` or `ratchet`"@,
        Msg::RatchetSpeedRange => "pick a ratchet-speed value from 0 to 50"@,
        Msg::WheelForceRange => "pick a wheel force value from 1 to 100"@,
        Msg::ToggleChoice => "pick `on` or `off`"@,
        Msg::WheelReplyTooShort => "the wheel reply was too short"@,
        Msg::ThumbReplyTooShort => "the thumb-wheel reply was too short"@,
        Msg::ConfigRatchet => "wheel_ratchet must be `free` or `ratchet`"@,
        Msg::ConfigLine => "config lines must look like `key = value`"@,
        Msg::ConfigBool => "boolean config values must be `true` or `false`"@,
        Msg::ConfigString => "string config values must be double-quoted"@,
        Msg::DaemonUsage => "try `mx4 daemon` or `mx4 daemon --once`"@,
        Msg::ServiceUnderSudo => "run daemon service commands without sudo"@,
        Msg::EmptyUid => "id -u returned an empty uid"@,
        Msg::UnknownCommand => "I only know `status`, `set`, `daemon`, `haptic`, `battery`, and `firmware` right now"@,
        Msg::StatusUsage => "try `mx4 status`, `mx4 status --json`, `mx4 status battery --json`, `mx4 status dpi --json`, `mx4 status wheel --json`, `mx4 status thumb-wheel --json`, `mx4 status force-button --json`, or `mx4 status haptic --json`"@,
        Msg::SetUsage => "try `mx4 set strength 100`, `mx4 set host 2`, `mx4 set dpi 2500`, `mx4 set wheel ratchet free`, `mx4 set wheel ratchet-speed 10`, or `mx4 set thumb-wheel invert on`"@,
        Msg::HapticStrengthMisuse => "use `mx4 set strength ...` instead of `mx4 haptic strength ...`"@,
        Msg::BatteryJsonHint => "try `mx4 battery --json` if you want JSON"@,
        Msg::DpiJsonHint => "try `mx4 status dpi --json` if you want JSON"@,
        Msg::WheelJsonHint => "try `mx4 status wheel --json` if you want JSON"@,
        Msg::ThumbWheelJsonHint => "try `mx4 status thumb-wheel --json` if you want JSON"@,
        Msg::ForceButtonJsonHint => "try `mx4 status force-button --json` if you want JSON"@,
        Msg::HapticJsonHint => "try `mx4 status haptic --json` if you want JSON"@,
        Msg::FirmwareJsonHint => "try `mx4 firmware --json` if you want JSON"@,
        Msg::TooManySymlinks => "too many symlinks in the config path"@,
    }
}

impl Msg {
    pub fn text(self) -> (t: &'static str)
        ensures
            t@ == msg_text(self),
    {
        match self {
            Msg::FeatureReplyTooShort => "the feature lookup reply was too short",
            Msg::FeatureUnavailable => "that feature isn't available on this device",
            Msg::InvalidShortRequest => "invalid short HID++ request",
            Msg::RequestNotSent => "that request didn't fully send",
            Msg::NoDevice => "couldn't find an MX Master 4 HID++ device over Bluetooth or a Logi Bolt receiver",
            Msg::ShortLookupReply => "short feature lookup reply",
            Msg::ShortDeviceInfo => "short device information reply",
            Msg::ShortModelTable => "short device model ID table",
            Msg::InvalidModelTable => "invalid device model ID table",
            Msg::NoBoltMouse => "couldn't find a connected MX Master 4 in the Bolt receiver's device slots",
            Msg::BatteryReplyTooShort => "the battery reply was too short",
            Msg::DpiRange => "pick a DPI value from 200 to 8000",
            Msg::DpiReplyTooShort => "the dpi reply was too short",
            Msg::FirmwareUnreadable => "couldn't read firmware information from the mouse or Bolt receiver",
            Msg::FirmwareInfoTooShort => "the device firmware information reply was too short",
            Msg::ReceiverTimeout => "the Bolt receiver didn't answer the firmware request in time",
            Msg::ReceiverRequestNotSent => "the receiver firmware request didn't fully send",
            Msg::FirmwareEntityTooShort => "the mouse firmware entity reply was too short",
            Msg::HardwareRevisionTooShort => "the mouse hardware revision reply was too short",
            Msg::ReceiverEntityTooShort => "the Bolt receiver firmware entity reply was too short",
            Msg::ForceButtonFixed => "that force button isn't changeable",
            Msg::ForceCurrentTooShort => "the force-button current reply was too short",
            Msg::ForceReplyTooShort => "the force-button reply was too short",
            Msg::ForceReplyInvalid => "the force-button reply was invalid",
            Msg::HapticStrengthRange => "pick a haptic strength from 0 to 100",
            Msg::HapticReplyTooShort => "the haptic reply was too short",
            Msg::HapticEffectRange => "pick a haptic effect from 0 to 14",
            Msg::HapticPacketNotSent => "that haptic packet didn't fully send",
            Msg::HostRange => "pick a host from 1 to 3",
            Msg::WheelSettingUsage => "try `mx4 set wheel ratchet free`, `mx4 set wheel ratchet-speed 10`, `mx4 set wheel force 75`, `mx4 set wheel invert on`, `mx4 set wheel resolution on`, or `mx4 set wheel divert on`",
            Msg::ThumbSettingUsage => "try `mx4 set thumb-wheel invert on` or `mx4 set thumb-wheel divert on`",
            Msg::RatchetChoice => "pick `free` or `ratchet`",
            Msg::RatchetSpeedRange => "pick a ratchet-speed value from 0 to 50",
            Msg::WheelForceRange => "pick a wheel force value from 1 to 100",
            Msg::ToggleChoice => "pick `on` or `off`",
            Msg::WheelReplyTooShort => "the wheel reply was too short",
            Msg::ThumbReplyTooShort => "the thumb-wheel reply was too short",
            Msg::ConfigRatchet => "wheel_ratchet must be `free` or `ratchet`",
            Msg::ConfigLine => "config lines must look like `key = value`",
            Msg::ConfigBool => "boolean config values must be `true` or `false`",
            Msg::ConfigString => "string config values must be double-quoted",
            Msg::DaemonUsage => "try `mx4 daemon` or `mx4 daemon --once`",
            Msg::ServiceUnderSudo => "run daemon service commands without sudo",
            Msg::EmptyUid => "id -u returned an empty uid",
            Msg::UnknownCommand => "I only know `status`, `set`, `daemon`, `haptic`, `battery`, and `firmware` right now",
            Msg::StatusUsage => "try `mx4 status`, `mx4 status --json`, `mx4 status battery --json`, `mx4 status dpi --json`, `mx4 status wheel --json`, `mx4 status thumb-wheel --json`, `mx4 status force-button --json`, or `mx4 status haptic --json`",
            Msg::SetUsage => "try `mx4 set strength 100`, `mx4 set host 2`, `mx4 set dpi 2500`, `mx4 set wheel ratchet free`, `mx4 set wheel ratchet-speed 10`, or `mx4 set thumb-wheel invert on`",
            Msg::HapticStrengthMisuse => "use `mx4 set strength ...` instead of `mx4 haptic strength ...`",
            Msg::BatteryJsonHint => "try `mx4 battery --json` if you want JSON",
            Msg::DpiJsonHint => "try `mx4 status dpi --json` if you want JSON",
            Msg::WheelJsonHint => "try `mx4 status wheel --json` if you want JSON",
            Msg::ThumbWheelJsonHint => "try `mx4 status thumb-wheel --json` if you want JSON",
            Msg::ForceButtonJsonHint => "try `mx4 status force-button --json` if you want JSON",
            Msg::HapticJsonHint => "try `mx4 status haptic --json` if you want JSON",
            Msg::FirmwareJsonHint => "try `mx4 firmware --json` if you want JSON",
            Msg::TooManySymlinks => "too many symlinks in the config path",
        }
    }
}

/// The kind of a local filesystem or lock failure, as the operating system classifies it.
#[derive(Clone, Copy, Debug, PartialEq, Eq)]
pub enum IoKind {
    NotFound,
    PermissionDenied,
    AlreadyExists,
    WouldBlock,
    InvalidInput,
    InvalidData,
    TimedOut,
    Interrupted,
    Unsupported,
    Other,
}

/// A well-formed reply from the addressed device that answers a different feature or function.
#[derive(Clone, Copy, Debug, PartialEq, Eq)]
pub struct UnexpectedReply {
    pub feature: u8,
    pub function: u8,
    pub got_feature: u8,
    pub got_function: u8,
}

/// Everything that can go wrong in the library, and what the outside world reported.
#[derive(Debug)]
pub enum Error {
    /// A text that should hold an unsigned number does not.
    Number(NumberError),
    /// A diagnostic with fixed text.
    Message(Msg),
    /// The device did not answer a request in time.
    Timeout,
    /// The device rejected a request.
    Protocol(ProtocolError),
    /// The device answered a request with a reply for another feature or function.
    Unexpected(UnexpectedReply),
    /// The Bolt receiver rejected a firmware register read with this error code.
    ReceiverError(u8),
    /// A force-button threshold lies outside the range the device reports.
    ForceButtonRange { min: u16, max: u16 },
    /// A local filesystem or lock failure: its kind and the operating system's message.
    Io(IoKind, String),
    /// A HID transport failure, as reported by the HID layer.
    Hid(String),
    /// A saved setting could not be applied; the text names the setting and the cause.
    Setting(String),
}

/// The user-facing message of an error.
pub open spec fn message_of(e: Error) -> Seq<char> {
    match e {
        Error::Number(NumberError::Empty) => "cannot parse integer from empty string"@,
        Error::Number(NumberError::InvalidDigit) => "invalid digit found in string"@,
        Error::Number(NumberError::PosOverflow) => "number too large to fit in target type"@,
        Error::Message(m) => msg_text(m),
        Error::Timeout => "the device didn't answer in time"@,
        Error::Protocol(p) => "device returned protocol error 0x"@ + hex2_lower(p.code) + " ("@
            + hidpp_error_name_text(p.report, p.code) + ")"@,
        Error::Unexpected(u) => "device returned an unexpected reply for feature 0x"@ + hex2_lower(
            u.feature,
        ) + " function 0x"@ + hex2_lower(u.function) + ": feature 0x"@ + hex2_lower(u.got_feature)
            + " function 0x"@ + hex2_lower(u.got_function),
        Error::ReceiverError(code) => "the Bolt receiver returned HID++ error 0x"@ + hex2_lower(code),
        Error::ForceButtonRange { min, max } => "pick a force-button value from "@ + dec(
            min as nat,
        ) + " to "@ + dec(max as nat),
        Error::Io(_, s) => s@,
        Error::Hid(s) => s@,
        Error::Setting(s) => s@,
    }
}

impl Error {
    /// A copy of the error.
    pub fn duplicate(&self) -> (r: Error)
        ensures
            r == *self,
    {
        match self {
            Error::Number(k) => Error::Number(*k),
            Error::Message(m) => Error::Message(*m),
            Error::Timeout => Error::Timeout,
            Error::Protocol(p) => Error::Protocol(*p),
            Error::Unexpected(u) => Error::Unexpected(*u),
            Error::ReceiverError(c) => Error::ReceiverError(*c),
            Error::ForceButtonRange { min, max } => Error::ForceButtonRange { min: *min, max: *max },
            Error::Io(k, s) => Error::Io(*k, s.clone()),
            Error::Hid(s) => Error::Hid(s.clone()),
            Error::Setting(s) => Error::Setting(s.clone()),
        }
    }

    /// The user-facing message.
    pub fn message(&self) -> (s: String)
        ensures
            s@ == message_of(*self),
    {
        let mut s = String::new();
        match self {
            Error::Number(NumberError::Empty) => push_str(
                &mut s,
                "cannot parse integer from empty string",
            ),
            Error::Number(NumberError::InvalidDigit) => push_str(
                &mut s,
                "invalid digit found in string",
            ),
            Error::Number(NumberError::PosOverflow) => push_str(
                &mut s,
                "number too large to fit in target type",
            ),
            Error::Message(m) => push_str(&mut s, m.text()),
            Error::Timeout => push_str(&mut s, "the device didn't answer in time"),
            Error::Protocol(p) => {
                push_str(&mut s, "device returned protocol error 0x");
                push_hex2_lower(&mut s, p.code);
                push_str(&mut s, " (");
                push_str(&mut s, hidpp_error_name(p.report, p.code));
                push_str(&mut s, ")");
            },
            Error::Unexpected(u) => {
                push_str(&mut s, "device returned an unexpected reply for feature 0x");
                push_hex2_lower(&mut s, u.feature);
                push_str(&mut s, " function 0x");
                push_hex2_lower(&mut s, u.function);
                push_str(&mut s, ": feature 0x");
                push_hex2_lower(&mut s, u.got_feature);
                push_str(&mut s, " function 0x");
                push_hex2_lower(&mut s, u.got_function);
            },
            Error::ReceiverError(code) => {
                push_str(&mut s, "the Bolt receiver returned HID++ error 0x");
                push_hex2_lower(&mut s, *code);
            },
            Error::ForceButtonRange { min, max } => {
                push_str(&mut s, "pick a force-button value from ");
                push_dec(&mut s, *min as u64);
                push_str(&mut s, " to ");
                push_dec(&mut s, *max as u64);
            },
            Error::Io(_, t) => push_str(&mut s, t.as_str()),
            Error::Hid(t) => push_str(&mut s, t.as_str()),
            Error::Setting(t) => push_str(&mut s, t.as_str()),
        }
        s
    }
}

} // verus!

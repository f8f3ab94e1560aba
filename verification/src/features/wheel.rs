//! The scroll wheel (SmartShift ratchet and high-resolution scrolling) and the thumb wheel.

use vstd::prelude::*;

use crate::error::{Error, Msg};
use crate::exchange::{
    ask, call, call_plan, fail, feature_call_step, feature_call_step_at, feature_index, feature_index_of, follows, lookup,
    lookup_step, map_plan, request, retag, CallOutcome, Plan, Reply, Step,
};
use crate::text::{
    bool_text, chars_eq, chars_of, dec, parse_trimmed, parse_unsigned, push_bool, push_dec,
    push_str, trim, trim_chars,
};

verus! {

pub const SMART_SHIFT_ENHANCED: u16 = 0x2111;
pub const HIRES_WHEEL: u16 = 0x2121;
pub const THUMB_WHEEL: u16 = 0x2150;

pub const WHEEL_DIVERT_MASK: u8 = 0x01;
pub const WHEEL_RESOLUTION_MASK: u8 = 0x02;
pub const WHEEL_INVERT_MASK: u8 = 0x04;
pub const THUMB_MODE_MASK: [u8; 2] = [0x01, 0x00];
pub const THUMB_INVERT_MASK: [u8; 2] = [0x00, 0x01];
pub const WHEEL_RATCHET_FREE: u8 = 0x01;
pub const WHEEL_RATCHET_RATCHET: u8 = 0x02;

#[derive(Clone, Copy, Debug, PartialEq, Eq)]
pub struct SmartShiftState {
    pub ratchet: u8,
    pub ratchet_speed: u8,
    pub force: u8,
}

#[derive(Clone, Copy, Debug, PartialEq, Eq)]
pub struct HiresWheelStatus {
    pub invert: bool,
    pub resolution: bool,
    pub divert: bool,
}

#[derive(Clone, Copy, Debug, PartialEq, Eq)]
pub struct ThumbWheelStatus {
    pub invert: bool,
    pub divert: bool,
}

impl DeepView for SmartShiftState {
    type V = SmartShiftState;

    open spec fn deep_view(&self) -> SmartShiftState {
        *self
    }
}

impl DeepView for HiresWheelStatus {
    type V = HiresWheelStatus;

    open spec fn deep_view(&self) -> HiresWheelStatus {
        *self
    }
}

impl DeepView for ThumbWheelStatus {
    type V = ThumbWheelStatus;

    open spec fn deep_view(&self) -> ThumbWheelStatus {
        *self
    }
}

pub open spec fn ratchet_arg(arg: Seq<char>) -> Result<u8, Error> {
    if trim(arg) == "free"@ {
        Ok(WHEEL_RATCHET_FREE)
    } else if trim(arg) == "ratchet"@ {
        Ok(WHEEL_RATCHET_RATCHET)
    } else {
        Err(Error::Message(Msg::RatchetChoice))
    }
}

/// `free` or `ratchet`, as the SmartShift mode byte.
pub fn parse_ratchet(arg: &str) -> (r: Result<u8, Error>)
    ensures
        r == ratchet_arg(arg@),
{
    let chars = chars_of(arg);
    let t = trim_chars(chars.as_slice());
    if chars_eq(t.as_slice(), "free") {
        Ok(WHEEL_RATCHET_FREE)
    } else if chars_eq(t.as_slice(), "ratchet") {
        Ok(WHEEL_RATCHET_RATCHET)
    } else {
        Err(Error::Message(Msg::RatchetChoice))
    }
}

pub open spec fn ratchet_speed_arg(arg: Seq<char>) -> Result<u8, Error> {
    match parse_unsigned(trim(arg), u8::MAX as nat) {
        Err(k) => Err(Error::Number(k)),
        Ok(n) => if n > 50 {
            Err(Error::Message(Msg::RatchetSpeedRange))
        } else {
            Ok(n as u8)
        },
    }
}

/// A SmartShift transition speed from 0 to 50.
pub fn parse_ratchet_speed(arg: &str) -> (r: Result<u8, Error>)
    ensures
        r == ratchet_speed_arg(arg@),
{
    let chars = chars_of(arg);
    match parse_trimmed(chars.as_slice(), u8::MAX as u64) {
        Err(k) => Err(Error::Number(k)),
        Ok(n) => {
            if n > 50 {
                Err(Error::Message(Msg::RatchetSpeedRange))
            } else {
                Ok(n as u8)
            }
        },
    }
}

pub open spec fn force_arg(arg: Seq<char>) -> Result<u8, Error> {
    match parse_unsigned(trim(arg), u8::MAX as nat) {
        Err(k) => Err(Error::Number(k)),
        Ok(n) => if 1 <= n <= 100 {
            Ok(n as u8)
        } else {
            Err(Error::Message(Msg::WheelForceRange))
        },
    }
}

/// A ratchet resistance from 1 to 100.
pub fn parse_force(arg: &str) -> (r: Result<u8, Error>)
    ensures
        r == force_arg(arg@),
{
    let chars = chars_of(arg);
    match parse_trimmed(chars.as_slice(), u8::MAX as u64) {
        Err(k) => Err(Error::Number(k)),
        Ok(n) => {
            if 1 <= n && n <= 100 {
                Ok(n as u8)
            } else {
                Err(Error::Message(Msg::WheelForceRange))
            }
        },
    }
}

pub open spec fn toggle_arg(arg: Seq<char>) -> Result<bool, Error> {
    if trim(arg) == "on"@ {
        Ok(true)
    } else if trim(arg) == "off"@ {
        Ok(false)
    } else {
        Err(Error::Message(Msg::ToggleChoice))
    }
}

/// `on` or `off`.
pub fn parse_toggle(arg: &str) -> (r: Result<bool, Error>)
    ensures
        r == toggle_arg(arg@),
{
    let chars = chars_of(arg);
    let t = trim_chars(chars.as_slice());
    if chars_eq(t.as_slice(), "on") {
        Ok(true)
    } else if chars_eq(t.as_slice(), "off") {
        Ok(false)
    } else {
        Err(Error::Message(Msg::ToggleChoice))
    }
}

/// The SmartShift state in a reply: mode, transition speed and force at payload bytes 0 to 2.
pub open spec fn smart_shift_reply(reply: Seq<u8>) -> Result<SmartShiftState, Error> {
    if reply.len() <= 6 {
        Err(Error::Message(Msg::WheelReplyTooShort))
    } else {
        Ok(SmartShiftState { ratchet: reply[4], ratchet_speed: reply[5], force: reply[6] })
    }
}

pub fn parse_smart_shift_reply(reply: &[u8]) -> (r: Result<SmartShiftState, Error>)
    ensures
        r == smart_shift_reply(reply@),
{
    if reply.len() <= 6 {
        return Err(Error::Message(Msg::WheelReplyTooShort));
    }
    Ok(SmartShiftState { ratchet: reply[4], ratchet_speed: reply[5], force: reply[6] })
}

/// The scroll-wheel flags as a status.
pub open spec fn hires_flags(flags: u8) -> HiresWheelStatus {
    HiresWheelStatus {
        invert: flags & WHEEL_INVERT_MASK != 0,
        resolution: flags & WHEEL_RESOLUTION_MASK != 0,
        divert: flags & WHEEL_DIVERT_MASK != 0,
    }
}

pub open spec fn hires_reply(reply: Seq<u8>) -> Result<HiresWheelStatus, Error> {
    if reply.len() <= 4 {
        Err(Error::Message(Msg::WheelReplyTooShort))
    } else {
        Ok(hires_flags(reply[4]))
    }
}

pub fn parse_hires_reply(reply: &[u8]) -> (r: Result<HiresWheelStatus, Error>)
    ensures
        r == hires_reply(reply@),
{
    if reply.len() <= 4 {
        return Err(Error::Message(Msg::WheelReplyTooShort));
    }
    let flags = reply[4];
    Ok(
        HiresWheelStatus {
            invert: flags & WHEEL_INVERT_MASK != 0,
            resolution: flags & WHEEL_RESOLUTION_MASK != 0,
            divert: flags & WHEEL_DIVERT_MASK != 0,
        },
    )
}

/// The thumb-wheel flags as a status: the mode byte's low bit diverts, the invert byte's low bit
/// inverts.
pub open spec fn thumb_flags(mode: u8, invert: u8) -> ThumbWheelStatus {
    ThumbWheelStatus { invert: invert & 0x01 != 0, divert: mode & 0x01 != 0 }
}

pub open spec fn thumb_reply(reply: Seq<u8>) -> Result<ThumbWheelStatus, Error> {
    if reply.len() < 6 {
        Err(Error::Message(Msg::ThumbReplyTooShort))
    } else {
        Ok(thumb_flags(reply[4], reply[5]))
    }
}

pub fn parse_thumb_reply(reply: &[u8]) -> (r: Result<ThumbWheelStatus, Error>)
    ensures
        r == thumb_reply(reply@),
{
    if reply.len() < 6 {
        return Err(Error::Message(Msg::ThumbReplyTooShort));
    }
    let flags = [reply[4], reply[5]];
    Ok(
        ThumbWheelStatus {
            invert: flags[1] & THUMB_INVERT_MASK[1] != 0,
            divert: flags[0] & THUMB_MODE_MASK[0] != 0,
        },
    )
}

pub open spec fn mask_u8(value: u8, mask: u8, enabled: bool) -> u8 {
    if enabled {
        value | mask
    } else {
        value & !mask
    }
}

/// Sets (when `enabled`) or clears the bits of `mask` in `value`.
pub fn apply_mask_u8(value: u8, mask: u8, enabled: bool) -> (r: u8)
    ensures
        r == mask_u8(value, mask, enabled),
{
    if enabled {
        value | mask
    } else {
        value & !mask
    }
}

/// Sets or clears the bits of a two-byte mask.
pub fn apply_mask_bytes(value: [u8; 2], mask: [u8; 2], enabled: bool) -> (r: [u8; 2])
    ensures
        r@ == seq![mask_u8(value@[0], mask@[0], enabled), mask_u8(value@[1], mask@[1], enabled)],
{
    let r = if enabled {
        [value[0] | mask[0], value[1] | mask[1]]
    } else {
        [value[0] & !mask[0], value[1] & !mask[1]]
    };
    assert(r@ =~= seq![mask_u8(value@[0], mask@[0], enabled), mask_u8(value@[1], mask@[1], enabled)]);
    r
}

/// Applying a mask changes exactly the masked bits: they become all set or all clear.
pub proof fn lemma_mask_u8(value: u8, mask: u8, enabled: bool)
    ensures
        mask_u8(value, mask, enabled) & mask == (if enabled {
            mask
        } else {
            0u8
        }),
        mask_u8(value, mask, enabled) & !mask == value & !mask,
{
    if enabled {
        assert((value | mask) & mask == mask) by (bit_vector);
        assert((value | mask) & !mask == value & !mask) by (bit_vector);
    } else {
        assert((value & !mask) & mask == 0u8) by (bit_vector);
        assert((value & !mask) & !mask == value & !mask) by (bit_vector);
    }
}

/// Changing one scroll-wheel flag and reading the flags back shows the new setting for that flag
/// and the old settings for the others.
pub proof fn lemma_hires_flag_roundtrip(flags: u8, enabled: bool)
    ensures
        hires_flags(mask_u8(flags, WHEEL_INVERT_MASK, enabled)) == (HiresWheelStatus {
            invert: enabled,
            ..hires_flags(flags)
        }),
        hires_flags(mask_u8(flags, WHEEL_RESOLUTION_MASK, enabled)) == (HiresWheelStatus {
            resolution: enabled,
            ..hires_flags(flags)
        }),
        hires_flags(mask_u8(flags, WHEEL_DIVERT_MASK, enabled)) == (HiresWheelStatus {
            divert: enabled,
            ..hires_flags(flags)
        }),
{
    assert((flags | 4u8) & 4u8 != 0 && (flags & !4u8) & 4u8 == 0) by (bit_vector);
    assert((flags | 2u8) & 2u8 != 0 && (flags & !2u8) & 2u8 == 0) by (bit_vector);
    assert((flags | 1u8) & 1u8 != 0 && (flags & !1u8) & 1u8 == 0) by (bit_vector);
    assert(((flags | 4u8) & 2u8 != 0) == (flags & 2u8 != 0) && ((flags | 4u8) & 1u8 != 0) == (
    flags & 1u8 != 0)) by (bit_vector);
    assert(((flags & !4u8) & 2u8 != 0) == (flags & 2u8 != 0) && ((flags & !4u8) & 1u8 != 0) == (
    flags & 1u8 != 0)) by (bit_vector);
    assert(((flags | 2u8) & 4u8 != 0) == (flags & 4u8 != 0) && ((flags | 2u8) & 1u8 != 0) == (
    flags & 1u8 != 0)) by (bit_vector);
    assert(((flags & !2u8) & 4u8 != 0) == (flags & 4u8 != 0) && ((flags & !2u8) & 1u8 != 0) == (
    flags & 1u8 != 0)) by (bit_vector);
    assert(((flags | 1u8) & 4u8 != 0) == (flags & 4u8 != 0) && ((flags | 1u8) & 2u8 != 0) == (
    flags & 2u8 != 0)) by (bit_vector);
    assert(((flags & !1u8) & 4u8 != 0) == (flags & 4u8 != 0) && ((flags & !1u8) & 2u8 != 0) == (
    flags & 2u8 != 0)) by (bit_vector);
}

pub open spec fn ratchet_text(value: u8) -> Seq<char> {
    if value == WHEEL_RATCHET_FREE {
        "free"@
    } else if value == WHEEL_RATCHET_RATCHET {
        "ratchet"@
    } else {
        "unknown"@
    }
}

pub fn format_ratchet(value: u8) -> (s: &'static str)
    ensures
        s@ == ratchet_text(value),
{
    if value == WHEEL_RATCHET_FREE {
        "free"
    } else if value == WHEEL_RATCHET_RATCHET {
        "ratchet"
    } else {
        "unknown"
    }
}

pub open spec fn toggle_text(enabled: bool) -> Seq<char> {
    if enabled {
        "on"@
    } else {
        "off"@
    }
}

pub fn format_toggle(enabled: bool) -> (s: &'static str)
    ensures
        s@ == toggle_text(enabled),
{
    if enabled {
        "on"
    } else {
        "off"
    }
}

pub open spec fn status_text(smart_shift: SmartShiftState, hires: HiresWheelStatus, json: bool) -> Seq<
    char,
> {
    if json {
        "{\"ratchet\":\""@ + ratchet_text(smart_shift.ratchet) + "\",\"ratchet_speed\":"@ + dec(
            smart_shift.ratchet_speed as nat,
        ) + ",\"force\":"@ + dec(smart_shift.force as nat) + ",\"invert\":"@ + bool_text(
            hires.invert,
        ) + ",\"resolution\":"@ + bool_text(hires.resolution) + ",\"divert\":"@ + bool_text(
            hires.divert,
        ) + "}"@
    } else {
        "Wheel: ratchet="@ + ratchet_text(smart_shift.ratchet) + ", ratchet-speed="@ + dec(
            smart_shift.ratchet_speed as nat,
        ) + ", force="@ + dec(smart_shift.force as nat) + ", invert="@ + toggle_text(hires.invert)
            + ", resolution="@ + toggle_text(hires.resolution) + ", divert="@ + toggle_text(
            hires.divert,
        )
    }
}

pub fn format_status(smart_shift: &SmartShiftState, hires: &HiresWheelStatus, json: bool) -> (s:
    String)
    ensures
        s@ == status_text(*smart_shift, *hires, json),
{
    let mut s = String::new();
    if json {
        push_str(&mut s, "{\"ratchet\":\"");
        push_str(&mut s, format_ratchet(smart_shift.ratchet));
        push_str(&mut s, "\",\"ratchet_speed\":");
        push_dec(&mut s, smart_shift.ratchet_speed as u64);
        push_str(&mut s, ",\"force\":");
        push_dec(&mut s, smart_shift.force as u64);
        push_str(&mut s, ",\"invert\":");
        push_bool(&mut s, hires.invert);
        push_str(&mut s, ",\"resolution\":");
        push_bool(&mut s, hires.resolution);
        push_str(&mut s, ",\"divert\":");
        push_bool(&mut s, hires.divert);
        push_str(&mut s, "}");
    } else {
        push_str(&mut s, "Wheel: ratchet=");
        push_str(&mut s, format_ratchet(smart_shift.ratchet));
        push_str(&mut s, ", ratchet-speed=");
        push_dec(&mut s, smart_shift.ratchet_speed as u64);
        push_str(&mut s, ", force=");
        push_dec(&mut s, smart_shift.force as u64);
        push_str(&mut s, ", invert=");
        push_str(&mut s, format_toggle(hires.invert));
        push_str(&mut s, ", resolution=");
        push_str(&mut s, format_toggle(hires.resolution));
        push_str(&mut s, ", divert=");
        push_str(&mut s, format_toggle(hires.divert));
    }
    s
}

pub open spec fn thumb_status_text(status: ThumbWheelStatus, json: bool) -> Seq<char> {
    if json {
        "{\"invert\":"@ + bool_text(status.invert) + ",\"divert\":"@ + bool_text(status.divert)
            + "}"@
    } else {
        "Thumb Wheel: invert="@ + toggle_text(status.invert) + ", divert="@ + toggle_text(
            status.divert,
        )
    }
}

pub fn format_thumb_status(status: &ThumbWheelStatus, json: bool) -> (s: String)
    ensures
        s@ == thumb_status_text(*status, json),
{
    let mut s = String::new();
    if json {
        push_str(&mut s, "{\"invert\":");
        push_bool(&mut s, status.invert);
        push_str(&mut s, ",\"divert\":");
        push_bool(&mut s, status.divert);
        push_str(&mut s, "}");
    } else {
        push_str(&mut s, "Thumb Wheel: invert=");
        push_str(&mut s, format_toggle(status.invert));
        push_str(&mut s, ", divert=");
        push_str(&mut s, format_toggle(status.divert));
    }
    s
}

/// Reading the scroll wheel: the SmartShift state (function 1 of its feature), then the
/// scroll-wheel flags (function 1 of the high-resolution wheel feature).
pub open spec fn read_plan(idx: u8, h: Seq<Reply>) -> Plan<(SmartShiftState, HiresWheelStatus)> {
    match call(idx, SMART_SHIFT_ENHANCED, 0x01, Seq::empty(), h) {
        crate::exchange::Call::Ask { idx, feature, function, params } => ask(
            idx,
            feature,
            function,
            params,
        ),
        crate::exchange::Call::Fail(e) => fail(e),
        crate::exchange::Call::Reply(b) => match smart_shift_reply(b) {
            Err(e) => fail(e),
            Ok(ss) => match call(idx, HIRES_WHEEL, 0x01, Seq::empty(), h.skip(2)) {
                crate::exchange::Call::Ask { idx, feature, function, params } => ask(
                    idx,
                    feature,
                    function,
                    params,
                ),
                crate::exchange::Call::Fail(e) => fail(e),
                crate::exchange::Call::Reply(c) => match hires_reply(c) {
                    Err(e) => fail(e),
                    Ok(hires) => Plan::Finish(Ok((ss, hires))),
                },
            },
        },
    }
}

pub fn read_status(idx: u8, h: &Vec<Reply>) -> (s: Step<(SmartShiftState, HiresWheelStatus)>)
    ensures
        follows(s, read_plan(idx, h@)),
{
    let ss = match feature_call_step(idx, SMART_SHIFT_ENHANCED, 0x01, &[], h) {
        CallOutcome::Ask(r) => return Step::Exchange(r),
        CallOutcome::Fail(e) => return Step::Done(Err(e)),
        CallOutcome::Reply(b) => match parse_smart_shift_reply(b.as_slice()) {
            Err(e) => return Step::Done(Err(e)),
            Ok(ss) => ss,
        },
    };
    match feature_call_step_at(idx, HIRES_WHEEL, 0x01, &[], h, 2) {
        CallOutcome::Ask(r) => Step::Exchange(r),
        CallOutcome::Fail(e) => Step::Done(Err(e)),
        CallOutcome::Reply(c) => match parse_hires_reply(c.as_slice()) {
            Err(e) => Step::Done(Err(e)),
            Ok(hires) => Step::Done(Ok((ss, hires))),
        },
    }
}

pub fn json_status(idx: u8, h: &Vec<Reply>) -> (s: Step<String>)
    ensures
        follows(
            s,
            map_plan(
                read_plan(idx, h@),
                |r: (SmartShiftState, HiresWheelStatus)| status_text(r.0, r.1, true),
            ),
        ),
{
    match read_status(idx, h) {
        Step::Done(Ok((ss, hires))) => Step::Done(Ok(format_status(&ss, &hires, true))),
        Step::Done(Err(e)) => Step::Done(Err(e)),
        other => retag(other),
    }
}

/// Reading the thumb wheel: function 1 of the thumb-wheel feature.
pub open spec fn read_thumb_plan(idx: u8, h: Seq<Reply>) -> Plan<ThumbWheelStatus> {
    call_plan(call(idx, THUMB_WHEEL, 0x01, Seq::empty(), h), |b: Seq<u8>| thumb_reply(b))
}

pub fn read_thumb_status(idx: u8, h: &Vec<Reply>) -> (s: Step<ThumbWheelStatus>)
    ensures
        follows(s, read_thumb_plan(idx, h@)),
{
    match feature_call_step(idx, THUMB_WHEEL, 0x01, &[], h) {
        CallOutcome::Ask(r) => Step::Exchange(r),
        CallOutcome::Fail(e) => Step::Done(Err(e)),
        CallOutcome::Reply(b) => Step::Done(parse_thumb_reply(b.as_slice())),
    }
}

pub fn json_thumb_status(idx: u8, h: &Vec<Reply>) -> (s: Step<String>)
    ensures
        follows(
            s,
            map_plan(read_thumb_plan(idx, h@), |st: ThumbWheelStatus| thumb_status_text(st, true)),
        ),
{
    match read_thumb_status(idx, h) {
        Step::Done(Ok(st)) => Step::Done(Ok(format_thumb_status(&st, true))),
        Step::Done(Err(e)) => Step::Done(Err(e)),
        other => retag(other),
    }
}

/// Which SmartShift field a setting changes.
#[derive(Clone, Copy, Debug, PartialEq, Eq)]
pub enum SmartShiftField {
    Ratchet,
    RatchetSpeed,
    Force,
}

/// The SmartShift state with one field replaced by the parsed argument.
pub open spec fn updated(st: SmartShiftState, field: SmartShiftField, value: Seq<char>) -> Result<
    SmartShiftState,
    Error,
> {
    match field {
        SmartShiftField::Ratchet => match ratchet_arg(value) {
            Err(e) => Err(e),
            Ok(v) => Ok(SmartShiftState { ratchet: v, ..st }),
        },
        SmartShiftField::RatchetSpeed => match ratchet_speed_arg(value) {
            Err(e) => Err(e),
            Ok(v) => Ok(SmartShiftState { ratchet_speed: v, ..st }),
        },
        SmartShiftField::Force => match force_arg(value) {
            Err(e) => Err(e),
            Ok(v) => Ok(SmartShiftState { force: v, ..st }),
        },
    }
}

fn update_field(st: SmartShiftState, field: SmartShiftField, value: &str) -> (r: Result<
    SmartShiftState,
    Error,
>)
    ensures
        r == updated(st, field, value@),
{
    match field {
        SmartShiftField::Ratchet => match parse_ratchet(value) {
            Err(e) => Err(e),
            Ok(v) => Ok(SmartShiftState { ratchet: v, ..st }),
        },
        SmartShiftField::RatchetSpeed => match parse_ratchet_speed(value) {
            Err(e) => Err(e),
            Ok(v) => Ok(SmartShiftState { ratchet_speed: v, ..st }),
        },
        SmartShiftField::Force => match parse_force(value) {
            Err(e) => Err(e),
            Ok(v) => Ok(SmartShiftState { force: v, ..st }),
        },
    }
}

/// Changing one SmartShift field: read the state, replace the field with the parsed argument,
/// then write the whole state back (function 2), resolving the feature for each call.
pub open spec fn smart_shift_set_plan(
    idx: u8,
    field: SmartShiftField,
    value: Seq<char>,
    h: Seq<Reply>,
) -> Plan<()> {
    match call(idx, SMART_SHIFT_ENHANCED, 0x01, Seq::empty(), h) {
        crate::exchange::Call::Ask { idx, feature, function, params } => ask(
            idx,
            feature,
            function,
            params,
        ),
        crate::exchange::Call::Fail(e) => fail(e),
        crate::exchange::Call::Reply(b) => match smart_shift_reply(b) {
            Err(e) => fail(e),
            Ok(st) => match updated(st, field, value) {
                Err(e) => fail(e),
                Ok(next) => call_plan(
                    call(
                        idx,
                        SMART_SHIFT_ENHANCED,
                        0x02,
                        seq![next.ratchet, next.ratchet_speed, next.force],
                        h.skip(2),
                    ),
                    |b: Seq<u8>| Ok(()),
                ),
            },
        },
    }
}

fn smart_shift_set(idx: u8, field: SmartShiftField, value: &str, h: &Vec<Reply>) -> (s: Step<()>)
    ensures
        follows(s, smart_shift_set_plan(idx, field, value@, h@)),
{
    let st = match feature_call_step(idx, SMART_SHIFT_ENHANCED, 0x01, &[], h) {
        CallOutcome::Ask(r) => return Step::Exchange(r),
        CallOutcome::Fail(e) => return Step::Done(Err(e)),
        CallOutcome::Reply(b) => match parse_smart_shift_reply(b.as_slice()) {
            Err(e) => return Step::Done(Err(e)),
            Ok(st) => st,
        },
    };
    let next = match update_field(st, field, value) {
        Err(e) => return Step::Done(Err(e)),
        Ok(next) => next,
    };
    let params: [u8; 3] = [next.ratchet, next.ratchet_speed, next.force];
    assert(params@ =~= seq![next.ratchet, next.ratchet_speed, next.force]);
    match feature_call_step_at(idx, SMART_SHIFT_ENHANCED, 0x02, &params, h, 2) {
        CallOutcome::Ask(r) => Step::Exchange(r),
        CallOutcome::Fail(e) => Step::Done(Err(e)),
        CallOutcome::Reply(_) => Step::Done(Ok(())),
    }
}

/// Changing scroll-wheel flags: resolve the feature, read the flags (function 1), then write them
/// back with the bits of `mask` set or cleared (function 2).
pub open spec fn hires_set_plan(idx: u8, mask: u8, enabled: bool, h: Seq<Reply>) -> Plan<()> {
    if h.len() == 0 {
        lookup(idx, HIRES_WHEEL)
    } else {
        match feature_index(h[0]) {
            Err(e) => fail(e),
            Ok(f) => if h.len() == 1 {
                ask(idx, f, 0x01, Seq::empty())
            } else {
                match h[1] {
                    Err(e) => fail(e),
                    Ok(b) => if b@.len() <= 4 {
                        fail(Error::Message(Msg::WheelReplyTooShort))
                    } else if h.len() == 2 {
                        ask(idx, f, 0x02, seq![mask_u8(b@[4], mask, enabled)])
                    } else {
                        match h[2] {
                            Err(e) => fail(e),
                            Ok(_) => Plan::Finish(Ok(())),
                        }
                    },
                }
            },
        }
    }
}

fn hires_set(idx: u8, mask: u8, enabled: bool, h: &Vec<Reply>) -> (s: Step<()>)
    ensures
        follows(s, hires_set_plan(idx, mask, enabled, h@)),
{
    if h.len() == 0 {
        return lookup_step(idx, HIRES_WHEEL);
    }
    let f = match feature_index_of(&h[0]) {
        Err(e) => return Step::Done(Err(e)),
        Ok(f) => f,
    };
    if h.len() == 1 {
        return request(idx, f, 0x01, &[]);
    }
    let flags = match &h[1] {
        Err(e) => return Step::Done(Err(e.duplicate())),
        Ok(b) => {
            if b.len() <= 4 {
                return Step::Done(Err(Error::Message(Msg::WheelReplyTooShort)));
            }
            b[4]
        },
    };
    if h.len() == 2 {
        let params: [u8; 1] = [apply_mask_u8(flags, mask, enabled)];
        assert(params@ =~= seq![mask_u8(flags, mask, enabled)]);
        return request(idx, f, 0x02, &params);
    }
    match &h[2] {
        Err(e) => Step::Done(Err(e.duplicate())),
        Ok(_) => Step::Done(Ok(())),
    }
}

/// Changing thumb-wheel flags: resolve the feature, read the mode and invert bytes (function 1),
/// then write them back with the bits of the two-byte `mask` set or cleared (function 2).
pub open spec fn thumb_set_plan(idx: u8, mask: Seq<u8>, enabled: bool, h: Seq<Reply>) -> Plan<()> {
    if h.len() == 0 {
        lookup(idx, THUMB_WHEEL)
    } else {
        match feature_index(h[0]) {
            Err(e) => fail(e),
            Ok(f) => if h.len() == 1 {
                ask(idx, f, 0x01, Seq::empty())
            } else {
                match h[1] {
                    Err(e) => fail(e),
                    Ok(b) => if b@.len() < 6 {
                        fail(Error::Message(Msg::ThumbReplyTooShort))
                    } else if h.len() == 2 {
                        ask(
                            idx,
                            f,
                            0x02,
                            seq![mask_u8(b@[4], mask[0], enabled), mask_u8(b@[5], mask[1], enabled)],
                        )
                    } else {
                        match h[2] {
                            Err(e) => fail(e),
                            Ok(_) => Plan::Finish(Ok(())),
                        }
                    },
                }
            },
        }
    }
}

fn thumb_set(idx: u8, mask: [u8; 2], enabled: bool, h: &Vec<Reply>) -> (s: Step<()>)
    ensures
        follows(s, thumb_set_plan(idx, mask@, enabled, h@)),
{
    if h.len() == 0 {
        return lookup_step(idx, THUMB_WHEEL);
    }
    let f = match feature_index_of(&h[0]) {
        Err(e) => return Step::Done(Err(e)),
        Ok(f) => f,
    };
    if h.len() == 1 {
        return request(idx, f, 0x01, &[]);
    }
    let bytes = match &h[1] {
        Err(e) => return Step::Done(Err(e.duplicate())),
        Ok(b) => {
            if b.len() < 6 {
                return Step::Done(Err(Error::Message(Msg::ThumbReplyTooShort)));
            }
            [b[4], b[5]]
        },
    };
    if h.len() == 2 {
        let payload = apply_mask_bytes(bytes, mask, enabled);
        return request(idx, f, 0x02, &payload);
    }
    match &h[2] {
        Err(e) => Step::Done(Err(e.duplicate())),
        Ok(_) => Step::Done(Ok(())),
    }
}

/// Changing a scroll-wheel setting. The SmartShift settings (`ratchet`, `ratchet-speed` or its
/// alias `smart-shift`, `force`) read the state before their argument is checked; the flag
/// settings (`invert`, `resolution`, `divert`) check `on`/`off` first.
pub open spec fn set_plan(idx: u8, setting: Seq<char>, value: Seq<char>, h: Seq<Reply>) -> Plan<()> {
    if setting == "ratchet"@ {
        smart_shift_set_plan(idx, SmartShiftField::Ratchet, value, h)
    } else if setting == "ratchet-speed"@ || setting == "smart-shift"@ {
        smart_shift_set_plan(idx, SmartShiftField::RatchetSpeed, value, h)
    } else if setting == "force"@ {
        smart_shift_set_plan(idx, SmartShiftField::Force, value, h)
    } else if setting == "invert"@ || setting == "resolution"@ || setting == "divert"@ {
        let mask = if setting == "invert"@ {
            WHEEL_INVERT_MASK
        } else if setting == "resolution"@ {
            WHEEL_RESOLUTION_MASK
        } else {
            WHEEL_DIVERT_MASK
        };
        match toggle_arg(value) {
            Err(e) => fail(e),
            Ok(enabled) => hires_set_plan(idx, mask, enabled, h),
        }
    } else {
        fail(Error::Message(Msg::WheelSettingUsage))
    }
}

pub fn set(idx: u8, setting: &str, value: &str, h: &Vec<Reply>) -> (s: Step<()>)
    ensures
        follows(s, set_plan(idx, setting@, value@, h@)),
{
    let name = chars_of(setting);
    let n = name.as_slice();
    if chars_eq(n, "ratchet") {
        return smart_shift_set(idx, SmartShiftField::Ratchet, value, h);
    }
    if chars_eq(n, "ratchet-speed") || chars_eq(n, "smart-shift") {
        return smart_shift_set(idx, SmartShiftField::RatchetSpeed, value, h);
    }
    if chars_eq(n, "force") {
        return smart_shift_set(idx, SmartShiftField::Force, value, h);
    }
    let mask = if chars_eq(n, "invert") {
        WHEEL_INVERT_MASK
    } else if chars_eq(n, "resolution") {
        WHEEL_RESOLUTION_MASK
    } else if chars_eq(n, "divert") {
        WHEEL_DIVERT_MASK
    } else {
        return Step::Done(Err(Error::Message(Msg::WheelSettingUsage)));
    };
    match parse_toggle(value) {
        Err(e) => Step::Done(Err(e)),
        Ok(enabled) => hires_set(idx, mask, enabled, h),
    }
}

/// Changing a thumb-wheel setting: `invert` or `divert`, each checking `on`/`off` first.
pub open spec fn set_thumb_plan(idx: u8, setting: Seq<char>, value: Seq<char>, h: Seq<Reply>) -> Plan<
    (),
> {
    if setting == "invert"@ || setting == "divert"@ {
        let mask = if setting == "invert"@ {
            THUMB_INVERT_MASK@
        } else {
            THUMB_MODE_MASK@
        };
        match toggle_arg(value) {
            Err(e) => fail(e),
            Ok(enabled) => thumb_set_plan(idx, mask, enabled, h),
        }
    } else {
        fail(Error::Message(Msg::ThumbSettingUsage))
    }
}

pub fn set_thumb(idx: u8, setting: &str, value: &str, h: &Vec<Reply>) -> (s: Step<()>)
    ensures
        follows(s, set_thumb_plan(idx, setting@, value@, h@)),
{
    let name = chars_of(setting);
    let n = name.as_slice();
    let mask = if chars_eq(n, "invert") {
        THUMB_INVERT_MASK
    } else if chars_eq(n, "divert") {
        THUMB_MODE_MASK
    } else {
        return Step::Done(Err(Error::Message(Msg::ThumbSettingUsage)));
    };
    match parse_toggle(value) {
        Err(e) => Step::Done(Err(e)),
        Ok(enabled) => thumb_set(idx, mask, enabled, h),
    }
}

/// The SmartShift state that a setting writes reads back as that state from a reply carrying it.
pub proof fn lemma_smart_shift_written_reads_back(st: SmartShiftState, head: Seq<u8>)
    requires
        head.len() == 4,
    ensures
        smart_shift_reply(head + seq![st.ratchet, st.ratchet_speed, st.force]) == Ok::<
            SmartShiftState,
            Error,
        >(st),
{
    let r = head + seq![st.ratchet, st.ratchet_speed, st.force];
    assert(r[4] == st.ratchet && r[5] == st.ratchet_speed && r[6] == st.force);
}

/// Setting one thumb-wheel flag changes that flag to the requested value and keeps the other.
pub proof fn lemma_thumb_flag_roundtrip(mode: u8, invert: u8, enabled: bool)
    ensures
        thumb_flags(mask_u8(mode, 0x00, enabled), mask_u8(invert, 0x01, enabled)) == (ThumbWheelStatus {
            invert: enabled,
            ..thumb_flags(mode, invert)
        }),
        thumb_flags(mask_u8(mode, 0x01, enabled), mask_u8(invert, 0x00, enabled)) == (ThumbWheelStatus {
            divert: enabled,
            ..thumb_flags(mode, invert)
        }),
{
    lemma_mask_u8(mode, 0x00, enabled);
    lemma_mask_u8(mode, 0x01, enabled);
    lemma_mask_u8(invert, 0x00, enabled);
    lemma_mask_u8(invert, 0x01, enabled);
    assert(mask_u8(mode, 0x00, enabled) & 0x01 == mode & 0x01) by (bit_vector)
        requires
            mask_u8(mode, 0x00, enabled) == (if enabled {
                mode | 0x00
            } else {
                mode & !0x00u8
            }),
    ;
    assert(mask_u8(invert, 0x00, enabled) & 0x01 == invert & 0x01) by (bit_vector)
        requires
            mask_u8(invert, 0x00, enabled) == (if enabled {
                invert | 0x00
            } else {
                invert & !0x00u8
            }),
    ;
}

/// Setting `invert`, `resolution` or `divert` writes, after reading the wheel's flags, flags that
/// read back with exactly the named flag changed to the requested value and the others as read.
pub proof fn lemma_set_changes_named_flag(
    idx: u8,
    setting: Seq<char>,
    value: Seq<char>,
    h: Seq<Reply>,
)
    requires
        setting == "invert"@ || setting == "resolution"@ || setting == "divert"@,
        h.len() == 2,
        feature_index(h[0]) is Ok,
        h[1] matches Ok(b) && b@.len() > 4,
        toggle_arg(value) is Ok,
    ensures
        set_plan(idx, setting, value, h) matches Plan::Ask { idx: i, feature, function, params } && {
            let read = hires_flags(h[1]->Ok_0@[4]);
            let v = toggle_arg(value)->Ok_0;
            &&& i == idx
            &&& feature == feature_index(h[0])->Ok_0
            &&& function == 0x02
            &&& params.len() == 1
            &&& setting == "invert"@ ==> hires_flags(params[0]) == (HiresWheelStatus { invert: v, ..read })
            &&& setting == "resolution"@ ==> hires_flags(params[0]) == (HiresWheelStatus {
                resolution: v,
                ..read
            })
            &&& setting == "divert"@ ==> hires_flags(params[0]) == (HiresWheelStatus { divert: v, ..read })
        },
{
    reveal_strlit("ratchet");
    reveal_strlit("ratchet-speed");
    reveal_strlit("smart-shift");
    reveal_strlit("force");
    reveal_strlit("invert");
    reveal_strlit("resolution");
    reveal_strlit("divert");
    assert("invert"@[0] != "divert"@[0]);
    assert("invert"@ != "divert"@);
    let flags = h[1]->Ok_0@[4];
    let v = toggle_arg(value)->Ok_0;
    let f = feature_index(h[0])->Ok_0;
    lemma_hires_flag_roundtrip(flags, v);
    assert("ratchet"@.len() == 7 && "ratchet-speed"@.len() == 13 && "smart-shift"@.len() == 11
        && "force"@.len() == 5 && "invert"@.len() == 6 && "resolution"@.len() == 10
        && "divert"@.len() == 6);
    assert(setting.len() == 6 || setting.len() == 10);
    assert(setting != "ratchet"@ && setting != "ratchet-speed"@ && setting != "smart-shift"@
        && setting != "force"@);
    let mask = if setting == "invert"@ {
        WHEEL_INVERT_MASK
    } else if setting == "resolution"@ {
        WHEEL_RESOLUTION_MASK
    } else {
        WHEEL_DIVERT_MASK
    };
    assert(set_plan(idx, setting, value, h) == hires_set_plan(idx, mask, v, h));
    assert(hires_set_plan(idx, mask, v, h) == ask::<()>(idx, f, 0x02, seq![mask_u8(flags, mask, v)]));
    if setting == "invert"@ {
        assert(mask == WHEEL_INVERT_MASK);
    } else if setting == "resolution"@ {
        assert(mask == WHEEL_RESOLUTION_MASK);
    } else {
        assert(mask == WHEEL_DIVERT_MASK);
    }
}

} // verus!

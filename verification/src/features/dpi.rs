//! Sensor resolution.

use vstd::prelude::*;

use crate::error::{Error, Msg};
use crate::exchange::{
    call, call_plan, feature_call_step, follows, map_plan, retag, CallOutcome, Plan, Reply, Step,
};
use crate::text::{chars_of, dec, parse_trimmed, parse_unsigned, push_dec, push_str, trim};

verus! {

pub const ADJUSTABLE_DPI: u16 = 0x2201;
pub const MIN_DPI: u32 = 200;
pub const MAX_DPI: u32 = 8000;

/// What `parse` makes of a DPI argument.
pub open spec fn dpi_arg(arg: Seq<char>) -> Result<u32, Error> {
    match parse_unsigned(trim(arg), u32::MAX as nat) {
        Err(k) => Err(Error::Number(k)),
        Ok(n) => if MIN_DPI <= n <= MAX_DPI {
            Ok(n as u32)
        } else {
            Err(Error::Message(Msg::DpiRange))
        },
    }
}

/// A DPI value from 200 to 8000.
pub fn parse(arg: &str) -> (r: Result<u32, Error>)
    ensures
        r == dpi_arg(arg@),
{
    let chars = chars_of(arg);
    let slice = chars.as_slice();
    assert(slice@ == arg@);
    let r = parse_trimmed(slice, u32::MAX as u64);
    match r {
        Err(k) => Err(Error::Number(k)),
        Ok(n) => {
            if MIN_DPI as u64 <= n && n <= MAX_DPI as u64 {
                Ok(n as u32)
            } else {
                Err(Error::Message(Msg::DpiRange))
            }
        },
    }
}

/// The three big-endian low bytes of a DPI value.
pub open spec fn payload_bytes(dpi: u32) -> Seq<u8> {
    seq![(dpi / 65536 % 256) as u8, (dpi / 256 % 256) as u8, (dpi % 256) as u8]
}

pub fn payload(dpi: u32) -> (p: [u8; 3])
    ensures
        p@ == payload_bytes(dpi),
{
    let p = [(dpi / 65536 % 256) as u8, (dpi / 256 % 256) as u8, (dpi % 256) as u8];
    assert(p@ =~= payload_bytes(dpi));
    p
}

/// The DPI in a reply: payload bytes 0 to 2, big-endian.
pub open spec fn dpi_reply(reply: Seq<u8>) -> Result<u32, Error> {
    if reply.len() <= 6 {
        Err(Error::Message(Msg::DpiReplyTooShort))
    } else {
        Ok((reply[4] as nat * 65536 + reply[5] as nat * 256 + reply[6] as nat) as u32)
    }
}

pub fn parse_status_reply(reply: &[u8]) -> (r: Result<u32, Error>)
    ensures
        r == dpi_reply(reply@),
{
    if reply.len() <= 6 {
        return Err(Error::Message(Msg::DpiReplyTooShort));
    }
    Ok(reply[4] as u32 * 65536 + reply[5] as u32 * 256 + reply[6] as u32)
}

pub open spec fn status_text(dpi: u32, json: bool) -> Seq<char> {
    if json {
        "{\"value\":"@ + dec(dpi as nat) + "}"@
    } else {
        "DPI: "@ + dec(dpi as nat)
    }
}

pub fn format_status(dpi: u32, json: bool) -> (s: String)
    ensures
        s@ == status_text(dpi, json),
{
    let mut s = String::new();
    if json {
        push_str(&mut s, "{\"value\":");
        push_dec(&mut s, dpi as u64);
        push_str(&mut s, "}");
    } else {
        push_str(&mut s, "DPI: ");
        push_dec(&mut s, dpi as u64);
    }
    s
}

/// Reading the DPI: function 2 of the adjustable-DPI feature.
pub open spec fn read_plan(idx: u8, h: Seq<Reply>) -> Plan<u32> {
    call_plan(call(idx, ADJUSTABLE_DPI, 0x02, Seq::empty(), h), |b: Seq<u8>| dpi_reply(b))
}

pub fn read_status(idx: u8, h: &Vec<Reply>) -> (s: Step<u32>)
    ensures
        follows(s, read_plan(idx, h@)),
{
    match feature_call_step(idx, ADJUSTABLE_DPI, 0x02, &[], h) {
        CallOutcome::Ask(r) => Step::Exchange(r),
        CallOutcome::Fail(e) => Step::Done(Err(e)),
        CallOutcome::Reply(b) => Step::Done(parse_status_reply(b.as_slice())),
    }
}

pub fn json_status(idx: u8, h: &Vec<Reply>) -> (s: Step<String>)
    ensures
        follows(s, map_plan(read_plan(idx, h@), |d: u32| status_text(d, true))),
{
    match read_status(idx, h) {
        Step::Done(Ok(dpi)) => Step::Done(Ok(format_status(dpi, true))),
        Step::Done(Err(e)) => Step::Done(Err(e)),
        other => retag(other),
    }
}

/// Setting the DPI: function 3 of the adjustable-DPI feature with the value's low three bytes.
pub open spec fn set_value_plan(idx: u8, dpi: u32, h: Seq<Reply>) -> Plan<()> {
    call_plan(call(idx, ADJUSTABLE_DPI, 0x03, payload_bytes(dpi), h), |b: Seq<u8>| Ok(()))
}

pub fn set_value(idx: u8, dpi: u32, h: &Vec<Reply>) -> (s: Step<()>)
    ensures
        follows(s, set_value_plan(idx, dpi, h@)),
{
    let p = payload(dpi);
    match feature_call_step(idx, ADJUSTABLE_DPI, 0x03, &p, h) {
        CallOutcome::Ask(r) => Step::Exchange(r),
        CallOutcome::Fail(e) => Step::Done(Err(e)),
        CallOutcome::Reply(_) => Step::Done(Ok(())),
    }
}

/// Setting the DPI from an argument: a malformed or out-of-range argument ends the operation
/// before any exchange.
pub open spec fn set_plan(idx: u8, arg: Seq<char>, h: Seq<Reply>) -> Plan<()> {
    match dpi_arg(arg) {
        Err(e) => Plan::Finish(Err(e)),
        Ok(dpi) => set_value_plan(idx, dpi, h),
    }
}

pub fn set(idx: u8, arg: &str, h: &Vec<Reply>) -> (s: Step<()>)
    ensures
        follows(s, set_plan(idx, arg@, h@)),
{
    match parse(arg) {
        Err(e) => Step::Done(Err(e)),
        Ok(dpi) => set_value(idx, dpi, h),
    }
}

/// A DPI setting's payload reads back as that DPI from a status reply that carries it (every
/// DPI the device takes fits in the three bytes).
pub proof fn lemma_payload_reads_back(dpi: u32, head: Seq<u8>)
    requires
        dpi < 0x100_0000,
        head.len() == 4,
    ensures
        dpi_reply(head + payload_bytes(dpi)) == Ok::<u32, Error>(dpi),
{
    let r = head + payload_bytes(dpi);
    let a = dpi / 65536 % 256;
    let b = dpi / 256 % 256;
    let c = dpi % 256;
    assert(r[4] == a as u8 && r[5] == b as u8 && r[6] == c as u8);
    assert(a * 65536 + b * 256 + c == dpi) by (nonlinear_arith)
        requires
            dpi < 0x100_0000,
            a == dpi / 65536 % 256,
            b == dpi / 256 % 256,
            c == dpi % 256,
    ;
}

} // verus!

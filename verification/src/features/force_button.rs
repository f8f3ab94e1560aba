//! The force-sensing button threshold.

use vstd::prelude::*;

use crate::error::{Error, Msg};
use crate::exchange::{
    ask, fail, feature_index, feature_index_of, follows, lookup, lookup_step, map_plan, request,
    retag, Plan, Reply, Step,
};
use crate::text::{bool_text, chars_of, dec, parse_trimmed, parse_unsigned, push_bool, push_dec, push_str, trim};

verus! {

pub const FORCE_SENSING_BUTTON: u16 = 0x19c0;

#[derive(Clone, Copy, Debug, PartialEq, Eq)]
pub struct ForceButtonInfo {
    pub changeable: bool,
    pub min_value: u16,
    pub max_value: u16,
}

impl DeepView for ForceButtonInfo {
    type V = ForceButtonInfo;

    open spec fn deep_view(&self) -> ForceButtonInfo {
        *self
    }
}

/// What `parse` makes of a threshold argument, given the range the device reports.
pub open spec fn value_arg(arg: Seq<char>, min_value: u16, max_value: u16) -> Result<u16, Error> {
    match parse_unsigned(trim(arg), u16::MAX as nat) {
        Err(k) => Err(Error::Number(k)),
        Ok(n) => if min_value <= n <= max_value {
            Ok(n as u16)
        } else {
            Err(Error::ForceButtonRange { min: min_value, max: max_value })
        },
    }
}

pub fn parse(arg: &str, min_value: u16, max_value: u16) -> (r: Result<u16, Error>)
    ensures
        r == value_arg(arg@, min_value, max_value),
{
    let chars = chars_of(arg);
    match parse_trimmed(chars.as_slice(), u16::MAX as u64) {
        Err(k) => Err(Error::Number(k)),
        Ok(n) => {
            if min_value as u64 <= n && n <= max_value as u64 {
                Ok(n as u16)
            } else {
                Err(Error::ForceButtonRange { min: min_value, max: max_value })
            }
        },
    }
}

pub open spec fn be16(hi: u8, lo: u8) -> u16 {
    (hi as nat * 256 + lo as nat) as u16
}

/// The capabilities in an info reply: a flags word, the largest and the smallest threshold, all
/// big-endian from payload byte 0.
pub open spec fn info_reply(reply: Seq<u8>) -> Result<ForceButtonInfo, Error> {
    if reply.len() < 12 {
        Err(Error::Message(Msg::ForceReplyTooShort))
    } else {
        let max_value = be16(reply[8], reply[9]);
        let min_value = be16(reply[10], reply[11]);
        if min_value > max_value {
            Err(Error::Message(Msg::ForceReplyInvalid))
        } else {
            Ok(
                ForceButtonInfo {
                    changeable: be16(reply[4], reply[5]) & 0x01 != 0,
                    min_value,
                    max_value,
                },
            )
        }
    }
}

pub fn parse_info_reply(reply: &[u8]) -> (r: Result<ForceButtonInfo, Error>)
    ensures
        r == info_reply(reply@),
{
    if reply.len() < 12 {
        return Err(Error::Message(Msg::ForceReplyTooShort));
    }
    let flags = reply[4] as u16 * 256 + reply[5] as u16;
    let changeable = flags & 0x01 != 0;
    let max_value = reply[8] as u16 * 256 + reply[9] as u16;
    let min_value = reply[10] as u16 * 256 + reply[11] as u16;
    if min_value > max_value {
        return Err(Error::Message(Msg::ForceReplyInvalid));
    }
    Ok(ForceButtonInfo { changeable, min_value, max_value })
}

/// The current threshold in a reply: payload bytes 0 and 1, big-endian.
pub open spec fn current_reply(reply: Seq<u8>) -> Result<u16, Error> {
    if reply.len() < 6 {
        Err(Error::Message(Msg::ForceCurrentTooShort))
    } else {
        Ok(be16(reply[4], reply[5]))
    }
}

pub fn parse_current_reply(reply: &[u8]) -> (r: Result<u16, Error>)
    ensures
        r == current_reply(reply@),
{
    if reply.len() < 6 {
        return Err(Error::Message(Msg::ForceCurrentTooShort));
    }
    Ok(reply[4] as u16 * 256 + reply[5] as u16)
}

pub open spec fn status_text(current: u16, info: ForceButtonInfo, json: bool) -> Seq<char> {
    if json {
        "{\"value\":"@ + dec(current as nat) + ",\"changeable\":"@ + bool_text(info.changeable)
            + ",\"min\":"@ + dec(info.min_value as nat) + ",\"max\":"@ + dec(info.max_value as nat)
            + "}"@
    } else {
        "Force Button: "@ + dec(current as nat) + (if info.changeable {
            ""@
        } else {
            " (fixed)"@
        }) + " (range "@ + dec(info.min_value as nat) + "..="@ + dec(info.max_value as nat)
            + ")"@
    }
}

pub fn format_status(current: u16, info: &ForceButtonInfo, json: bool) -> (s: String)
    ensures
        s@ == status_text(current, *info, json),
{
    let mut s = String::new();
    if json {
        push_str(&mut s, "{\"value\":");
        push_dec(&mut s, current as u64);
        push_str(&mut s, ",\"changeable\":");
        push_bool(&mut s, info.changeable);
        push_str(&mut s, ",\"min\":");
        push_dec(&mut s, info.min_value as u64);
        push_str(&mut s, ",\"max\":");
        push_dec(&mut s, info.max_value as u64);
        push_str(&mut s, "}");
    } else {
        push_str(&mut s, "Force Button: ");
        push_dec(&mut s, current as u64);
        if info.changeable {
            push_str(&mut s, "");
        } else {
            push_str(&mut s, " (fixed)");
        }
        push_str(&mut s, " (range ");
        push_dec(&mut s, info.min_value as u64);
        push_str(&mut s, "..=");
        push_dec(&mut s, info.max_value as u64);
        push_str(&mut s, ")");
    }
    s
}

/// Reading the threshold: resolve the feature, read the capabilities (function 1), then the
/// current threshold (function 2), both for button 0.
pub open spec fn read_plan(idx: u8, h: Seq<Reply>) -> Plan<(u16, ForceButtonInfo)> {
    if h.len() == 0 {
        lookup(idx, FORCE_SENSING_BUTTON)
    } else {
        match feature_index(h[0]) {
            Err(e) => fail(e),
            Ok(f) => if h.len() == 1 {
                ask(idx, f, 0x01, seq![0u8])
            } else {
                match h[1] {
                    Err(e) => fail(e),
                    Ok(b) => match info_reply(b@) {
                        Err(e) => fail(e),
                        Ok(info) => if h.len() == 2 {
                            ask(idx, f, 0x02, seq![0u8])
                        } else {
                            match h[2] {
                                Err(e) => fail(e),
                                Ok(c) => match current_reply(c@) {
                                    Err(e) => fail(e),
                                    Ok(current) => Plan::Finish(Ok((current, info))),
                                },
                            }
                        },
                    },
                }
            },
        }
    }
}

pub fn read_status(idx: u8, h: &Vec<Reply>) -> (s: Step<(u16, ForceButtonInfo)>)
    ensures
        follows(s, read_plan(idx, h@)),
{
    if h.len() == 0 {
        return lookup_step(idx, FORCE_SENSING_BUTTON);
    }
    let f = match feature_index_of(&h[0]) {
        Err(e) => return Step::Done(Err(e)),
        Ok(f) => f,
    };
    let zero: [u8; 1] = [0];
    assert(zero@ =~= seq![0u8]);
    if h.len() == 1 {
        return request(idx, f, 0x01, &zero);
    }
    let info = match &h[1] {
        Err(e) => return Step::Done(Err(e.duplicate())),
        Ok(b) => match parse_info_reply(b.as_slice()) {
            Err(e) => return Step::Done(Err(e)),
            Ok(info) => info,
        },
    };
    if h.len() == 2 {
        return request(idx, f, 0x02, &zero);
    }
    match &h[2] {
        Err(e) => Step::Done(Err(e.duplicate())),
        Ok(c) => match parse_current_reply(c.as_slice()) {
            Err(e) => Step::Done(Err(e)),
            Ok(current) => Step::Done(Ok((current, info))),
        },
    }
}

pub fn json_status(idx: u8, h: &Vec<Reply>) -> (s: Step<String>)
    ensures
        follows(
            s,
            map_plan(read_plan(idx, h@), |r: (u16, ForceButtonInfo)| status_text(r.0, r.1, true)),
        ),
{
    match read_status(idx, h) {
        Step::Done(Ok((current, info))) => Step::Done(Ok(format_status(current, &info, true))),
        Step::Done(Err(e)) => Step::Done(Err(e)),
        other => retag(other),
    }
}

/// The parameters that set a threshold for button 0.
pub open spec fn value_params(value: u16) -> Seq<u8> {
    seq![0u8, (value / 256) as u8, (value % 256) as u8]
}

/// Setting the threshold: resolve the feature, read the capabilities, check the argument against
/// the reported range and the button's changeability, then write it (function 3).
pub open spec fn set_plan(idx: u8, arg: Seq<char>, h: Seq<Reply>) -> Plan<()> {
    if h.len() == 0 {
        lookup(idx, FORCE_SENSING_BUTTON)
    } else {
        match feature_index(h[0]) {
            Err(e) => fail(e),
            Ok(f) => if h.len() == 1 {
                ask(idx, f, 0x01, seq![0u8])
            } else {
                match h[1] {
                    Err(e) => fail(e),
                    Ok(b) => match info_reply(b@) {
                        Err(e) => fail(e),
                        Ok(info) => match value_arg(arg, info.min_value, info.max_value) {
                            Err(e) => fail(e),
                            Ok(value) => if !info.changeable {
                                fail(Error::Message(Msg::ForceButtonFixed))
                            } else if h.len() == 2 {
                                ask(idx, f, 0x03, value_params(value))
                            } else {
                                match h[2] {
                                    Err(e) => fail(e),
                                    Ok(_) => Plan::Finish(Ok(())),
                                }
                            },
                        },
                    },
                }
            },
        }
    }
}

pub fn set(idx: u8, arg: &str, h: &Vec<Reply>) -> (s: Step<()>)
    ensures
        follows(s, set_plan(idx, arg@, h@)),
{
    if h.len() == 0 {
        return lookup_step(idx, FORCE_SENSING_BUTTON);
    }
    let f = match feature_index_of(&h[0]) {
        Err(e) => return Step::Done(Err(e)),
        Ok(f) => f,
    };
    if h.len() == 1 {
        let zero: [u8; 1] = [0];
        assert(zero@ =~= seq![0u8]);
        return request(idx, f, 0x01, &zero);
    }
    let info = match &h[1] {
        Err(e) => return Step::Done(Err(e.duplicate())),
        Ok(b) => match parse_info_reply(b.as_slice()) {
            Err(e) => return Step::Done(Err(e)),
            Ok(info) => info,
        },
    };
    let value = match parse(arg, info.min_value, info.max_value) {
        Err(e) => return Step::Done(Err(e)),
        Ok(v) => v,
    };
    if !info.changeable {
        return Step::Done(Err(Error::Message(Msg::ForceButtonFixed)));
    }
    if h.len() == 2 {
        let params: [u8; 3] = [0, (value >> 8) as u8, value as u8];
        assert((value >> 8u16) as u8 == (value / 256) as u8 && value as u8 == (value % 256) as u8)
            by (bit_vector);
        assert(params@ =~= value_params(value));
        return request(idx, f, 0x03, &params);
    }
    match &h[2] {
        Err(e) => Step::Done(Err(e.duplicate())),
        Ok(_) => Step::Done(Ok(())),
    }
}

/// The threshold that a setting writes reads back as that threshold from a reply carrying its
/// two bytes.
pub proof fn lemma_value_reads_back(value: u16, head: Seq<u8>)
    requires
        head.len() == 4,
    ensures
        current_reply(head + value_params(value).subrange(1, 3)) == Ok::<u16, Error>(value),
{
    let r = head + value_params(value).subrange(1, 3);
    assert(r[4] == (value / 256) as u8 && r[5] == (value % 256) as u8);
    assert((value / 256) * 256 + value % 256 == value);
}

} // verus!

//! Battery status with support for both generations exposed by Logitech devices.

use vstd::prelude::*;

use crate::error::{Error, Msg};
use crate::exchange::{
    ask, fail, feature_index, feature_index_of, lookup, lookup_step, map_plan, request, retag,
    follows, Plan, Reply, Step,
};
use crate::text::{bool_text, dec, push_bool, push_dec, push_str};

verus! {

pub const BATTERY: u16 = 0x1000;
pub const UNIFIED_BATTERY: u16 = 0x1004;

#[derive(Clone, Copy, Debug, PartialEq, Eq)]
pub struct BatteryStatus {
    pub pct: u8,
    pub charging: bool,
}

impl DeepView for BatteryStatus {
    type V = BatteryStatus;

    open spec fn deep_view(&self) -> BatteryStatus {
        *self
    }
}

pub open spec fn json_text(status: BatteryStatus) -> Seq<char> {
    "{\"level\":"@ + dec(status.pct as nat) + ",\"charging\":"@ + bool_text(status.charging) + "}"@
}

pub open spec fn status_text(status: BatteryStatus, json: bool) -> Seq<char> {
    if json {
        json_text(status)
    } else {
        "Battery: "@ + dec(status.pct as nat) + "%"@ + if status.charging {
            " (charging)"@
        } else {
            ""@
        }
    }
}

/// The battery status as a JSON object.
pub fn json_value(status: &BatteryStatus) -> (s: String)
    ensures
        s@ == json_text(*status),
{
    let mut s = String::new();
    push_str(&mut s, "{\"level\":");
    push_dec(&mut s, status.pct as u64);
    push_str(&mut s, ",\"charging\":");
    push_bool(&mut s, status.charging);
    push_str(&mut s, "}");
    s
}

pub fn format_status(status: &BatteryStatus, json: bool) -> (s: String)
    ensures
        s@ == status_text(*status, json),
{
    if json {
        json_value(status)
    } else {
        let mut s = String::new();
        push_str(&mut s, "Battery: ");
        push_dec(&mut s, status.pct as u64);
        push_str(&mut s, "%");
        if status.charging {
            push_str(&mut s, " (charging)");
        } else {
            push_str(&mut s, "");
        }
        s
    }
}

/// The status in a battery reply. Both feature generations put the level at payload byte 0 and
/// the charging state at payload byte 2; they differ in which states mean charging.
pub open spec fn battery_reply(reply: Seq<u8>, unified: bool) -> Result<BatteryStatus, Error> {
    if reply.len() <= 6 {
        Err(Error::Message(Msg::BatteryReplyTooShort))
    } else {
        let state = reply[6];
        Ok(
            BatteryStatus {
                pct: reply[4],
                charging: if unified {
                    1 <= state <= 3
                } else {
                    1 <= state <= 4
                },
            },
        )
    }
}

pub fn parse_status_reply(reply: &[u8], unified: bool) -> (r: Result<BatteryStatus, Error>)
    ensures
        r == battery_reply(reply@, unified),
{
    if reply.len() <= 4 {
        return Err(Error::Message(Msg::BatteryReplyTooShort));
    }
    let pct = reply[4];
    if reply.len() <= 6 {
        return Err(Error::Message(Msg::BatteryReplyTooShort));
    }
    let state = reply[6];
    let charging = if unified {
        1 <= state && state <= 3
    } else {
        1 <= state && state <= 4
    };
    Ok(BatteryStatus { pct, charging })
}

pub open spec fn finish_status(r: Reply, unified: bool) -> Plan<BatteryStatus> {
    match r {
        Err(e) => fail(e),
        Ok(b) => Plan::Finish(battery_reply(b@, unified)),
    }
}

/// Reading the battery: the unified battery feature is preferred (status function 1); when the
/// device does not resolve it, the older battery feature (function 0) is used.
pub open spec fn read_plan(idx: u8, h: Seq<Reply>) -> Plan<BatteryStatus> {
    if h.len() == 0 {
        lookup(idx, UNIFIED_BATTERY)
    } else {
        match feature_index(h[0]) {
            Ok(f) => if h.len() == 1 {
                ask(idx, f, 1, Seq::empty())
            } else {
                finish_status(h[1], true)
            },
            Err(_) => if h.len() == 1 {
                lookup(idx, BATTERY)
            } else {
                match feature_index(h[1]) {
                    Err(e) => fail(e),
                    Ok(f) => if h.len() == 2 {
                        ask(idx, f, 0, Seq::empty())
                    } else {
                        finish_status(h[2], false)
                    },
                }
            },
        }
    }
}

fn finish_status_step(r: &Reply, unified: bool) -> (s: Step<BatteryStatus>)
    ensures
        follows(s, finish_status(*r, unified)),
{
    match r {
        Err(e) => Step::Done(Err(e.duplicate())),
        Ok(b) => Step::Done(parse_status_reply(b.as_slice(), unified)),
    }
}

/// The next step of reading the battery status of the device at `idx`.
pub fn read_status(idx: u8, h: &Vec<Reply>) -> (s: Step<BatteryStatus>)
    ensures
        follows(s, read_plan(idx, h@)),
{
    if h.len() == 0 {
        return lookup_step(idx, UNIFIED_BATTERY);
    }
    match feature_index_of(&h[0]) {
        Ok(f) => {
            if h.len() == 1 {
                request(idx, f, 1, &[])
            } else {
                finish_status_step(&h[1], true)
            }
        },
        Err(_) => {
            if h.len() == 1 {
                return lookup_step(idx, BATTERY);
            }
            match feature_index_of(&h[1]) {
                Err(e) => Step::Done(Err(e)),
                Ok(f) => {
                    if h.len() == 2 {
                        request(idx, f, 0, &[])
                    } else {
                        finish_status_step(&h[2], false)
                    }
                },
            }
        },
    }
}

/// The next step of reading the battery status as JSON.
pub fn json_status(idx: u8, h: &Vec<Reply>) -> (s: Step<String>)
    ensures
        follows(s, map_plan(read_plan(idx, h@), |b: BatteryStatus| json_text(b))),
{
    match read_status(idx, h) {
        Step::Done(Ok(status)) => Step::Done(Ok(json_value(&status))),
        Step::Done(Err(e)) => Step::Done(Err(e)),
        other => retag(other),
    }
}

} // verus!

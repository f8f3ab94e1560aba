//! Easy-Switch host selection.

use vstd::prelude::*;

use crate::error::{Error, Msg};
use crate::exchange::{call, call_plan, feature_index, feature_call_step, follows, CallOutcome, Plan, Reply, Step};
use crate::text::{chars_of, parse_trimmed, parse_unsigned, trim};

verus! {

pub const CHANGE_HOST: u16 = 0x1814;

/// What `parse` makes of a host argument.
pub open spec fn host_arg(arg: Seq<char>) -> Result<u8, Error> {
    match parse_unsigned(trim(arg), u8::MAX as nat) {
        Err(k) => Err(Error::Number(k)),
        Ok(n) => if 1 <= n <= 3 {
            Ok(n as u8)
        } else {
            Err(Error::Message(Msg::HostRange))
        },
    }
}

/// A host number from 1 to 3.
pub fn parse(arg: &str) -> (r: Result<u8, Error>)
    ensures
        r == host_arg(arg@),
{
    let chars = chars_of(arg);
    match parse_trimmed(chars.as_slice(), u8::MAX as u64) {
        Err(k) => Err(Error::Number(k)),
        Ok(n) => {
            if 1 <= n && n <= 3 {
                Ok(n as u8)
            } else {
                Err(Error::Message(Msg::HostRange))
            }
        },
    }
}

/// Switching to a host: function 1 of the change-host feature with the zero-based host.
pub open spec fn set_value_plan(idx: u8, host: u8, h: Seq<Reply>) -> Plan<()> {
    call_plan(call(idx, CHANGE_HOST, 0x01, seq![(host - 1) as u8], h), |b: Seq<u8>| Ok(()))
}

pub fn set_value(idx: u8, host: u8, h: &Vec<Reply>) -> (s: Step<()>)
    requires
        host >= 1,
    ensures
        follows(s, set_value_plan(idx, host, h@)),
{
    let p: [u8; 1] = [host - 1];
    assert(p@ =~= seq![(host - 1) as u8]);
    match feature_call_step(idx, CHANGE_HOST, 0x01, &p, h) {
        CallOutcome::Ask(r) => Step::Exchange(r),
        CallOutcome::Fail(e) => Step::Done(Err(e)),
        CallOutcome::Reply(_) => Step::Done(Ok(())),
    }
}

pub open spec fn set_plan(idx: u8, arg: Seq<char>, h: Seq<Reply>) -> Plan<()> {
    match host_arg(arg) {
        Err(e) => Plan::Finish(Err(e)),
        Ok(host) => set_value_plan(idx, host, h),
    }
}

pub fn set(idx: u8, arg: &str, h: &Vec<Reply>) -> (s: Step<()>)
    ensures
        follows(s, set_plan(idx, arg@, h@)),
{
    match parse(arg) {
        Err(e) => Step::Done(Err(e)),
        Ok(host) => set_value(idx, host, h),
    }
}

/// Switching to host `n` (1 to 3) sends, once the change-host feature is resolved, the single
/// parameter byte `n - 1`: hosts 1, 2 and 3 select channels 0, 1 and 2.
pub proof fn lemma_host_channel(idx: u8, arg: Seq<char>, h: Seq<Reply>)
    requires
        h.len() == 1,
        feature_index(h[0]) is Ok,
        host_arg(arg) is Ok,
    ensures
        1 <= host_arg(arg)->Ok_0 <= 3,
        set_plan(idx, arg, h) matches Plan::Ask { idx: i, feature, function, params } && i == idx
            && feature == feature_index(h[0])->Ok_0 && function == 0x01 && params.len() == 1
            && params[0] + 1 == host_arg(arg)->Ok_0 && params[0] <= 2,
{
}

} // verus!

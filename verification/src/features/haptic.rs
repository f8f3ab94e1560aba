//! Haptic feedback: strength configuration and effect playback.

use vstd::prelude::*;

use crate::device::SHORT;
use crate::error::{Error, Msg};
use crate::exchange::{
    call, call_plan, fail, feature_call_step, feature_index, feature_index_of, follows, lookup,
    lookup_step, map_plan, retag, CallOutcome, Plan, Reply, Step,
};
use crate::text::{
    bool_text, chars_eq, chars_of, dec, first_dotdot_from, find_dotdot, parse_trimmed,
    parse_unsigned, push_bool, push_dec, push_str, sub_chars, trim, trim_chars,
};

verus! {

pub const HAPTIC: u16 = 0x19b0;
pub const HAPTIC_SW_ID: u8 = 0x0e;
pub const HAPTIC_EFFECT_METHOD: u8 = 0x04;
pub const HAPTIC_STRENGTH_METHOD: u8 = 0x02;
/// The highest haptic effect number.
pub const MAX_EFFECT: u8 = 14;

#[derive(Clone, Copy, Debug, PartialEq, Eq)]
pub struct HapticStatus {
    pub enabled: bool,
    pub level: u8,
    pub discrete_levels: bool,
}

impl DeepView for HapticStatus {
    type V = HapticStatus;

    open spec fn deep_view(&self) -> HapticStatus {
        *self
    }
}

/// What `parse_strength` makes of an argument: a named preset or a number up to 100.
pub open spec fn strength_arg(arg: Seq<char>) -> Result<u8, Error> {
    let t = trim(arg);
    if t == "off"@ {
        Ok(0)
    } else if t == "subtle"@ {
        Ok(15)
    } else if t == "low"@ {
        Ok(45)
    } else if t == "medium"@ {
        Ok(60)
    } else if t == "high"@ {
        Ok(100)
    } else {
        match parse_unsigned(t, u8::MAX as nat) {
            Err(k) => Err(Error::Number(k)),
            Ok(n) => if n > 100 {
                Err(Error::Message(Msg::HapticStrengthRange))
            } else {
                Ok(n as u8)
            },
        }
    }
}

pub fn parse_strength(arg: &str) -> (r: Result<u8, Error>)
    ensures
        r == strength_arg(arg@),
{
    let chars = chars_of(arg);
    let t = trim_chars(chars.as_slice());
    let ts = t.as_slice();
    if chars_eq(ts, "off") {
        return Ok(0);
    }
    if chars_eq(ts, "subtle") {
        return Ok(15);
    }
    if chars_eq(ts, "low") {
        return Ok(45);
    }
    if chars_eq(ts, "medium") {
        return Ok(60);
    }
    if chars_eq(ts, "high") {
        return Ok(100);
    }
    match crate::text::parse_unsigned_chars(ts, u8::MAX as u64) {
        Err(k) => Err(Error::Number(k)),
        Ok(n) => {
            if n > 100 {
                Err(Error::Message(Msg::HapticStrengthRange))
            } else {
                Ok(n as u8)
            }
        },
    }
}

/// What `parse_effect` makes of an argument: an effect number from 0 to 14.
pub open spec fn effect_arg(arg: Seq<char>) -> Result<u8, Error> {
    match parse_unsigned(trim(arg), u8::MAX as nat) {
        Err(k) => Err(Error::Number(k)),
        Ok(n) => if n > MAX_EFFECT {
            Err(Error::Message(Msg::HapticEffectRange))
        } else {
            Ok(n as u8)
        },
    }
}

pub fn parse_effect(arg: &[char]) -> (r: Result<u8, Error>)
    ensures
        r == effect_arg(arg@),
{
    match parse_trimmed(arg, u8::MAX as u64) {
        Err(k) => Err(Error::Number(k)),
        Ok(n) => {
            if n > MAX_EFFECT as u64 {
                Err(Error::Message(Msg::HapticEffectRange))
            } else {
                Ok(n as u8)
            }
        },
    }
}

/// The text inside one pair of braces around the trimmed argument, or the trimmed argument.
pub open spec fn range_body(arg: Seq<char>) -> Seq<char> {
    let t = trim(arg);
    if t.len() >= 2 && t[0] == '{' && t.last() == '}' {
        t.subrange(1, t.len() - 1)
    } else {
        t
    }
}

/// What `parse_range` makes of an argument: `None` without `..`, else both ends as effects.
pub open spec fn range_arg(arg: Seq<char>) -> Result<Option<(u8, u8)>, Error> {
    let inner = range_body(arg);
    match first_dotdot_from(inner, 0) {
        None => Ok(None),
        Some(i) => match effect_arg(inner.subrange(0, i as int)) {
            Err(e) => Err(e),
            Ok(a) => match effect_arg(inner.subrange(i + 2 as int, inner.len() as int)) {
                Err(e) => Err(e),
                Ok(b) => Ok(Some((a, b))),
            },
        },
    }
}

pub fn parse_range(arg: &str) -> (r: Result<Option<(u8, u8)>, Error>)
    ensures
        r == range_arg(arg@),
{
    let chars = chars_of(arg);
    let t = trim_chars(chars.as_slice());
    let inner = if t.len() >= 2 && t[0] == '{' && t[t.len() - 1] == '}' {
        sub_chars(t.as_slice(), 1, t.len() - 1)
    } else {
        sub_chars(t.as_slice(), 0, t.len())
    };
    assert(inner@ == range_body(arg@)) by {
        assert(t@.subrange(0, t@.len() as int) =~= t@);
    }
    let slice = inner.as_slice();
    match find_dotdot(slice) {
        None => Ok(None),
        Some(i) => {
            let a = sub_chars(slice, 0, i);
            let b = sub_chars(slice, i + 2, inner.len());
            match parse_effect(a.as_slice()) {
                Err(e) => Err(e),
                Ok(x) => match parse_effect(b.as_slice()) {
                    Err(e) => Err(e),
                    Ok(y) => Ok(Some((x, y))),
                },
            }
        },
    }
}

/// The effects from `a` to `b`, counting up or down.
pub open spec fn effect_range(a: u8, b: u8) -> Seq<u8> {
    if a <= b {
        Seq::new((b - a + 1) as nat, |i: int| (a + i) as u8)
    } else {
        Seq::new((a - b + 1) as nat, |i: int| (a - i) as u8)
    }
}

/// What `parse_effect_arg` makes of one argument: a range of effects or a single effect.
pub open spec fn effects_of(arg: Seq<char>) -> Result<Seq<u8>, Error> {
    match range_arg(arg) {
        Err(e) => Err(e),
        Ok(Some((a, b))) => Ok(effect_range(a, b)),
        Ok(None) => match effect_arg(arg) {
            Err(e) => Err(e),
            Ok(x) => Ok(seq![x]),
        },
    }
}

pub fn parse_effect_arg(arg: &str) -> (r: Result<Vec<u8>, Error>)
    ensures
        match (r, effects_of(arg@)) {
            (Ok(v), Ok(w)) => v@ == w,
            (Err(e), Err(f)) => e == f,
            _ => false,
        },
{
    match parse_range(arg) {
        Err(e) => Err(e),
        Ok(Some((start, end))) => {
            let mut v: Vec<u8> = Vec::new();
            if start <= end {
                let n: u16 = (end - start) as u16;
                let mut k: u16 = 0;
                while k <= n
                    invariant
                        n == end - start,
                        k <= n + 1,
                        v@ =~= Seq::new(k as nat, |i: int| (start + i) as u8),
                    decreases n + 1 - k,
                {
                    v.push((start as u16 + k) as u8);
                    k = k + 1;
                }
                assert(v@ =~= effect_range(start, end));
            } else {
                let n: u16 = (start - end) as u16;
                let mut k: u16 = 0;
                while k <= n
                    invariant
                        n == start - end,
                        k <= n + 1,
                        v@ =~= Seq::new(k as nat, |i: int| (start - i) as u8),
                    decreases n + 1 - k,
                {
                    v.push((start as u16 - k) as u8);
                    k = k + 1;
                }
                assert(v@ =~= effect_range(start, end));
            }
            Ok(v)
        },
        Ok(None) => {
            let chars = chars_of(arg);
            match parse_effect(chars.as_slice()) {
                Err(e) => Err(e),
                Ok(x) => {
                    let v = vec![x];
                    assert(v@ =~= seq![x]);
                    Ok(v)
                },
            }
        },
    }
}

/// The effects of the first `n` arguments, in order; the first argument that fails decides.
pub open spec fn effects_upto(args: Seq<Seq<char>>, n: int) -> Result<Seq<u8>, Error>
    decreases n,
{
    if n <= 0 {
        Ok(Seq::empty())
    } else {
        match effects_upto(args, n - 1) {
            Err(e) => Err(e),
            Ok(v) => match effects_of(args[n - 1]) {
                Err(e) => Err(e),
                Ok(w) => Ok(v + w),
            },
        }
    }
}

proof fn lemma_effects_error_stays(args: Seq<Seq<char>>, m: int, n: int)
    requires
        0 <= m <= n,
        effects_upto(args, m) is Err,
    ensures
        effects_upto(args, n) == effects_upto(args, m),
    decreases n - m,
{
    if n > m {
        lemma_effects_error_stays(args, m, n - 1);
    }
}

pub open spec fn arg_texts(args: Seq<String>) -> Seq<Seq<char>> {
    args.map_values(|s: String| s@)
}

pub fn parse_effects(args: &[String]) -> (r: Result<Vec<u8>, Error>)
    ensures
        match (r, effects_upto(arg_texts(args@), args@.len() as int)) {
            (Ok(v), Ok(w)) => v@ == w,
            (Err(e), Err(f)) => e == f,
            _ => false,
        },
{
    let mut effects: Vec<u8> = Vec::new();
    let mut i: usize = 0;
    while i < args.len()
        invariant
            i <= args.len(),
            effects_upto(arg_texts(args@), i as int) == Ok::<Seq<u8>, Error>(effects@),
        decreases args.len() - i,
    {
        assert(arg_texts(args@)[i as int] == args@[i as int]@);
        match parse_effect_arg(args[i].as_str()) {
            Err(e) => {
                proof {
                    lemma_effects_error_stays(arg_texts(args@), i + 1, args@.len() as int);
                }
                return Err(e);
            },
            Ok(more) => {
                let mut k: usize = 0;
                let ghost before = effects@;
                while k < more.len()
                    invariant
                        k <= more.len(),
                        effects@ == before + more@.take(k as int),
                    decreases more.len() - k,
                {
                    effects.push(more[k]);
                    k = k + 1;
                    assert(effects@ =~= before + more@.take(k as int));
                }
                assert(more@.take(more.len() as int) =~= more@);
            },
        }
        i = i + 1;
    }
    Ok(effects)
}

/// The status in a haptic configuration reply; a disabled motor reports level 0.
pub open spec fn haptic_reply(reply: Seq<u8>) -> Result<HapticStatus, Error> {
    if reply.len() <= 6 {
        Err(Error::Message(Msg::HapticReplyTooShort))
    } else {
        let enabled = reply[4] & 0x01 != 0;
        Ok(
            HapticStatus {
                enabled,
                level: if enabled {
                    reply[5]
                } else {
                    0
                },
                discrete_levels: reply[6] & 0x01 != 0,
            },
        )
    }
}

pub fn parse_status_reply(reply: &[u8]) -> (r: Result<HapticStatus, Error>)
    ensures
        r == haptic_reply(reply@),
{
    if reply.len() <= 6 {
        return Err(Error::Message(Msg::HapticReplyTooShort));
    }
    let enabled = reply[4] & 0x01 != 0;
    let raw_level = reply[5];
    let flags = reply[6];
    Ok(
        HapticStatus {
            enabled,
            level: if enabled {
                raw_level
            } else {
                0
            },
            discrete_levels: flags & 0x01 != 0,
        },
    )
}

pub open spec fn status_text(status: HapticStatus, json: bool) -> Seq<char> {
    if json {
        "{\"enabled\":"@ + bool_text(status.enabled) + ",\"level\":"@ + dec(status.level as nat)
            + ",\"discrete_levels\":"@ + bool_text(status.discrete_levels) + "}"@
    } else if status.enabled {
        "Haptic: "@ + dec(status.level as nat) + if status.discrete_levels {
            " (discrete levels)"@
        } else {
            ""@
        }
    } else {
        "Haptic: off"@
    }
}

pub fn format_status(status: &HapticStatus, json: bool) -> (s: String)
    ensures
        s@ == status_text(*status, json),
{
    let mut s = String::new();
    if json {
        push_str(&mut s, "{\"enabled\":");
        push_bool(&mut s, status.enabled);
        push_str(&mut s, ",\"level\":");
        push_dec(&mut s, status.level as u64);
        push_str(&mut s, ",\"discrete_levels\":");
        push_bool(&mut s, status.discrete_levels);
        push_str(&mut s, "}");
    } else if status.enabled {
        push_str(&mut s, "Haptic: ");
        push_dec(&mut s, status.level as u64);
        if status.discrete_levels {
            push_str(&mut s, " (discrete levels)");
        } else {
            push_str(&mut s, "");
        }
    } else {
        push_str(&mut s, "Haptic: off");
    }
    s
}

/// A haptic packet: the short header with the haptic software ID, and at most three parameter
/// bytes (further bytes are dropped), zero-filled.
pub open spec fn packet_bytes(idx: u8, feature_idx: u8, method: u8, params: Seq<u8>) -> Seq<u8> {
    Seq::new(
        7,
        |i: int|
            if i == 0 {
                SHORT
            } else if i == 1 {
                idx
            } else if i == 2 {
                feature_idx
            } else if i == 3 {
                ((method as nat % 16) * 16 + HAPTIC_SW_ID as nat) as u8
            } else if i - 4 < params.len() {
                params[i - 4]
            } else {
                0u8
            },
    )
}

pub fn packet(idx: u8, feature_idx: u8, method: u8, params: &[u8]) -> (p: [u8; 7])
    ensures
        p@ == packet_bytes(idx, feature_idx, method, params@),
{
    let header = (method << 4u8) | HAPTIC_SW_ID;
    assert(((method << 4u8) | 14u8) == ((method % 16) * 16 + 14) as u8) by (bit_vector);
    let p0 = if params.len() > 0 {
        params[0]
    } else {
        0
    };
    let p1 = if params.len() > 1 {
        params[1]
    } else {
        0
    };
    let p2 = if params.len() > 2 {
        params[2]
    } else {
        0
    };
    let p = [SHORT, idx, feature_idx, header, p0, p1, p2];
    assert(p@ =~= packet_bytes(idx, feature_idx, method, params@));
    p
}

/// Reading the haptic configuration: function 1 of the haptic feature.
pub open spec fn read_plan(idx: u8, h: Seq<Reply>) -> Plan<HapticStatus> {
    call_plan(call(idx, HAPTIC, 0x01, Seq::empty(), h), |b: Seq<u8>| haptic_reply(b))
}

pub fn read_status(idx: u8, h: &Vec<Reply>) -> (s: Step<HapticStatus>)
    ensures
        follows(s, read_plan(idx, h@)),
{
    match feature_call_step(idx, HAPTIC, 0x01, &[], h) {
        CallOutcome::Ask(r) => Step::Exchange(r),
        CallOutcome::Fail(e) => Step::Done(Err(e)),
        CallOutcome::Reply(b) => Step::Done(parse_status_reply(b.as_slice())),
    }
}

pub fn json_status(idx: u8, h: &Vec<Reply>) -> (s: Step<String>)
    ensures
        follows(s, map_plan(read_plan(idx, h@), |st: HapticStatus| status_text(st, true))),
{
    match read_status(idx, h) {
        Step::Done(Ok(status)) => Step::Done(Ok(format_status(&status, true))),
        Step::Done(Err(e)) => Step::Done(Err(e)),
        other => retag(other),
    }
}

/// The strength parameters: strength 0 turns the motor off (keeping level 50), any other strength
/// enables it at that level.
pub open spec fn strength_params(strength: u8) -> Seq<u8> {
    if strength == 0 {
        seq![0x00u8, 0x32u8]
    } else {
        seq![0x01u8, strength]
    }
}

pub open spec fn set_strength_plan(idx: u8, strength: u8, h: Seq<Reply>) -> Plan<()> {
    call_plan(
        call(idx, HAPTIC, HAPTIC_STRENGTH_METHOD, strength_params(strength), h),
        |b: Seq<u8>| Ok(()),
    )
}

pub fn set_strength(idx: u8, strength: u8, h: &Vec<Reply>) -> (s: Step<()>)
    ensures
        follows(s, set_strength_plan(idx, strength, h@)),
{
    let params: [u8; 2] = if strength == 0 {
        [0x00, 0x32]
    } else {
        [0x01, strength]
    };
    assert(params@ =~= strength_params(strength));
    match feature_call_step(idx, HAPTIC, HAPTIC_STRENGTH_METHOD, &params, h) {
        CallOutcome::Ask(r) => Step::Exchange(r),
        CallOutcome::Fail(e) => Step::Done(Err(e)),
        CallOutcome::Reply(_) => Step::Done(Ok(())),
    }
}

pub open spec fn set_strength_arg_plan(idx: u8, arg: Seq<char>, h: Seq<Reply>) -> Plan<()> {
    match strength_arg(arg) {
        Err(e) => Plan::Finish(Err(e)),
        Ok(strength) => set_strength_plan(idx, strength, h),
    }
}

pub fn set_strength_arg(idx: u8, arg: &str, h: &Vec<Reply>) -> (s: Step<()>)
    ensures
        follows(s, set_strength_arg_plan(idx, arg@, h@)),
{
    match parse_strength(arg) {
        Err(e) => Step::Done(Err(e)),
        Ok(strength) => set_strength(idx, strength, h),
    }
}

/// Playing one effect: resolve the haptic feature, then write the effect packet without waiting
/// for a reply.
pub open spec fn send_plan(idx: u8, effect: u8, h: Seq<Reply>) -> Plan<()> {
    if h.len() == 0 {
        lookup(idx, HAPTIC)
    } else {
        match feature_index(h[0]) {
            Err(e) => fail(e),
            Ok(f) => if h.len() == 1 {
                Plan::Write(packet_bytes(idx, f, HAPTIC_EFFECT_METHOD, seq![effect]))
            } else {
                match h[1] {
                    Err(e) => fail(e),
                    Ok(_) => Plan::Finish(Ok(())),
                }
            },
        }
    }
}

fn packet_vec(p: [u8; 7]) -> (v: Vec<u8>)
    ensures
        v@ == p@,
{
    let v = vec![p[0], p[1], p[2], p[3], p[4], p[5], p[6]];
    assert(v@ =~= p@);
    v
}

pub fn send_haptic(idx: u8, effect: u8, h: &Vec<Reply>) -> (s: Step<()>)
    ensures
        follows(s, send_plan(idx, effect, h@)),
{
    assert(h@.skip(0) =~= h@);
    send_from(idx, effect, h, 0)
}

/// Playing effects in order, pausing one second between consecutive effects.
pub open spec fn play_plan(idx: u8, effects: Seq<u8>, h: Seq<Reply>) -> Plan<()>
    decreases effects.len(),
{
    if effects.len() == 0 {
        Plan::Finish(Ok(()))
    } else {
        let first = send_plan(idx, effects[0], h);
        if first != Plan::<()>::Finish(Ok(())) || effects.len() == 1 {
            first
        } else if h.len() <= 2 {
            Plan::Pause
        } else {
            play_plan(idx, effects.drop_first(), h.skip(3))
        }
    }
}

pub fn play(idx: u8, effects: &[u8], h: &Vec<Reply>) -> (s: Step<()>)
    ensures
        follows(s, play_plan(idx, effects@, h@)),
{
    let mut i: usize = 0;
    let mut pos: usize = 0;
    assert(effects@.skip(0) =~= effects@);
    assert(h@.skip(0) =~= h@);
    while i < effects.len()
        invariant
            i <= effects.len(),
            pos <= h.len(),
            play_plan(idx, effects@, h@) == play_plan(idx, effects@.skip(i as int), h@.skip(pos as int)),
        decreases effects.len() - i,
    {
        let ghost rest = effects@.skip(i as int);
        let ghost later = h@.skip(pos as int);
        assert(rest[0] == effects@[i as int]);
        let s = send_from(idx, effects[i], h, pos);
        let finished = matches!(s, Step::Done(Ok(_)));
        if !finished || i + 1 == effects.len() {
            return s;
        }
        if h.len() - pos <= 2 {
            return Step::Pause;
        }
        proof {
            assert(rest.drop_first() =~= effects@.skip(i + 1));
            assert(later.skip(3) =~= h@.skip(pos + 3));
        }
        i = i + 1;
        pos = pos + 3;
    }
    Step::Done(Ok(()))
}

fn send_from(idx: u8, effect: u8, h: &Vec<Reply>, from: usize) -> (s: Step<()>)
    requires
        from <= h.len(),
    ensures
        follows(s, send_plan(idx, effect, h@.skip(from as int))),
{
    let ghost t = h@.skip(from as int);
    if h.len() == from {
        return lookup_step(idx, HAPTIC);
    }
    assert(t[0] == h@[from as int]);
    match feature_index_of(&h[from]) {
        Err(e) => Step::Done(Err(e)),
        Ok(f) => {
            if h.len() == from + 1 {
                let params: [u8; 1] = [effect];
                assert(params@ =~= seq![effect]);
                Step::Write(packet_vec(packet(idx, f, HAPTIC_EFFECT_METHOD, &params)))
            } else {
                assert(t[1] == h@[from + 1]);
                match &h[from + 1] {
                    Err(e) => Step::Done(Err(e.duplicate())),
                    Ok(_) => Step::Done(Ok(())),
                }
            }
        },
    }
}

/// The strength that a setting writes reads back from a status reply carrying its bytes: zero as
/// haptics off, any other strength as haptics on at that level.
pub proof fn lemma_strength_reads_back(strength: u8, head: Seq<u8>, flags: u8)
    requires
        head.len() == 4,
    ensures
        haptic_reply(head + strength_params(strength) + seq![flags]) == Ok::<HapticStatus, Error>(
            HapticStatus {
                enabled: strength != 0,
                level: strength,
                discrete_levels: flags & 0x01 != 0,
            },
        ),
{
    let r = head + strength_params(strength) + seq![flags];
    assert(r[6] == flags);
    if strength == 0 {
        assert(r[4] == 0x00u8);
        assert(0x00u8 & 0x01 == 0) by (bit_vector);
    } else {
        assert(r[4] == 0x01u8 && r[5] == strength);
        assert(0x01u8 & 0x01 != 0) by (bit_vector);
    }
}

/// Every effect that an argument names is playable (from 0 to 14), and a range runs from its
/// first end to its second, one effect at a time, in either direction.
pub proof fn lemma_effects_in_range(arg: Seq<char>)
    ensures
        effects_of(arg) matches Ok(v) ==> v.len() >= 1 && forall|i: int|
            0 <= i < v.len() ==> v[i] <= MAX_EFFECT,
        range_arg(arg) matches Ok(Some((a, b))) ==> {
            let r = effect_range(a, b);
            &&& r[0] == a
            &&& r.last() == b
            &&& forall|i: int| 0 < i < r.len() ==> #[trigger] r[i] == r[i - 1] + 1 || r[i] == r[i - 1] - 1
        },
{
    match range_arg(arg) {
        Ok(Some((a, b))) => {
            let r = effect_range(a, b);
            assert(a <= MAX_EFFECT && b <= MAX_EFFECT);
            assert forall|i: int| 0 <= i < r.len() implies r[i] <= MAX_EFFECT by {
                if a <= b {
                    assert(r[i] == a + i);
                } else {
                    assert(r[i] == a - i);
                }
            }
        },
        _ => {},
    }
}

/// The text status: an enabled motor shows `Haptic: ` and its level, followed by
/// ` (discrete levels)` exactly when the device reports discrete levels; a disabled one shows
/// `Haptic: off`.
pub proof fn lemma_text_status(status: HapticStatus)
    ensures
        status.enabled && status.discrete_levels ==> status_text(status, false) == "Haptic: "@
            + dec(status.level as nat) + " (discrete levels)"@,
        status.enabled && !status.discrete_levels ==> status_text(status, false) == "Haptic: "@
            + dec(status.level as nat),
        !status.enabled ==> status_text(status, false) == "Haptic: off"@,
{
    assert("Haptic: "@ + dec(status.level as nat) + ""@ =~= "Haptic: "@ + dec(status.level as nat)) by {
        reveal_strlit("");
    }
}

} // verus!

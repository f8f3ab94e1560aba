//! The shape of a conversation with the mouse.
//!
//! Every device operation of the library is a decision procedure: given the replies received so
//! far, it returns the next [`Step`]. The caller performs the step (sends the request and waits for
//! its reply, writes a packet, or pauses) and calls the procedure again with the outcome appended,
//! until the procedure is [`Step::Done`].

use vstd::prelude::*;

use crate::device::{classify, classify_reply, ProtocolError, ReplyMatch, REPLY_READS};
use crate::error::{Error, Msg, UnexpectedReply};

verus! {

/// A short HID++ request for one feature function.
pub struct Request {
    pub idx: u8,
    pub feature: u8,
    pub function: u8,
    pub params: Vec<u8>,
}

/// The outcome of a step: the reply's bytes for an exchange, nothing for a write or a pause.
pub type Reply = Result<Vec<u8>, Error>;

/// What to do next.
pub enum Step<T> {
    /// Send the request and wait for its reply.
    Exchange(Request),
    /// Write this packet as it is, without waiting for a reply.
    Write(Vec<u8>),
    /// Wait one second.
    Pause,
    /// The operation is over.
    Done(Result<T, Error>),
}

/// The mathematical content of a step.
pub ghost enum Plan<V> {
    Ask { idx: u8, feature: u8, function: u8, params: Seq<u8> },
    Write(Seq<u8>),
    Pause,
    Finish(Result<V, Error>),
}

/// Whether a step is the one a plan describes.
pub open spec fn follows<T: DeepView>(s: Step<T>, p: Plan<T::V>) -> bool {
    match (s, p) {
        (Step::Exchange(r), Plan::Ask { idx, feature, function, params }) => r.idx == idx
            && r.feature == feature && r.function == function && r.params@ == params,
        (Step::Write(b), Plan::Write(c)) => b@ == c,
        (Step::Pause, Plan::Pause) => true,
        (Step::Done(Ok(v)), Plan::Finish(Ok(w))) => v.deep_view() == w,
        (Step::Done(Err(e)), Plan::Finish(Err(f))) => e == f,
        _ => false,
    }
}

pub open spec fn ask<V>(idx: u8, feature: u8, function: u8, params: Seq<u8>) -> Plan<V> {
    Plan::Ask { idx, feature, function, params }
}

pub open spec fn fail<V>(e: Error) -> Plan<V> {
    Plan::Finish(Err(e))
}

/// Resolving a HID++ 2.0 feature ID: the root feature (index zero, function zero) maps the stable
/// ID to the runtime index that this device assigned.
pub open spec fn lookup<V>(idx: u8, feature_id: u16) -> Plan<V> {
    ask(idx, 0, 0, seq![(feature_id / 256) as u8, (feature_id % 256) as u8])
}

/// The runtime feature index in a root-feature reply.
pub open spec fn feature_index(r: Reply) -> Result<u8, Error> {
    match r {
        Err(e) => Err(e),
        Ok(b) => if b@.len() <= 4 {
            Err(Error::Message(Msg::FeatureReplyTooShort))
        } else if b@[4] == 0 {
            Err(Error::Message(Msg::FeatureUnavailable))
        } else {
            Ok(b@[4])
        },
    }
}

pub fn feature_index_of(r: &Reply) -> (x: Result<u8, Error>)
    ensures
        x == feature_index(*r),
{
    match r {
        Err(e) => Err(e.duplicate()),
        Ok(b) => {
            if b.len() <= 4 {
                Err(Error::Message(Msg::FeatureReplyTooShort))
            } else if b[4] == 0 {
                Err(Error::Message(Msg::FeatureUnavailable))
            } else {
                Ok(b[4])
            }
        },
    }
}

pub fn request<T>(idx: u8, feature: u8, function: u8, params: &[u8]) -> (s: Step<T>)
    ensures
        s matches Step::Exchange(r) && r.idx == idx && r.feature == feature && r.function
            == function && r.params@ == params@,
        params.len() == 0 ==> (s matches Step::Exchange(r) && r.params@ == Seq::<u8>::empty()),
{
    let mut v: Vec<u8> = Vec::new();
    let mut i: usize = 0;
    while i < params.len()
        invariant
            i <= params.len(),
            v@ == params@.take(i as int),
        decreases params.len() - i,
    {
        v.push(params[i]);
        i = i + 1;
        assert(v@ =~= params@.take(i as int));
    }
    assert(params@.take(params.len() as int) =~= params@);
    assert(params.len() == 0 ==> v@ =~= Seq::<u8>::empty());
    Step::Exchange(Request { idx, feature, function, params: v })
}

/// The root-feature request for a feature ID.
pub fn lookup_step<T: DeepView>(idx: u8, feature_id: u16) -> (s: Step<T>)
    ensures
        follows(s, lookup::<T::V>(idx, feature_id)),
{
    let hi = (feature_id / 256) as u8;
    let lo = (feature_id % 256) as u8;
    let s = request(idx, 0, 0, &[hi, lo]);
    assert(seq![hi, lo] == seq![(feature_id / 256) as u8, (feature_id % 256) as u8]);
    s
}

/// A copy of the bytes of a successful reply.
pub fn reply_bytes(b: &Vec<u8>) -> (v: Vec<u8>)
    ensures
        v@ == b@,
{
    let mut v: Vec<u8> = Vec::new();
    let mut i: usize = 0;
    while i < b.len()
        invariant
            i <= b.len(),
            v@ == b@.take(i as int),
        decreases b.len() - i,
    {
        v.push(b[i]);
        i = i + 1;
        assert(v@ =~= b@.take(i as int));
    }
    assert(b@.take(b.len() as int) =~= b@);
    v
}

/// Waiting for the reply to one request: every read report is classified, the first matching
/// reply or error reply ends the wait, and after [`REPLY_READS`] reads the first unexpected reply
/// (or else a timeout) is the outcome. Notifications share the endpoint with replies and are
/// ignored.
pub struct ReplyWait {
    pub idx: u8,
    pub feature: u8,
    pub function: u8,
    pub reads: u8,
    pub unexpected: Option<UnexpectedReply>,
}

/// The wait after one more read, and its outcome if the wait is over.
pub open spec fn wait_next(w: ReplyWait, data: Seq<u8>) -> (ReplyWait, Option<Result<Seq<u8>, Error>>) {
    let reads = if w.reads >= REPLY_READS {
        REPLY_READS
    } else {
        (w.reads + 1) as u8
    };
    match classify(data, w.idx, w.feature, w.function) {
        ReplyMatch::Matched => (ReplyWait { reads, ..w }, Some(Ok(data))),
        ReplyMatch::Rejected(p) => (ReplyWait { reads, ..w }, Some(Err(Error::Protocol(p)))),
        m => {
            let unexpected = if (m is Unexpected) && w.unexpected is None {
                Some(m->Unexpected_0)
            } else {
                w.unexpected
            };
            let next = ReplyWait { reads, unexpected, ..w };
            if reads >= REPLY_READS {
                (
                    next,
                    Some(
                        Err(
                            match unexpected {
                                Some(u) => Error::Unexpected(u),
                                None => Error::Timeout,
                            },
                        ),
                    ),
                )
            } else {
                (next, None)
            }
        },
    }
}

impl ReplyWait {
    pub fn new(idx: u8, feature: u8, function: u8) -> (w: ReplyWait)
        ensures
            w == (ReplyWait { idx, feature, function, reads: 0, unexpected: None }),
    {
        ReplyWait { idx, feature, function, reads: 0, unexpected: None }
    }

    /// Takes one read (empty when the read timed out); `Some` when the wait is over.
    pub fn on_read(&mut self, data: &[u8]) -> (r: Option<Result<Vec<u8>, Error>>)
        ensures
            *final(self) == wait_next(*old(self), data@).0,
            match (r, wait_next(*old(self), data@).1) {
                (None, None) => true,
                (Some(Ok(v)), Some(Ok(w))) => v@ == w,
                (Some(Err(e)), Some(Err(f))) => e == f,
                _ => false,
            },
    {
        let reads = if self.reads >= REPLY_READS {
            REPLY_READS
        } else {
            self.reads + 1
        };
        self.reads = reads;
        match classify_reply(data, self.idx, self.feature, self.function) {
            Ok(ReplyMatch::Matched) => {
                let mut v: Vec<u8> = Vec::new();
                let mut i: usize = 0;
                while i < data.len()
                    invariant
                        i <= data.len(),
                        v@ == data@.take(i as int),
                    decreases data.len() - i,
                {
                    v.push(data[i]);
                    i = i + 1;
                    assert(v@ =~= data@.take(i as int));
                }
                assert(data@.take(data.len() as int) =~= data@);
                Some(Ok(v))
            },
            Ok(ReplyMatch::Rejected(p)) => Some(Err(Error::Protocol(p))),
            Ok(m) => {
                if let ReplyMatch::Unexpected(u) = m {
                    if self.unexpected.is_none() {
                        self.unexpected = Some(u);
                    }
                }
                if reads >= REPLY_READS {
                    match self.unexpected {
                        Some(u) => Some(Err(Error::Unexpected(u))),
                        None => Some(Err(Error::Timeout)),
                    }
                } else {
                    None
                }
            },
            Err(e) => Some(Err(e)),
        }
    }
}

/// A wait that has begun ends after at most [`REPLY_READS`] reads, whatever the reads are.
pub proof fn lemma_wait_ends(w: ReplyWait, data: Seq<u8>)
    requires
        w.reads + 1 >= REPLY_READS,
    ensures
        wait_next(w, data).1 is Some,
{
}


/// A plan whose result is transformed by `f`.
pub open spec fn map_plan<A, B>(p: Plan<A>, f: spec_fn(A) -> B) -> Plan<B> {
    match p {
        Plan::Ask { idx, feature, function, params } => Plan::Ask { idx, feature, function, params },
        Plan::Write(b) => Plan::Write(b),
        Plan::Pause => Plan::Pause,
        Plan::Finish(Ok(a)) => Plan::Finish(Ok(f(a))),
        Plan::Finish(Err(e)) => Plan::Finish(Err(e)),
    }
}

/// The same unfinished step, for an operation with another result type.
pub fn retag<A, B>(s: Step<A>) -> (r: Step<B>)
    requires
        !(s is Done),
    ensures
        match (s, r) {
            (Step::Exchange(a), Step::Exchange(b)) => a == b,
            (Step::Write(a), Step::Write(b)) => a == b,
            (Step::Pause, Step::Pause) => true,
            _ => false,
        },
{
    match s {
        Step::Exchange(r) => Step::Exchange(r),
        Step::Write(b) => Step::Write(b),
        Step::Pause => Step::Pause,
        Step::Done(_) => Step::Pause,
    }
}

/// Where the common two-exchange operation stands: resolve `feature_id`, then call `function`
/// with `params`.
pub ghost enum Call {
    Ask { idx: u8, feature: u8, function: u8, params: Seq<u8> },
    Fail(Error),
    Reply(Seq<u8>),
}

pub open spec fn call(idx: u8, feature_id: u16, function: u8, params: Seq<u8>, h: Seq<Reply>) -> Call {
    if h.len() == 0 {
        Call::Ask {
            idx,
            feature: 0,
            function: 0,
            params: seq![(feature_id / 256) as u8, (feature_id % 256) as u8],
        }
    } else {
        match feature_index(h[0]) {
            Err(e) => Call::Fail(e),
            Ok(f) => if h.len() == 1 {
                Call::Ask { idx, feature: f, function, params }
            } else {
                match h[1] {
                    Err(e) => Call::Fail(e),
                    Ok(b) => Call::Reply(b@),
                }
            },
        }
    }
}

/// The plan of an operation that is one feature call whose reply `parse` reads.
pub open spec fn call_plan<V>(c: Call, parse: spec_fn(Seq<u8>) -> Result<V, Error>) -> Plan<V> {
    match c {
        Call::Ask { idx, feature, function, params } => ask(idx, feature, function, params),
        Call::Fail(e) => fail(e),
        Call::Reply(b) => Plan::Finish(parse(b)),
    }
}

pub enum CallOutcome {
    Ask(Request),
    Fail(Error),
    Reply(Vec<u8>),
}

pub open spec fn call_follows(o: CallOutcome, c: Call) -> bool {
    match (o, c) {
        (CallOutcome::Ask(r), Call::Ask { idx, feature, function, params }) => r.idx == idx
            && r.feature == feature && r.function == function && r.params@ == params,
        (CallOutcome::Fail(e), Call::Fail(f)) => e == f,
        (CallOutcome::Reply(b), Call::Reply(c)) => b@ == c,
        _ => false,
    }
}

fn request_of(idx: u8, feature: u8, function: u8, params: &[u8]) -> (r: Request)
    ensures
        r.idx == idx && r.feature == feature && r.function == function && r.params@ == params@,
{
    match request::<()>(idx, feature, function, params) {
        Step::Exchange(r) => r,
        _ => Request { idx, feature, function, params: Vec::new() },
    }
}

/// Where a one-call operation stands after the replies `h`.
pub fn feature_call_step(idx: u8, feature_id: u16, function: u8, params: &[u8], h: &Vec<Reply>) -> (o:
    CallOutcome)
    ensures
        call_follows(o, call(idx, feature_id, function, params@, h@)),
        params.len() == 0 ==> call_follows(o, call(idx, feature_id, function, Seq::empty(), h@)),
{
    assert(h@.skip(0) =~= h@);
    feature_call_step_at(idx, feature_id, function, params, h, 0)
}

/// Where a one-call operation stands after the replies of `h` from position `from` on.
pub fn feature_call_step_at(
    idx: u8,
    feature_id: u16,
    function: u8,
    params: &[u8],
    h: &Vec<Reply>,
    from: usize,
) -> (o: CallOutcome)
    requires
        from <= h.len(),
    ensures
        call_follows(o, call(idx, feature_id, function, params@, h@.skip(from as int))),
        params.len() == 0 ==> call_follows(
            o,
            call(idx, feature_id, function, Seq::empty(), h@.skip(from as int)),
        ),
{
    assert(params.len() == 0 ==> params@ =~= Seq::<u8>::empty());
    let ghost t = h@.skip(from as int);
    if h.len() == from {
        let hi = (feature_id / 256) as u8;
        let lo = (feature_id % 256) as u8;
        let r = request_of(idx, 0, 0, &[hi, lo]);
        assert(r.params@ =~= seq![(feature_id / 256) as u8, (feature_id % 256) as u8]);
        return CallOutcome::Ask(r);
    }
    assert(t[0] == h@[from as int]);
    match feature_index_of(&h[from]) {
        Err(e) => CallOutcome::Fail(e),
        Ok(f) => {
            if h.len() == from + 1 {
                CallOutcome::Ask(request_of(idx, f, function, params))
            } else {
                assert(t[1] == h@[from + 1]);
                match &h[from + 1] {
                    Err(e) => CallOutcome::Fail(e.duplicate()),
                    Ok(b) => CallOutcome::Reply(reply_bytes(b)),
                }
            }
        },
    }
}

} // verus!

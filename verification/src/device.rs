//! Shared HID++ transport logic and device discovery.
//!
//! Bolt uses seven-byte short reports addressed through the receiver. A directly connected
//! Bluetooth MX Master 4 uses twenty-byte long reports and device index zero. Every exchange with a
//! device is decided here and carried out by the caller: a decision procedure takes what the device
//! answered so far and says what to send next ([`Step`]), or what the operation produced.

use vstd::prelude::*;

use crate::error::{Error, Msg, UnexpectedReply};
use crate::exchange::{ask, follows, Plan, Reply, Step};

verus! {

pub const VID: u16 = 0x046d;
pub const BOLT_RECEIVER_PID: u16 = 0xc548;
pub const MX_MASTER_4_BT_PID: u16 = 0xb042;
pub const BOLT_HIDPP_PAGE: u16 = 0xff00;
pub const BT_HIDPP_PAGE: u16 = 0xff43;
pub const BT_DIRECT_INDEX: u8 = 0x00;

pub const SHORT: u8 = 0x10;
pub const LONG: u8 = 0x11;
// Older mx4 daemons use ID 1 and do not take the transport lock. Keep their replies separate while
// serializing current clients, which all use ID 2.
pub const SW_ID: u8 = 0x02;
pub const HIDPP_ERROR: u8 = 0x8f;
pub const HIDPP20_ERROR: u8 = 0xff;

/// How many reads a request waits for its reply.
pub const REPLY_READS: u8 = 100;

/// An error reply from the device, with the report that carried it and its error code.
#[derive(Clone, Copy, Debug, PartialEq, Eq)]
pub struct ProtocolError {
    pub report: u8,
    pub code: u8,
}

/// The name of a HID++ error code: HID++ 2.0 codes for the 0xff report, HID++ 1.0 codes otherwise.
pub open spec fn hidpp_error_name_text(error_type: u8, code: u8) -> Seq<char> {
    if error_type == HIDPP20_ERROR {
        if code == 0x00 {
            "no error"@
        } else if code == 0x01 {
            "unknown error"@
        } else if code == 0x02 {
            "invalid arguments"@
        } else if code == 0x03 {
            "out of range"@
        } else if code == 0x04 {
            "hardware error"@
        } else if code == 0x05 {
            "not allowed"@
        } else if code == 0x06 {
            "invalid feature index"@
        } else if code == 0x07 {
            "invalid function id"@
        } else if code == 0x08 {
            "busy"@
        } else if code == 0x09 {
            "unsupported"@
        } else {
            "unknown error"@
        }
    } else {
        if code == 0x00 {
            "no error"@
        } else if code == 0x01 {
            "unknown error"@
        } else if code == 0x02 {
            "invalid sub-id"@
        } else if code == 0x03 {
            "invalid address"@
        } else if code == 0x04 {
            "invalid value"@
        } else if code == 0x05 {
            "connection failed"@
        } else if code == 0x06 {
            "too many devices"@
        } else if code == 0x07 {
            "already exists"@
        } else if code == 0x08 {
            "busy"@
        } else if code == 0x09 {
            "unknown device"@
        } else if code == 0x0a {
            "resource error"@
        } else if code == 0x0b {
            "request unavailable"@
        } else if code == 0x0c {
            "wrong pin code"@
        } else {
            "unknown error"@
        }
    }
}

pub fn hidpp_error_name(error_type: u8, code: u8) -> (s: &'static str)
    ensures
        s@ == hidpp_error_name_text(error_type, code),
{
    if error_type == HIDPP20_ERROR {
        match code {
            0x00 => "no error",
            0x01 => "unknown error",
            0x02 => "invalid arguments",
            0x03 => "out of range",
            0x04 => "hardware error",
            0x05 => "not allowed",
            0x06 => "invalid feature index",
            0x07 => "invalid function id",
            0x08 => "busy",
            0x09 => "unsupported",
            _ => "unknown error",
        }
    } else {
        match code {
            0x00 => "no error",
            0x01 => "unknown error",
            0x02 => "invalid sub-id",
            0x03 => "invalid address",
            0x04 => "invalid value",
            0x05 => "connection failed",
            0x06 => "too many devices",
            0x07 => "already exists",
            0x08 => "busy",
            0x09 => "unknown device",
            0x0a => "resource error",
            0x0b => "request unavailable",
            0x0c => "wrong pin code",
            _ => "unknown error",
        }
    }
}

/// The function/software-ID byte of a request: the function in the high nibble (only its low four
/// bits survive the shift), our software ID in the low nibble.
pub open spec fn function_byte(function: u8) -> u8 {
    ((function as nat % 16) * 16 + SW_ID as nat) as u8
}

pub fn function_byte_of(function: u8) -> (b: u8)
    ensures
        b == function_byte(function),
{
    let b = (function << 4u8) | SW_ID;
    assert(((function << 4u8) | 2u8) == ((function % 16) * 16 + 2) as u8) by (bit_vector);
    b
}

/// The seven-byte short request for a feature function with up to three parameter bytes.
pub open spec fn request_bytes(idx: u8, feature: u8, function: u8, params: Seq<u8>) -> Seq<u8> {
    seq![SHORT, idx, feature, function_byte(function)] + params + Seq::new(
        (3 - params.len()) as nat,
        |i: int| 0u8,
    )
}

pub fn request_packet(idx: u8, feature: u8, function: u8, params: &[u8]) -> (r: Result<
    [u8; 7],
    Error,
>)
    ensures
        (function > 0x0f || params.len() > 3) ==> r == Err::<[u8; 7], Error>(
            Error::Message(Msg::InvalidShortRequest),
        ),
        (function <= 0x0f && params.len() <= 3) ==> (r matches Ok(p) && p@ == request_bytes(
            idx,
            feature,
            function,
            params@,
        )),
{
    if function > 0x0f || params.len() > 3 {
        return Err(Error::Message(Msg::InvalidShortRequest));
    }
    let p0 = if params.len() > 0 {
        params[0]
    } else {
        0
    };
    let p1 = if params.len() > 1 {
        params[1]
    } else {
        0
    };
    let p2 = if params.len() > 2 {
        params[2]
    } else {
        0
    };
    let pkt = [SHORT, idx, feature, function_byte_of(function), p0, p1, p2];
    assert(pkt@ =~= request_bytes(idx, feature, function, params@));
    Ok(pkt)
}

/// What goes on the wire: short reports unchanged; for long reports the common header and payload
/// of the packet, with the report ID replaced and the rest of the twenty bytes zero.
pub open spec fn wire_bytes(report_id: u8, pkt: Seq<u8>) -> Seq<u8> {
    if report_id != LONG {
        pkt
    } else {
        Seq::new(
            20,
            |i: int|
                if i == 0 {
                    LONG
                } else if i < pkt.len() {
                    pkt[i]
                } else {
                    0u8
                },
        )
    }
}

pub fn wire_packet(report_id: u8, pkt: &[u8]) -> (w: Vec<u8>)
    ensures
        w@ == wire_bytes(report_id, pkt@),
{
    let mut w: Vec<u8> = Vec::new();
    if report_id != LONG {
        let mut i: usize = 0;
        while i < pkt.len()
            invariant
                i <= pkt.len(),
                w@ == pkt@.take(i as int),
            decreases pkt.len() - i,
        {
            w.push(pkt[i]);
            i = i + 1;
            assert(w@ =~= pkt@.take(i as int));
        }
        assert(pkt@.take(pkt.len() as int) =~= pkt@);
        return w;
    }
    // Bluetooth accepts only the long report shape even when a feature needs three parameters or
    // fewer. Preserve the common header and zero-fill the unused payload.
    let mut i: usize = 0;
    while i < 20
        invariant
            i <= 20,
            w@.len() == i,
            forall|j: int| 0 <= j < i ==> w@[j] == wire_bytes(LONG, pkt@)[j],
        decreases 20 - i,
    {
        let b = if i == 0 {
            LONG
        } else if i < pkt.len() {
            pkt[i]
        } else {
            0
        };
        w.push(b);
        i = i + 1;
    }
    assert(w@ =~= wire_bytes(report_id, pkt@));
    w
}

/// How a received report relates to the request being awaited.
#[derive(Debug)]
pub enum ReplyMatch {
    /// The reply to the request.
    Matched,
    /// The device's error reply to the request.
    Rejected(ProtocolError),
    /// Our reply to a different feature or function.
    Unexpected(UnexpectedReply),
    /// Unrelated traffic.
    Ignore,
}

pub open spec fn classify(reply: Seq<u8>, idx: u8, feature: u8, function: u8) -> ReplyMatch {
    if reply.len() < 7 {
        ReplyMatch::Ignore
    } else if reply[0] != SHORT && reply[0] != LONG {
        ReplyMatch::Ignore
    } else if reply[1] != idx {
        ReplyMatch::Ignore
    } else if reply[2] == HIDPP_ERROR || reply[2] == HIDPP20_ERROR {
        // Error replies move the original feature and function/software ID into bytes three and
        // four; both must match before the error is attributed to this request.
        if reply[3] != feature || reply[4] != function_byte(function) {
            ReplyMatch::Ignore
        } else {
            ReplyMatch::Rejected(ProtocolError { report: reply[2], code: reply[5] })
        }
    } else if reply[3] % 16 != SW_ID {
        // The software ID distinguishes our synchronous response from traffic generated by
        // another HID++ client using the same endpoint.
        ReplyMatch::Ignore
    } else if reply[2] == feature && reply[3] / 16 == function {
        ReplyMatch::Matched
    } else {
        ReplyMatch::Unexpected(
            UnexpectedReply {
                feature,
                function,
                got_feature: reply[2],
                got_function: reply[3] / 16,
            },
        )
    }
}

pub fn classify_reply(reply: &[u8], idx: u8, feature: u8, function: u8) -> (r: Result<
    ReplyMatch,
    Error,
>)
    ensures
        r == Ok::<ReplyMatch, Error>(classify(reply@, idx, feature, function)),
{
    if reply.len() < 7 {
        return Ok(ReplyMatch::Ignore);
    }
    if reply[0] != SHORT && reply[0] != LONG {
        return Ok(ReplyMatch::Ignore);
    }
    if reply[1] != idx {
        return Ok(ReplyMatch::Ignore);
    }
    if reply[2] == HIDPP_ERROR || reply[2] == HIDPP20_ERROR {
        if reply[3] != feature || reply[4] != function_byte_of(function) {
            return Ok(ReplyMatch::Ignore);
        }
        return Ok(ReplyMatch::Rejected(ProtocolError { report: reply[2], code: reply[5] }));
    }
    let header = reply[3];
    assert(header & 0x0f == header % 16) by (bit_vector);
    assert(header >> 4u8 == header / 16) by (bit_vector);
    if header & 0x0f != SW_ID {
        return Ok(ReplyMatch::Ignore);
    }
    if reply[2] == feature && header >> 4 == function {
        return Ok(ReplyMatch::Matched);
    }
    Ok(
        ReplyMatch::Unexpected(
            UnexpectedReply {
                feature,
                function,
                got_feature: reply[2],
                got_function: header >> 4,
            },
        ),
    )
}

/// A reply that echoes the header of a well-formed request is that request's reply.
pub proof fn lemma_echo_matches(
    idx: u8,
    feature: u8,
    function: u8,
    params: Seq<u8>,
    reply: Seq<u8>,
)
    requires
        function <= 0x0f,
        params.len() <= 3,
        reply.len() >= 7,
        reply[0] == SHORT || reply[0] == LONG,
        feature != HIDPP_ERROR && feature != HIDPP20_ERROR,
        reply.subrange(1, 4) == request_bytes(idx, feature, function, params).subrange(1, 4),
    ensures
        classify(reply, idx, feature, function) == ReplyMatch::Matched,
{
    let req = request_bytes(idx, feature, function, params);
    assert(reply[1] == reply.subrange(1, 4)[0] && req[1] == req.subrange(1, 4)[0]);
    assert(reply[2] == reply.subrange(1, 4)[1] && req[2] == req.subrange(1, 4)[1]);
    assert(reply[3] == reply.subrange(1, 4)[2] && req[3] == req.subrange(1, 4)[2]);
    assert(reply[1] == idx);
    assert(reply[2] == feature);
    assert(reply[3] == function_byte(function));
    let b = reply[3];
    assert(b == ((function as nat % 16) * 16 + 2) as u8);
    assert(b % 16 == SW_ID);
    assert(b / 16 == function);
}

/// Whether an error says that the receiver slot holds no reachable device.
pub open spec fn absent_slot(err: Error) -> bool {
    ||| err is Timeout
    ||| err == Error::Protocol(ProtocolError { report: HIDPP_ERROR, code: 0x09 })
}

pub fn is_absent_slot(err: &Error) -> (r: bool)
    ensures
        r == absent_slot(*err),
{
    match err {
        Error::Timeout => true,
        // Bolt's unknown-device reply.
        Error::Protocol(p) => p.report == HIDPP_ERROR && p.code == 0x09,
        _ => false,
    }
}

/// Whether an error is a local lock/filesystem failure or a HID failure, which trying another
/// receiver slot cannot fix.
pub open spec fn transport_failure(err: Error) -> bool {
    err is Io || err is Hid
}

pub open spec fn transport_flag(k: nat) -> u8 {
    if k == 0 {
        0x01
    } else if k == 1 {
        0x02
    } else if k == 2 {
        0x04
    } else {
        0x08
    }
}

/// Walks the transport flags from `k` on, with `used` model IDs of the table already consumed.
/// Each set flag owns the next big-endian model ID; the Bluetooth flags (the first two) identify
/// the hardware.
pub open spec fn model_scan(reply: Seq<u8>, transports: u8, k: nat, used: nat) -> Result<
    bool,
    Error,
>
    decreases 4 - k,
{
    if k >= 4 {
        Ok(false)
    } else if transports & transport_flag(k) != 0 {
        if used >= 3 {
            Err(Error::Message(Msg::InvalidModelTable))
        } else if k <= 1 && reply[11 + 2 * used as int] as nat * 256 + reply[12 + 2 * used as int] as nat
            == MX_MASTER_4_BT_PID as nat {
            Ok(true)
        } else {
            model_scan(reply, transports, k + 1, used + 1)
        }
    } else {
        model_scan(reply, transports, k + 1, used)
    }
}

/// Whether a DEVICE_FW_VERSION information reply names the MX Master 4 in its model ID table.
pub open spec fn mx4_model(reply: Seq<u8>) -> Result<bool, Error> {
    if reply.len() <= 10 {
        Err(Error::Message(Msg::ShortDeviceInfo))
    } else if reply.len() < 17 {
        Err(Error::Message(Msg::ShortModelTable))
    } else {
        model_scan(reply, reply[10], 0, 0)
    }
}

pub fn is_mx4_model(reply: &[u8]) -> (r: Result<bool, Error>)
    ensures
        r == mx4_model(reply@),
{
    if reply.len() <= 10 {
        return Err(Error::Message(Msg::ShortDeviceInfo));
    }
    let transports = reply[10];
    if reply.len() < 17 {
        return Err(Error::Message(Msg::ShortModelTable));
    }
    let flags: [u8; 4] = [0x01, 0x02, 0x04, 0x08];
    let mut k: usize = 0;
    let mut used: usize = 0;
    while k < 4
        invariant
            k <= 4,
            used <= k,
            reply@.len() >= 17,
            transports == reply@[10],
            flags@ == seq![0x01u8, 0x02u8, 0x04u8, 0x08u8],
            mx4_model(reply@) == model_scan(reply@, transports, k as nat, used as nat),
        decreases 4 - k,
    {
        let flag = flags[k];
        assert(flag == transport_flag(k as nat));
        if transports & flag != 0 {
            if used >= 3 {
                return Err(Error::Message(Msg::InvalidModelTable));
            }
            let id = reply[11 + 2 * used] as u16 * 256 + reply[12 + 2 * used] as u16;
            if k <= 1 && id == MX_MASTER_4_BT_PID {
                return Ok(true);
            }
            used = used + 1;
        }
        k = k + 1;
    }
    Ok(false)
}

/// What the library learns of an enumerated HID interface.
pub struct DeviceDescriptor {
    pub vendor_id: u16,
    pub product_id: u16,
    pub usage_page: u16,
    pub bluetooth: bool,
    /// The platform path of the HID node, as bytes.
    pub path: Vec<u8>,
}

pub open spec fn bluetooth_mx4(d: DeviceDescriptor) -> bool {
    d.vendor_id == VID && d.product_id == MX_MASTER_4_BT_PID && d.bluetooth
}

pub open spec fn bluetooth_hidpp(d: DeviceDescriptor) -> bool {
    bluetooth_mx4(d) && d.usage_page == BT_HIDPP_PAGE
}

pub open spec fn bolt_hidpp(d: DeviceDescriptor) -> bool {
    d.vendor_id == VID && d.product_id == BOLT_RECEIVER_PID && d.usage_page == BOLT_HIDPP_PAGE
}

pub fn is_bluetooth_mx4(d: &DeviceDescriptor) -> (r: bool)
    ensures
        r == bluetooth_mx4(*d),
{
    d.vendor_id == VID && d.product_id == MX_MASTER_4_BT_PID && d.bluetooth
}

pub fn is_bluetooth_hidpp(d: &DeviceDescriptor) -> (r: bool)
    ensures
        r == bluetooth_hidpp(*d),
{
    is_bluetooth_mx4(d) && d.usage_page == BT_HIDPP_PAGE
}

pub fn is_bolt_hidpp(d: &DeviceDescriptor) -> (r: bool)
    ensures
        r == bolt_hidpp(*d),
{
    d.vendor_id == VID && d.product_id == BOLT_RECEIVER_PID && d.usage_page == BOLT_HIDPP_PAGE
}

/// The report ID for an opened device: long reports for the Bluetooth mouse, short otherwise
/// (also when the device's information could not be read).
pub fn report_id(info: &Option<DeviceDescriptor>) -> (r: u8)
    ensures
        r == (if info matches Some(d) && bluetooth_mx4(*d) {
            LONG
        } else {
            SHORT
        }),
{
    match info {
        Some(d) if is_bluetooth_mx4(d) => LONG,
        _ => SHORT,
    }
}


/// Where a receiver-slot scan stands.
pub enum ScanPhase {
    /// Asking the slot's device for its DEVICE_FW_VERSION feature index.
    Lookup,
    /// Asking for the device information through that feature index.
    Model(u8),
}

/// The scan of the Bolt receiver's pairing slots for the MX Master 4.
pub struct BoltScan {
    pub slot: u8,
    pub phase: ScanPhase,
    /// The first failure that was neither an empty slot nor a transport failure.
    pub first_error: Option<Error>,
    pub outcome: Option<Result<u8, Error>>,
}

/// The highest pairing slot of a Bolt receiver.
pub const LAST_SLOT: u8 = 7;

pub open spec fn scan_start() -> BoltScan {
    BoltScan { slot: 1, phase: ScanPhase::Lookup, first_error: None, outcome: None }
}

/// Moves past the current slot after it did not identify the mouse, because of `failure` or
/// (when `None`) because it holds another device.
pub open spec fn scan_skip(st: BoltScan, failure: Option<Error>) -> BoltScan {
    if failure matches Some(e) && !absent_slot(e) && transport_failure(e) {
        BoltScan { outcome: Some(Err(failure->0)), ..st }
    } else {
        let first = if failure matches Some(e) && !absent_slot(e) && st.first_error is None {
            failure
        } else {
            st.first_error
        };
        if st.slot >= LAST_SLOT {
            BoltScan {
                first_error: first,
                outcome: Some(
                    Err(
                        match first {
                            Some(e) => e,
                            None => Error::Message(Msg::NoBoltMouse),
                        },
                    ),
                ),
                ..st
            }
        } else {
            BoltScan {
                slot: (st.slot + 1) as u8,
                phase: ScanPhase::Lookup,
                first_error: first,
                outcome: None,
            }
        }
    }
}

pub open spec fn scan_next(st: BoltScan, r: Reply) -> BoltScan {
    if st.outcome is Some {
        st
    } else {
        match st.phase {
            ScanPhase::Lookup => match r {
                Err(e) => scan_skip(st, Some(e)),
                Ok(b) => if b@.len() <= 4 {
                    scan_skip(st, Some(Error::Message(Msg::ShortLookupReply)))
                } else if b@[4] == 0 {
                    scan_skip(st, None)
                } else {
                    BoltScan { phase: ScanPhase::Model(b@[4]), ..st }
                },
            },
            ScanPhase::Model(_) => match r {
                Err(e) => scan_skip(st, Some(e)),
                Ok(b) => match mx4_model(b@) {
                    Ok(true) => BoltScan { outcome: Some(Ok(st.slot)), ..st },
                    Ok(false) => scan_skip(st, None),
                    Err(e) => scan_skip(st, Some(e)),
                },
            },
        }
    }
}

/// The scan after the given replies.
pub open spec fn scan_fold(h: Seq<Reply>) -> BoltScan
    decreases h.len(),
{
    if h.len() == 0 {
        scan_start()
    } else {
        scan_next(scan_fold(h.drop_last()), h.last())
    }
}

pub open spec fn scan_plan(st: BoltScan) -> Plan<u8> {
    match st.outcome {
        Some(r) => Plan::Finish(r),
        None => match st.phase {
            // DEVICE_FW_VERSION (0x0003) identifies the hardware even over Bolt.
            ScanPhase::Lookup => ask(st.slot, 0, 0, seq![0u8, 3u8]),
            ScanPhase::Model(f) => ask(st.slot, f, 0, Seq::empty()),
        },
    }
}

fn scan_skip_exec(st: BoltScan, failure: Option<Error>) -> (n: BoltScan)
    ensures
        n == scan_skip(st, failure),
{
    let fatal = match &failure {
        Some(e) => !is_absent_slot(e) && matches!(e, Error::Io(..) | Error::Hid(_)),
        None => false,
    };
    if fatal {
        return BoltScan { outcome: Some(Err(failure.unwrap())), ..st };
    }
    let keep = match &failure {
        Some(e) => !is_absent_slot(e) && st.first_error.is_none(),
        None => false,
    };
    let first = if keep {
        failure
    } else {
        st.first_error
    };
    if st.slot >= LAST_SLOT {
        let e = match &first {
            Some(e) => e.duplicate(),
            None => Error::Message(Msg::NoBoltMouse),
        };
        BoltScan { first_error: first, outcome: Some(Err(e)), ..st }
    } else {
        BoltScan { slot: st.slot + 1, phase: ScanPhase::Lookup, first_error: first, outcome: None }
    }
}

fn scan_next_exec(st: BoltScan, r: &Reply) -> (n: BoltScan)
    ensures
        n == scan_next(st, *r),
{
    if st.outcome.is_some() {
        return st;
    }
    match st.phase {
        ScanPhase::Lookup => match r {
            Err(e) => scan_skip_exec(st, Some(e.duplicate())),
            Ok(b) => {
                if b.len() <= 4 {
                    scan_skip_exec(st, Some(Error::Message(Msg::ShortLookupReply)))
                } else if b[4] == 0 {
                    scan_skip_exec(st, None)
                } else {
                    BoltScan { phase: ScanPhase::Model(b[4]), ..st }
                }
            },
        },
        ScanPhase::Model(_) => match r {
            Err(e) => scan_skip_exec(st, Some(e.duplicate())),
            Ok(b) => match is_mx4_model(b.as_slice()) {
                Ok(true) => {
                    let slot = st.slot;
                    BoltScan { outcome: Some(Ok(slot)), ..st }
                },
                Ok(false) => scan_skip_exec(st, None),
                Err(e) => scan_skip_exec(st, Some(e)),
            },
        },
    }
}

/// The next step of the receiver-slot scan: slots 1 to 7 in order, each asked for its device's
/// model table; empty or timed-out slots are skipped, a lock or HID failure ends the scan with
/// that failure, and when no slot holds the MX Master 4 the first other failure is reported.
pub fn find_bolt_mouse(h: &Vec<Reply>) -> (s: Step<u8>)
    ensures
        follows(s, scan_plan(scan_fold(h@))),
{
    let mut st = BoltScan { slot: 1, phase: ScanPhase::Lookup, first_error: None, outcome: None };
    let mut i: usize = 0;
    while i < h.len()
        invariant
            i <= h.len(),
            st == scan_fold(h@.take(i as int)),
        decreases h.len() - i,
    {
        proof {
            assert(h@.take(i + 1).drop_last() =~= h@.take(i as int));
        }
        st = scan_next_exec(st, &h[i]);
        i = i + 1;
    }
    assert(h@.take(h.len() as int) =~= h@);
    match st.outcome {
        Some(Ok(slot)) => Step::Done(Ok(slot)),
        Some(Err(e)) => Step::Done(Err(e)),
        None => match st.phase {
            ScanPhase::Lookup => {
                let params: [u8; 2] = [0, 3];
                assert(params@ =~= seq![0u8, 3u8]);
                crate::exchange::request(st.slot, 0, 0, &params)
            },
            ScanPhase::Model(f) => {
                let params: [u8; 0] = [];
                assert(params@ =~= Seq::<u8>::empty());
                crate::exchange::request(st.slot, f, 0, &params)
            },
        },
    }
}

/// How many replies a scan has consumed at most while it is still running: two per finished slot,
/// plus one when the current slot's feature index is known.
pub open spec fn scan_progress(st: BoltScan) -> int {
    2 * (st.slot - 1) + if st.phase is Model {
        1int
    } else {
        0int
    }
}

proof fn lemma_scan_invariant(h: Seq<Reply>)
    ensures
        1 <= scan_fold(h).slot <= LAST_SLOT,
        scan_fold(h).outcome matches Some(Ok(i)) ==> 1 <= i <= LAST_SLOT,
        scan_fold(h).outcome is None ==> h.len() <= scan_progress(scan_fold(h)),
    decreases h.len(),
{
    if h.len() > 0 {
        lemma_scan_invariant(h.drop_last());
    }
}

/// A scan never asks more than fourteen requests: after fourteen replies it is over, and a slot
/// it reports is one of the receiver's seven pairing slots.
pub proof fn lemma_scan_bounded(h: Seq<Reply>)
    ensures
        h.len() >= 2 * LAST_SLOT ==> scan_fold(h).outcome is Some,
        scan_fold(h).outcome matches Some(Ok(i)) ==> 1 <= i <= LAST_SLOT,
{
    lemma_scan_invariant(h);
}

/// What choosing a transport found among the enumerated HID interfaces.
pub enum Discovery {
    /// The directly connected Bluetooth mouse (the interface at this position); it is preferred.
    Bluetooth(usize),
    /// The Bolt receivers' HID++ interfaces to try in order, one per HID node.
    Bolt(Vec<usize>),
}

/// Whether the interface at `i` is a Bolt HID++ interface whose node no earlier one shares.
pub open spec fn new_bolt_node(d: Seq<DeviceDescriptor>, i: int) -> bool {
    &&& bolt_hidpp(d[i])
    &&& forall|j: int| 0 <= j < i && bolt_hidpp(d[j]) ==> d[j].path@ != d[i].path@
}

/// The positions among the first `n` interfaces that `new_bolt_node` selects, in order.
pub open spec fn bolt_nodes(d: Seq<DeviceDescriptor>, n: int) -> Seq<usize>
    decreases n,
{
    if n <= 0 {
        Seq::empty()
    } else if new_bolt_node(d, n - 1) {
        bolt_nodes(d, n - 1).push((n - 1) as usize)
    } else {
        bolt_nodes(d, n - 1)
    }
}

pub open spec fn discovery_of(d: Seq<DeviceDescriptor>, r: Discovery) -> bool {
    match r {
        Discovery::Bluetooth(i) => 0 <= i < d.len() && bluetooth_hidpp(d[i as int]) && forall|
            j: int,
        |
            0 <= j < i ==> !bluetooth_hidpp(#[trigger] d[j]),
        Discovery::Bolt(c) => (forall|j: int| 0 <= j < d.len() ==> !bluetooth_hidpp(#[trigger] d[j]))
            && c@ == bolt_nodes(d, d.len() as int),
    }
}

fn same_path(a: &Vec<u8>, b: &Vec<u8>) -> (r: bool)
    ensures
        r == (a@ == b@),
{
    if a.len() != b.len() {
        return false;
    }
    let mut i: usize = 0;
    while i < a.len()
        invariant
            i <= a.len(),
            a.len() == b.len(),
            forall|j: int| 0 <= j < i ==> a@[j] == b@[j],
        decreases a.len() - i,
    {
        if a[i] != b[i] {
            return false;
        }
        i = i + 1;
    }
    assert(a@ =~= b@);
    true
}

/// Chooses how to reach the mouse: the first Bluetooth HID++ interface of the MX Master 4, or else
/// every Bolt receiver HID++ interface, skipping repeated enumerations of the same HID node.
pub fn discover(devices: &Vec<DeviceDescriptor>) -> (r: Discovery)
    ensures
        discovery_of(devices@, r),
{
    let n = devices.len();
    let mut i: usize = 0;
    while i < n
        invariant
            i <= n,
            n == devices@.len(),
            forall|j: int| 0 <= j < i ==> !bluetooth_hidpp(#[trigger] devices@[j]),
        decreases n - i,
    {
        if is_bluetooth_hidpp(&devices[i]) {
            return Discovery::Bluetooth(i);
        }
        i = i + 1;
    }
    let mut c: Vec<usize> = Vec::new();
    let mut k: usize = 0;
    while k < n
        invariant
            k <= n,
            n == devices@.len(),
            c@ == bolt_nodes(devices@, k as int),
        decreases n - k,
    {
        let mut fresh = is_bolt_hidpp(&devices[k]);
        if fresh {
            let mut j: usize = 0;
            while j < k
                invariant
                    j <= k < n,
                    n == devices@.len(),
                    fresh ==> bolt_hidpp(devices@[k as int]),
                    fresh == (bolt_hidpp(devices@[k as int]) && forall|m: int|
                        0 <= m < j && bolt_hidpp(devices@[m]) ==> devices@[m].path@
                            != devices@[k as int].path@),
                decreases k - j,
            {
                if is_bolt_hidpp(&devices[j]) && same_path(&devices[j].path, &devices[k].path) {
                    fresh = false;
                }
                j = j + 1;
            }
        }
        if fresh {
            c.push(k);
        }
        k = k + 1;
    }
    Discovery::Bolt(c)
}

/// What to do next while opening the mouse through a Bolt receiver.
pub enum OpenStep {
    /// Open the candidate at this position and scan its slots; report the outcome.
    Try(usize),
    /// Opening is over: the candidate position and the mouse's slot, or why it failed.
    Done(Result<(usize, u8), Error>),
}

pub ghost enum OpenPlan {
    Try(nat),
    Done(Result<(nat, u8), Error>),
}

/// Candidates are tried in order from position `k`; the first identified mouse wins, a local
/// filesystem failure ends the search, and otherwise the last failure is reported.
pub open spec fn open_from(
    candidates: nat,
    o: Seq<Result<u8, Error>>,
    k: nat,
    last: Option<Error>,
) -> OpenPlan
    decreases candidates - k,
{
    if k >= candidates {
        OpenPlan::Done(
            Err(
                match last {
                    Some(e) => e,
                    None => Error::Message(Msg::NoDevice),
                },
            ),
        )
    } else if k >= o.len() {
        OpenPlan::Try(k)
    } else {
        match o[k as int] {
            Ok(i) => OpenPlan::Done(Ok((k, i))),
            Err(e) => if e is Io {
                OpenPlan::Done(Err(e))
            } else {
                open_from(candidates, o, k + 1, Some(e))
            },
        }
    }
}

pub open spec fn open_follows(s: OpenStep, p: OpenPlan) -> bool {
    match (s, p) {
        (OpenStep::Try(i), OpenPlan::Try(j)) => i == j,
        (OpenStep::Done(Ok((c, i))), OpenPlan::Done(Ok((d, j)))) => c == d && i == j,
        (OpenStep::Done(Err(e)), OpenPlan::Done(Err(f))) => e == f,
        _ => false,
    }
}

/// The next step of opening the mouse through `candidates` receivers, given the outcome of each
/// candidate tried so far.
pub fn open_step(candidates: usize, outcomes: &Vec<Result<u8, Error>>) -> (s: OpenStep)
    ensures
        open_follows(s, open_from(candidates as nat, outcomes@, 0, None)),
{
    let mut last: Option<Error> = None;
    let mut k: usize = 0;
    while k < candidates
        invariant
            open_from(candidates as nat, outcomes@, 0, None) == open_from(
                candidates as nat,
                outcomes@,
                k as nat,
                last,
            ),
        decreases candidates - k,
    {
        if k >= outcomes.len() {
            return OpenStep::Try(k);
        }
        match &outcomes[k] {
            Ok(i) => {
                return OpenStep::Done(Ok((k, *i)));
            },
            Err(e) => {
                if matches!(e, Error::Io(..)) {
                    return OpenStep::Done(Err(e.duplicate()));
                }
                last = Some(e.duplicate());
            },
        }
        k = k + 1;
    }
    match last {
        Some(e) => OpenStep::Done(Err(e)),
        None => OpenStep::Done(Err(Error::Message(Msg::NoDevice))),
    }
}

} // verus!

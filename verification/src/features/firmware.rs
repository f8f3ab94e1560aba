//! Firmware information for both halves of an MX Master 4 setup.
//!
//! The mouse exposes a discoverable HID++ 2.0 feature, regardless of whether it is connected over
//! Bluetooth or Bolt. The Bolt receiver is a separate HID++ 1.0 device with an indexed firmware
//! table, so it is opened and queried independently.

use vstd::prelude::*;

use crate::device::{HIDPP_ERROR, REPLY_READS, SHORT};
use crate::error::{Error, Msg};
use crate::exchange::{
    ask, fail, feature_index, feature_index_of, follows, lookup, lookup_step, request, Plan, Reply,
    Step,
};
use crate::text::{
    chars_of, dec, hex2_upper, hex4_lower, hex4_upper, push_char, push_dec, push_hex2_upper,
    push_hex4_lower, push_hex4_upper, push_str,
};

verus! {

pub const DEVICE_FW_VERSION: u16 = 0x0003;
pub const RECEIVER_INDEX: u8 = 0xff;
pub const GET_LONG_REGISTER: u8 = 0x83;
pub const RECEIVER_FW_INFORMATION: u8 = 0xf4;
/// Bolt's firmware register has no entity count; current receivers expose the first three slots.
pub const RECEIVER_ENTITIES: u8 = 3;

/// The role of one firmware entity reported by the mouse or receiver.
#[derive(Clone, Copy, Debug, PartialEq, Eq, Structural)]
pub enum FirmwareKind {
    Firmware,
    Bootloader,
    Hardware,
    Other,
}

pub open spec fn kind_name(kind: FirmwareKind) -> Seq<char> {
    match kind {
        FirmwareKind::Firmware => "firmware"@,
        FirmwareKind::Bootloader => "bootloader"@,
        FirmwareKind::Hardware => "hardware"@,
        FirmwareKind::Other => "other"@,
    }
}

pub open spec fn kind_label(kind: FirmwareKind) -> Seq<char> {
    match kind {
        FirmwareKind::Firmware => "Firmware"@,
        FirmwareKind::Bootloader => "Bootloader"@,
        FirmwareKind::Hardware => "Hardware"@,
        FirmwareKind::Other => "Other"@,
    }
}

impl FirmwareKind {
    /// The JSON name of the kind.
    pub fn as_str(self) -> (s: &'static str)
        ensures
            s@ == kind_name(self),
    {
        match self {
            FirmwareKind::Firmware => "firmware",
            FirmwareKind::Bootloader => "bootloader",
            FirmwareKind::Hardware => "hardware",
            FirmwareKind::Other => "other",
        }
    }

    /// The text label of the kind.
    pub fn label(self) -> (s: &'static str)
        ensures
            s@ == kind_label(self),
    {
        match self {
            FirmwareKind::Firmware => "Firmware",
            FirmwareKind::Bootloader => "Bootloader",
            FirmwareKind::Hardware => "Hardware",
            FirmwareKind::Other => "Other",
        }
    }
}

/// One independently versioned firmware, bootloader, or hardware entity.
#[derive(Clone, Debug, Eq, PartialEq)]
pub struct FirmwareEntity {
    pub kind: FirmwareKind,
    pub name: Option<String>,
    pub version: String,
}

pub ghost struct EntityView {
    pub kind: FirmwareKind,
    pub name: Option<Seq<char>>,
    pub version: Seq<char>,
}

impl DeepView for FirmwareEntity {
    type V = EntityView;

    open spec fn deep_view(&self) -> EntityView {
        EntityView {
            kind: self.kind,
            name: match self.name {
                Some(n) => Some(n@),
                None => None,
            },
            version: self.version@,
        }
    }
}

/// Best-effort firmware results for the mouse and an optional Bolt receiver.
#[derive(Clone, Debug, Eq, PartialEq)]
pub struct FirmwareStatus {
    pub mouse: Option<Vec<FirmwareEntity>>,
    pub receiver: Option<Vec<FirmwareEntity>>,
}

pub ghost struct StatusView {
    pub mouse: Option<Seq<EntityView>>,
    pub receiver: Option<Seq<EntityView>>,
}

impl DeepView for FirmwareStatus {
    type V = StatusView;

    open spec fn deep_view(&self) -> StatusView {
        StatusView { mouse: self.mouse.deep_view(), receiver: self.receiver.deep_view() }
    }
}

pub open spec fn firmware_kind_of(value: u8) -> FirmwareKind {
    if value == 0 {
        FirmwareKind::Firmware
    } else if value == 1 {
        FirmwareKind::Bootloader
    } else if value == 2 {
        FirmwareKind::Hardware
    } else {
        FirmwareKind::Other
    }
}

pub fn firmware_kind(value: u8) -> (k: FirmwareKind)
    ensures
        k == firmware_kind_of(value),
{
    match value {
        0 => FirmwareKind::Firmware,
        1 => FirmwareKind::Bootloader,
        2 => FirmwareKind::Hardware,
        _ => FirmwareKind::Other,
    }
}

/// Logitech's version text: major and minor as two hexadecimal digits each, and the build as
/// `.B` and four hexadecimal digits unless it is zero.
pub open spec fn version_text(major: u8, minor: u8, build: u16) -> Seq<char> {
    hex2_upper(major) + "."@ + hex2_upper(minor) + if build == 0 {
        Seq::<char>::empty()
    } else {
        ".B"@ + hex4_upper(build)
    }
}

pub fn format_version(major: u8, minor: u8, build: u16) -> (s: String)
    ensures
        s@ == version_text(major, minor, build),
{
    let mut s = String::new();
    push_hex2_upper(&mut s, major);
    push_str(&mut s, ".");
    push_hex2_upper(&mut s, minor);
    if build == 0 {
        assert(s@ =~= version_text(major, minor, build));
    } else {
        push_str(&mut s, ".B");
        push_hex4_upper(&mut s, build);
    }
    s
}

/// The text that `String::from_utf8_lossy` decodes from bytes, invalid sequences replaced.
pub uninterp spec fn lossy_text(bytes: Seq<u8>) -> Seq<char>;

pub open spec fn ascii_bytes(bytes: Seq<u8>) -> bool {
    forall|i: int| 0 <= i < bytes.len() ==> bytes[i] < 0x80
}

/// Decodes bytes as UTF-8, replacing invalid sequences (`String::from_utf8_lossy`). ASCII bytes
/// decode to the characters with the same codes; the decoding of other bytes is not stated.
#[verifier::external_body]
fn utf8_lossy(bytes: &[u8]) -> (s: String)
    ensures
        s@ == lossy_text(bytes@),
        ascii_bytes(bytes@) ==> s@ == Seq::new(bytes@.len(), |i: int| bytes@[i] as char),
{
    String::from_utf8_lossy(bytes).into_owned()
}

/// An entity name: the bytes without one trailing NUL, absent when nothing is left.
pub open spec fn name_bytes(bytes: Seq<u8>) -> Seq<u8> {
    if bytes.len() > 0 && bytes.last() == 0 {
        bytes.drop_last()
    } else {
        bytes
    }
}

pub open spec fn ascii_name_text(bytes: Seq<u8>) -> Option<Seq<char>> {
    if name_bytes(bytes).len() == 0 {
        None
    } else {
        Some(lossy_text(name_bytes(bytes)))
    }
}

/// The characters with the codes of the given bytes.
pub open spec fn ascii_chars(bytes: Seq<u8>) -> Seq<char> {
    Seq::new(bytes.len(), |i: int| bytes[i] as char)
}

pub fn ascii_name(bytes: &[u8]) -> (r: Option<String>)
    ensures
        match (r, ascii_name_text(bytes@)) {
            (Some(s), Some(t)) => s@ == t,
            (None, None) => true,
            _ => false,
        },
        ascii_bytes(name_bytes(bytes@)) ==> (ascii_name_text(bytes@) matches Some(t) ==> t
            == ascii_chars(name_bytes(bytes@))),
{
    let n = if bytes.len() > 0 && bytes[bytes.len() - 1] == 0 {
        bytes.len() - 1
    } else {
        bytes.len()
    };
    if n == 0 {
        return None;
    }
    let mut v: Vec<u8> = Vec::new();
    let mut i: usize = 0;
    while i < n
        invariant
            i <= n <= bytes.len(),
            v@ == bytes@.take(i as int),
        decreases n - i,
    {
        v.push(bytes[i]);
        i = i + 1;
        assert(v@ =~= bytes@.take(i as int));
    }
    assert(v@ =~= name_bytes(bytes@));
    Some(utf8_lossy(v.as_slice()))
}

pub open spec fn be16(hi: u8, lo: u8) -> u16 {
    (hi as nat * 256 + lo as nat) as u16
}

/// A DEVICE_FW_VERSION entity reply: the low nibble of payload byte 0 is the kind; hardware
/// entities carry a revision number, the others a three-byte name, major and minor bytes and a
/// big-endian build number.
pub open spec fn mouse_entity(reply: Seq<u8>) -> Result<EntityView, Error> {
    if reply.len() <= 4 {
        Err(Error::Message(Msg::FirmwareEntityTooShort))
    } else {
        let kind = firmware_kind_of(reply[4] & 0x0f);
        if kind == FirmwareKind::Hardware {
            if reply.len() <= 5 {
                Err(Error::Message(Msg::HardwareRevisionTooShort))
            } else {
                Ok(EntityView { kind, name: None, version: dec(reply[5] as nat) })
            }
        } else if reply.len() < 12 {
            Err(Error::Message(Msg::FirmwareEntityTooShort))
        } else {
            Ok(
                EntityView {
                    kind,
                    name: ascii_name_text(reply.subrange(5, 8)),
                    version: version_text(reply[8], reply[9], be16(reply[10], reply[11])),
                },
            )
        }
    }
}

pub open spec fn entity_result_matches(r: Result<FirmwareEntity, Error>, s: Result<EntityView, Error>) -> bool {
    match (r, s) {
        (Ok(e), Ok(v)) => e.deep_view() == v,
        (Err(e), Err(f)) => e == f,
        _ => false,
    }
}

pub fn parse_mouse_entity(reply: &[u8]) -> (r: Result<FirmwareEntity, Error>)
    ensures
        entity_result_matches(r, mouse_entity(reply@)),
        reply.len() >= 12 && ascii_bytes(name_bytes(reply@.subrange(5, 8))) ==> (r matches Ok(e)
            && e.name matches Some(n) ==> n@ == ascii_chars(name_bytes(reply@.subrange(5, 8)))),
{
    if reply.len() <= 4 {
        return Err(Error::Message(Msg::FirmwareEntityTooShort));
    }
    let kind = firmware_kind(reply[4] & 0x0f);
    if kind == FirmwareKind::Hardware {
        if reply.len() <= 5 {
            return Err(Error::Message(Msg::HardwareRevisionTooShort));
        }
        let mut version = String::new();
        push_dec(&mut version, reply[5] as u64);
        assert(version@ =~= dec(reply@[5] as nat));
        return Ok(FirmwareEntity { kind, name: None, version });
    }
    if reply.len() < 12 {
        return Err(Error::Message(Msg::FirmwareEntityTooShort));
    }
    let name_field = [reply[5], reply[6], reply[7]];
    assert(name_field@ =~= reply@.subrange(5, 8));
    let name = ascii_name(&name_field);
    let build = reply[10] as u16 * 256 + reply[11] as u16;
    let version = format_version(reply[8], reply[9], build);
    Ok(FirmwareEntity { kind, name, version })
}

/// A receiver firmware register reply: payload byte 0 selects the entity type (firmware `MPR` or
/// bootloader `BOT`; other types are not reported), followed by major, minor and big-endian build.
pub open spec fn receiver_entity(reply: Seq<u8>) -> Result<Option<EntityView>, Error> {
    if reply.len() < 9 {
        Err(Error::Message(Msg::ReceiverEntityTooShort))
    } else if reply[4] == 0 || reply[4] == 1 {
        Ok(
            Some(
                EntityView {
                    kind: if reply[4] == 0 {
                        FirmwareKind::Firmware
                    } else {
                        FirmwareKind::Bootloader
                    },
                    name: Some(
                        if reply[4] == 0 {
                            "MPR"@
                        } else {
                            "BOT"@
                        },
                    ),
                    version: version_text(reply[5], reply[6], be16(reply[7], reply[8])),
                },
            ),
        )
    } else {
        Ok(None)
    }
}

pub fn parse_receiver_entity(reply: &[u8]) -> (r: Result<Option<FirmwareEntity>, Error>)
    ensures
        match (r, receiver_entity(reply@)) {
            (Ok(Some(e)), Ok(Some(v))) => e.deep_view() == v,
            (Ok(None), Ok(None)) => true,
            (Err(e), Err(f)) => e == f,
            _ => false,
        },
{
    if reply.len() < 9 {
        return Err(Error::Message(Msg::ReceiverEntityTooShort));
    }
    let (kind, name) = match reply[4] {
        0 => (FirmwareKind::Firmware, "MPR"),
        1 => (FirmwareKind::Bootloader, "BOT"),
        _ => return Ok(None),
    };
    let build = reply[7] as u16 * 256 + reply[8] as u16;
    Ok(
        Some(
            FirmwareEntity {
                kind,
                name: Some(String::from_str(name)),
                version: format_version(reply[5], reply[6], build),
            },
        ),
    )
}

/// The HID++ 1.0 long-register read of one receiver firmware entity.
pub open spec fn receiver_request_bytes(entity: u8) -> Seq<u8> {
    seq![SHORT, RECEIVER_INDEX, GET_LONG_REGISTER, RECEIVER_FW_INFORMATION, entity, 0u8, 0u8]
}

pub fn receiver_request(entity: u8) -> (p: [u8; 7])
    ensures
        p@ == receiver_request_bytes(entity),
{
    let p = [SHORT, RECEIVER_INDEX, GET_LONG_REGISTER, RECEIVER_FW_INFORMATION, entity, 0, 0];
    assert(p@ =~= receiver_request_bytes(entity));
    p
}

/// Waiting for a receiver register reply: reports from other devices and short reports are
/// skipped; the receiver's error reply or its register reply ends the wait; after
/// [`REPLY_READS`] reads it times out.
pub struct RegisterWait {
    pub reads: u8,
}

pub open spec fn register_next(w: RegisterWait, data: Seq<u8>) -> (RegisterWait, Option<Result<Seq<u8>, Error>>) {
    let reads = if w.reads >= REPLY_READS {
        REPLY_READS
    } else {
        (w.reads + 1) as u8
    };
    let next = RegisterWait { reads };
    if data.len() >= 7 && data[1] == RECEIVER_INDEX && data[2] == HIDPP_ERROR && data[3]
        == GET_LONG_REGISTER && data[4] == RECEIVER_FW_INFORMATION {
        (next, Some(Err(Error::ReceiverError(data[5]))))
    } else if data.len() >= 7 && data[1] == RECEIVER_INDEX && data[2] == GET_LONG_REGISTER && data[3]
        == RECEIVER_FW_INFORMATION {
        (next, Some(Ok(data)))
    } else if reads >= REPLY_READS {
        (next, Some(Err(Error::Message(Msg::ReceiverTimeout))))
    } else {
        (next, None)
    }
}

impl RegisterWait {
    pub fn new() -> (w: RegisterWait)
        ensures
            w.reads == 0,
    {
        RegisterWait { reads: 0 }
    }

    /// Takes one read (empty when the read timed out); `Some` when the wait is over.
    pub fn on_read(&mut self, data: &[u8]) -> (r: Option<Result<Vec<u8>, Error>>)
        ensures
            *final(self) == register_next(*old(self), data@).0,
            match (r, register_next(*old(self), data@).1) {
                (None, None) => true,
                (Some(Ok(v)), Some(Ok(w))) => v@ == w,
                (Some(Err(e)), Some(Err(f))) => e == f,
                _ => false,
            },
    {
        let reads = if self.reads >= REPLY_READS {
            REPLY_READS
        } else {
            self.reads + 1
        };
        self.reads = reads;
        if data.len() >= 7 && data[1] == RECEIVER_INDEX && data[2] == HIDPP_ERROR && data[3]
            == GET_LONG_REGISTER && data[4] == RECEIVER_FW_INFORMATION {
            return Some(Err(Error::ReceiverError(data[5])));
        }
        if data.len() >= 7 && data[1] == RECEIVER_INDEX && data[2] == GET_LONG_REGISTER && data[3]
            == RECEIVER_FW_INFORMATION {
            let mut v: Vec<u8> = Vec::new();
            let mut i: usize = 0;
            while i < data.len()
                invariant
                    i <= data.len(),
                    v@ == data@.take(i as int),
                decreases data.len() - i,
            {
                v.push(data[i]);
                i = i + 1;
                assert(v@ =~= data@.take(i as int));
            }
            assert(data@.take(data.len() as int) =~= data@);
            return Some(Ok(v));
        }
        if reads >= REPLY_READS {
            Some(Err(Error::Message(Msg::ReceiverTimeout)))
        } else {
            None
        }
    }
}

/// Reading the mouse's firmware entities: resolve DEVICE_FW_VERSION, read the entity count
/// (function 0), then each entity by index (function 1); the first failure ends the operation.
pub open spec fn read_mouse_plan(idx: u8, h: Seq<Reply>) -> Plan<Seq<EntityView>> {
    if h.len() == 0 {
        lookup(idx, DEVICE_FW_VERSION)
    } else {
        match feature_index(h[0]) {
            Err(e) => fail(e),
            Ok(f) => if h.len() == 1 {
                ask(idx, f, 0x00, Seq::empty())
            } else {
                match h[1] {
                    Err(e) => fail(e),
                    Ok(b) => if b@.len() <= 4 {
                        fail(Error::Message(Msg::FirmwareInfoTooShort))
                    } else {
                        entities_from(idx, f, b@[4], h, 0)
                    },
                }
            },
        }
    }
}

/// The entity in the reply at position `2 + j`, once it is known to parse.
pub open spec fn entity_at(h: Seq<Reply>, j: int) -> EntityView {
    mouse_entity(h[2 + j]->Ok_0@)->Ok_0
}

pub open spec fn entities_from(idx: u8, f: u8, count: u8, h: Seq<Reply>, k: nat) -> Plan<Seq<EntityView>>
    decreases count - k,
{
    if k >= count {
        Plan::Finish(Ok(Seq::new(count as nat, |j: int| entity_at(h, j))))
    } else if h.len() <= 2 + k {
        ask(idx, f, 0x01, seq![k as u8])
    } else {
        match h[2 + k as int] {
            Err(e) => fail(e),
            Ok(b) => match mouse_entity(b@) {
                Err(e) => fail(e),
                Ok(_) => entities_from(idx, f, count, h, k + 1),
            },
        }
    }
}

pub fn read_mouse(idx: u8, h: &Vec<Reply>) -> (s: Step<Vec<FirmwareEntity>>)
    ensures
        follows(s, read_mouse_plan(idx, h@)),
{
    if h.len() == 0 {
        return lookup_step(idx, DEVICE_FW_VERSION);
    }
    let f = match feature_index_of(&h[0]) {
        Err(e) => return Step::Done(Err(e)),
        Ok(f) => f,
    };
    if h.len() == 1 {
        return request(idx, f, 0x00, &[]);
    }
    let count = match &h[1] {
        Err(e) => return Step::Done(Err(e.duplicate())),
        Ok(b) => {
            if b.len() <= 4 {
                return Step::Done(Err(Error::Message(Msg::FirmwareInfoTooShort)));
            }
            b[4]
        },
    };
    let mut entities: Vec<FirmwareEntity> = Vec::new();
    let mut k: u8 = 0;
    while k < count
        invariant
            k <= count,
            h@.len() >= 2,
            read_mouse_plan(idx, h@) == entities_from(idx, f, count, h@, k as nat),
            entities.deep_view() =~= Seq::new(k as nat, |j: int| entity_at(h@, j)),
            forall|j: int| 0 <= j < k ==> (#[trigger] h@[2 + j]) is Ok && mouse_entity(
                h@[2 + j]->Ok_0@,
            ) is Ok,
        decreases count - k,
    {
        if h.len() <= 2 + k as usize {
            let index: [u8; 1] = [k];
            assert(index@ =~= seq![k as u8]);
            return request(idx, f, 0x01, &index);
        }
        match &h[2 + k as usize] {
            Err(e) => return Step::Done(Err(e.duplicate())),
            Ok(b) => match parse_mouse_entity(b.as_slice()) {
                Err(e) => return Step::Done(Err(e)),
                Ok(entity) => {
                    let ghost before = entities.deep_view();
                    entities.push(entity);
                    assert(entities.deep_view() =~= before.push(entity.deep_view()));
                    assert(entity.deep_view() == entity_at(h@, k as int));
                },
            },
        }
        k = k + 1;
    }
    proof {
        assert forall|j: int| 0 <= j < count implies Seq::new(count as nat, |j: int| entity_at(h@, j))[j]
            == entities.deep_view()[j] by {}
    }
    Step::Done(Ok(entities))
}

/// What to do next while reading the receiver's firmware entities.
pub enum ReceiverStep {
    /// Read the receiver's firmware register for this entity and report the register reply.
    Read(u8),
    Done(Result<Vec<FirmwareEntity>, Error>),
}

pub ghost enum ReceiverPlan {
    Read(nat),
    Done(Result<Seq<EntityView>, Error>),
}

/// Entities from slot `k` on, with `acc` collected before; entity types other than firmware and
/// bootloader are skipped.
pub open spec fn receiver_from(h: Seq<Reply>, k: nat, acc: Seq<EntityView>) -> ReceiverPlan
    decreases RECEIVER_ENTITIES - k,
{
    if k >= RECEIVER_ENTITIES {
        ReceiverPlan::Done(Ok(acc))
    } else if h.len() <= k {
        ReceiverPlan::Read(k)
    } else {
        match h[k as int] {
            Err(e) => ReceiverPlan::Done(Err(e)),
            Ok(b) => match receiver_entity(b@) {
                Err(e) => ReceiverPlan::Done(Err(e)),
                Ok(None) => receiver_from(h, k + 1, acc),
                Ok(Some(v)) => receiver_from(h, k + 1, acc.push(v)),
            },
        }
    }
}

pub open spec fn receiver_follows(s: ReceiverStep, p: ReceiverPlan) -> bool {
    match (s, p) {
        (ReceiverStep::Read(i), ReceiverPlan::Read(j)) => i == j,
        (ReceiverStep::Done(Ok(v)), ReceiverPlan::Done(Ok(w))) => v.deep_view() == w,
        (ReceiverStep::Done(Err(e)), ReceiverPlan::Done(Err(f))) => e == f,
        _ => false,
    }
}

/// The next step of reading the receiver's firmware, given the register replies so far.
pub fn read_receiver(h: &Vec<Reply>) -> (s: ReceiverStep)
    ensures
        receiver_follows(s, receiver_from(h@, 0, Seq::empty())),
{
    let mut entities: Vec<FirmwareEntity> = Vec::new();
    let mut k: u8 = 0;
    assert(entities.deep_view() =~= Seq::<EntityView>::empty());
    while k < RECEIVER_ENTITIES
        invariant
            k <= RECEIVER_ENTITIES,
            receiver_from(h@, 0, Seq::empty()) == receiver_from(h@, k as nat, entities.deep_view()),
        decreases RECEIVER_ENTITIES - k,
    {
        if h.len() <= k as usize {
            return ReceiverStep::Read(k);
        }
        match &h[k as usize] {
            Err(e) => return ReceiverStep::Done(Err(e.duplicate())),
            Ok(b) => match parse_receiver_entity(b.as_slice()) {
                Err(e) => return ReceiverStep::Done(Err(e)),
                Ok(None) => {},
                Ok(Some(entity)) => {
                    let ghost before = entities.deep_view();
                    entities.push(entity);
                    assert(entities.deep_view() =~= before.push(entity.deep_view()));
                },
            },
        }
        k = k + 1;
    }
    ReceiverStep::Done(Ok(entities))
}

pub open spec fn status_of(
    mouse: Result<Seq<EntityView>, Error>,
    receiver: Result<Option<Seq<EntityView>>, Error>,
) -> Result<StatusView, Error> {
    let m = match mouse {
        Ok(v) => Some(v),
        Err(_) => None,
    };
    let r = match receiver {
        Ok(Some(v)) => Some(v),
        _ => None,
    };
    if m is None && r is None {
        Err(Error::Message(Msg::FirmwareUnreadable))
    } else {
        Ok(StatusView { mouse: m, receiver: r })
    }
}

/// Combining the two halves: whichever half answered is kept; only when neither did is the read a
/// failure.
pub fn read_status(
    mouse: Result<Vec<FirmwareEntity>, Error>,
    receiver: Result<Option<Vec<FirmwareEntity>>, Error>,
) -> (r: Result<FirmwareStatus, Error>)
    ensures
        match (
            r,
            status_of(
                match mouse {
                    Ok(v) => Ok(v.deep_view()),
                    Err(e) => Err(e),
                },
                match receiver {
                    Ok(Some(v)) => Ok(Some(v.deep_view())),
                    Ok(None) => Ok(None),
                    Err(e) => Err(e),
                },
            ),
        ) {
            (Ok(s), Ok(v)) => s.deep_view() == v,
            (Err(e), Err(f)) => e == f,
            _ => false,
        },
{
    let m = match mouse {
        Ok(v) => Some(v),
        Err(_) => None,
    };
    let r = match receiver {
        Ok(Some(v)) => Some(v),
        _ => None,
    };
    if m.is_none() && r.is_none() {
        return Err(Error::Message(Msg::FirmwareUnreadable));
    }
    Ok(FirmwareStatus { mouse: m, receiver: r })
}

pub open spec fn is_control(c: char) -> bool {
    (c as u32) <= 0x1f || (0x7f <= (c as u32) <= 0x9f)
}

/// The JSON escape of one character.
pub open spec fn escape_char(c: char) -> Seq<char> {
    if c == '"' {
        "\\\""@
    } else if c == '\\' {
        "\\\\"@
    } else if c == '\n' {
        "\\n"@
    } else if c == '\r' {
        "\\r"@
    } else if c == '\t' {
        "\\t"@
    } else if is_control(c) {
        "\\u"@ + hex4_lower((c as u32) as u16)
    } else {
        seq![c]
    }
}

pub open spec fn escaped(s: Seq<char>) -> Seq<char>
    decreases s.len(),
{
    if s.len() == 0 {
        Seq::empty()
    } else {
        escaped(s.drop_last()) + escape_char(s.last())
    }
}

/// A JSON string literal holding the text.
pub open spec fn json_string_text(s: Seq<char>) -> Seq<char> {
    "\""@ + escaped(s) + "\""@
}

pub fn json_string(value: &str) -> (s: String)
    ensures
        s@ == json_string_text(value@),
{
    let chars = chars_of(value);
    let mut s = String::new();
    push_str(&mut s, "\"");
    let mut i: usize = 0;
    while i < chars.len()
        invariant
            i <= chars.len(),
            chars@ == value@,
            s@ == "\""@ + escaped(chars@.take(i as int)),
        decreases chars.len() - i,
    {
        let c = chars[i];
        let ghost before = s@;
        if c == '"' {
            push_str(&mut s, "\\\"");
            assert(s@ =~= before + escape_char(c));
        } else if c == '\\' {
            push_str(&mut s, "\\\\");
            assert(s@ =~= before + escape_char(c));
        } else if c == '\n' {
            push_str(&mut s, "\\n");
            assert(s@ =~= before + escape_char(c));
        } else if c == '\r' {
            push_str(&mut s, "\\r");
            assert(s@ =~= before + escape_char(c));
        } else if c == '\t' {
            push_str(&mut s, "\\t");
            assert(s@ =~= before + escape_char(c));
        } else if (c as u32) <= 0x1f || (0x7f <= (c as u32) && (c as u32) <= 0x9f) {
            push_str(&mut s, "\\u");
            let code = c as u32 as u16;
            push_hex4_lower(&mut s, code);
            assert(s@ =~= before + escape_char(c));
        } else {
            push_char(&mut s, c);
            assert(s@ =~= before + escape_char(c));
        }
        proof {
            assert(chars@.take(i + 1).drop_last() =~= chars@.take(i as int));
            assert(s@ =~= before + escape_char(c));
        }
        i = i + 1;
    }
    assert(chars@.take(chars.len() as int) =~= chars@);
    push_str(&mut s, "\"");
    s
}

pub open spec fn entity_json(e: EntityView) -> Seq<char> {
    "{\"type\":\""@ + kind_name(e.kind) + "\",\"name\":"@ + match e.name {
        Some(n) => json_string_text(n),
        None => "null"@,
    } + ",\"version\":"@ + json_string_text(e.version) + "}"@
}

/// The entities' JSON objects separated by commas.
pub open spec fn entities_json_body(es: Seq<EntityView>) -> Seq<char>
    decreases es.len(),
{
    if es.len() == 0 {
        Seq::empty()
    } else if es.len() == 1 {
        entity_json(es[0])
    } else {
        entities_json_body(es.drop_last()) + ","@ + entity_json(es.last())
    }
}

pub open spec fn entities_json(entities: Option<Seq<EntityView>>) -> Seq<char> {
    match entities {
        None => "null"@,
        Some(es) => "["@ + entities_json_body(es) + "]"@,
    }
}

fn push_entity_json(s: &mut String, e: &FirmwareEntity)
    ensures
        final(s)@ == old(s)@ + entity_json(e.deep_view()),
{
    push_str(s, "{\"type\":\"");
    push_str(s, e.kind.as_str());
    push_str(s, "\",\"name\":");
    match &e.name {
        Some(n) => {
            let j = json_string(n.as_str());
            push_str(s, j.as_str());
        },
        None => push_str(s, "null"),
    }
    push_str(s, ",\"version\":");
    let v = json_string(e.version.as_str());
    push_str(s, v.as_str());
    push_str(s, "}");
    assert(final(s)@ =~= old(s)@ + entity_json(e.deep_view()));
}

pub fn json_entities(entities: &Option<Vec<FirmwareEntity>>) -> (s: String)
    ensures
        s@ == entities_json(entities.deep_view()),
{
    let mut s = String::new();
    match entities {
        None => {
            push_str(&mut s, "null");
        },
        Some(es) => {
            push_str(&mut s, "[");
            let mut i: usize = 0;
            while i < es.len()
                invariant
                    i <= es.len(),
                    s@ == "["@ + entities_json_body(es.deep_view().take(i as int)),
                decreases es.len() - i,
            {
                let ghost before = s@;
                if i > 0 {
                    push_str(&mut s, ",");
                }
                push_entity_json(&mut s, &es[i]);
                proof {
                    let t = es.deep_view().take(i + 1);
                    assert(t.drop_last() =~= es.deep_view().take(i as int));
                    assert(t.last() == es@[i as int].deep_view());
                    if i == 0 {
                        assert(es.deep_view().take(0) =~= Seq::<EntityView>::empty());
                        assert(s@ =~= "["@ + entities_json_body(t));
                    } else {
                        assert(s@ =~= "["@ + entities_json_body(t));
                    }
                }
                i = i + 1;
            }
            assert(es.deep_view().take(es.len() as int) =~= es.deep_view());
            push_str(&mut s, "]");
        },
    }
    s
}

pub open spec fn entity_line(e: EntityView) -> Seq<char> {
    kind_label(e.kind) + match e.name {
        Some(n) => " "@ + n,
        None => Seq::<char>::empty(),
    } + ": "@ + e.version
}

/// The entity lines, each preceded by a line break.
pub open spec fn entity_lines(es: Seq<EntityView>) -> Seq<char>
    decreases es.len(),
{
    if es.len() == 0 {
        Seq::empty()
    } else {
        entity_lines(es.drop_last()) + "\n  "@ + entity_line(es.last())
    }
}

/// A heading line followed by one line per entity, or by `unavailable`.
pub open spec fn section_text(heading: Seq<char>, entities: Option<Seq<EntityView>>) -> Seq<char> {
    heading + ":"@ + match entities {
        Some(es) => if es.len() > 0 {
            entity_lines(es)
        } else {
            "\n  unavailable"@
        },
        None => "\n  unavailable"@,
    }
}

fn text_entities(s: &mut String, heading: &str, entities: &Option<Vec<FirmwareEntity>>)
    ensures
        final(s)@ == old(s)@ + section_text(heading@, entities.deep_view()),
{
    push_str(s, heading);
    push_str(s, ":");
    let ghost start = s@;
    match entities {
        Some(es) if es.len() > 0 => {
            let mut i: usize = 0;
            assert(es.deep_view().take(0) =~= Seq::<EntityView>::empty());
            while i < es.len()
                invariant
                    i <= es.len(),
                    s@ == start + entity_lines(es.deep_view().take(i as int)),
                decreases es.len() - i,
            {
                let ghost before = s@;
                let e = &es[i];
                push_str(s, "\n  ");
                push_str(s, e.kind.label());
                match &e.name {
                    Some(n) => {
                        push_str(s, " ");
                        push_str(s, n.as_str());
                    },
                    None => {},
                }
                push_str(s, ": ");
                push_str(s, e.version.as_str());
                proof {
                    let t = es.deep_view().take(i + 1);
                    assert(t.drop_last() =~= es.deep_view().take(i as int));
                    assert(t.last() == e.deep_view());
                    assert(s@ =~= before + "\n  "@ + entity_line(e.deep_view()));
                }
                i = i + 1;
            }
            assert(es.deep_view().take(es.len() as int) =~= es.deep_view());
        },
        _ => {
            push_str(s, "\n  unavailable");
        },
    }
}

pub open spec fn status_text(status: StatusView, json: bool) -> Seq<char> {
    if json {
        "{\"mouse\":"@ + entities_json(status.mouse) + ",\"receiver\":"@ + entities_json(
            status.receiver,
        ) + "}"@
    } else {
        section_text("Mouse"@, status.mouse) + "\n"@ + section_text(
            "Bolt receiver"@,
            status.receiver,
        )
    }
}

pub fn format_status(status: &FirmwareStatus, json: bool) -> (s: String)
    ensures
        s@ == status_text(status.deep_view(), json),
{
    let mut s = String::new();
    if json {
        push_str(&mut s, "{\"mouse\":");
        let m = json_entities(&status.mouse);
        push_str(&mut s, m.as_str());
        push_str(&mut s, ",\"receiver\":");
        let r = json_entities(&status.receiver);
        push_str(&mut s, r.as_str());
        push_str(&mut s, "}");
    } else {
        text_entities(&mut s, "Mouse", &status.mouse);
        push_str(&mut s, "\n");
        text_entities(&mut s, "Bolt receiver", &status.receiver);
    }
    s
}

/// The receiver's register payload type decides the entity: type 0 is the receiver's firmware,
/// named `MPR`; type 1 its bootloader, named `BOT`; other types are not reported. The version is
/// major, minor and the big-endian build of the next bytes.
pub proof fn lemma_receiver_entity_types(reply: Seq<u8>)
    requires
        reply.len() >= 9,
    ensures
        reply[4] == 0 ==> (receiver_entity(reply) matches Ok(Some(v)) && v.kind
            == FirmwareKind::Firmware && v.name == Some("MPR"@)),
        reply[4] == 1 ==> (receiver_entity(reply) matches Ok(Some(v)) && v.kind
            == FirmwareKind::Bootloader && v.name == Some("BOT"@)),
        reply[4] > 1 ==> receiver_entity(reply) == Ok::<Option<EntityView>, Error>(None),
        receiver_entity(reply) matches Ok(Some(v)) ==> v.version == version_text(
            reply[5],
            reply[6],
            (reply[7] as nat * 256 + reply[8] as nat) as u16,
        ),
{
}

} // verus!

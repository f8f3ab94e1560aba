//! Persistence for settings that should survive reconnects.
//!
//! The format is a deliberately small TOML subset: one `key = value` per line, `#` comments, and
//! blank lines. Unknown keys do not make loading fail, so a binary can tolerate config fields it
//! does not yet understand.

use vstd::prelude::*;

use crate::error::{message_of, Error, Msg};
use crate::features::dpi::{dpi_arg, MAX_DPI, MIN_DPI};
use crate::features::force_button::value_arg;
use crate::features::haptic::strength_arg;
use crate::exchange::{Plan, Reply};
use crate::features::wheel::{
    hires_set_plan, set_plan as wheel_set_plan, set_thumb_plan, smart_shift_set_plan, thumb_set_plan,
    SmartShiftField, THUMB_INVERT_MASK, THUMB_MODE_MASK, WHEEL_DIVERT_MASK, WHEEL_INVERT_MASK,
    WHEEL_RESOLUTION_MASK,
    force_arg, ratchet_arg, ratchet_speed_arg, toggle_arg, WHEEL_RATCHET_FREE, WHEEL_RATCHET_RATCHET,
};
use crate::text::{
    bool_text, chars_eq, chars_of, dec, is_digit, is_ws, parse_unsigned, parse_unsigned_chars,
    push_bool, push_char,
    push_dec, push_str, sub_chars, trim, trim_chars, trim_end, trim_start,
};

verus! {

#[derive(Clone, Copy, Debug, PartialEq, Eq, Structural)]
pub enum WheelRatchet {
    Free,
    Ratchet,
}

pub open spec fn ratchet_name(r: WheelRatchet) -> Seq<char> {
    match r {
        WheelRatchet::Free => "free"@,
        WheelRatchet::Ratchet => "ratchet"@,
    }
}

/// What `WheelRatchet::parse` makes of a text.
pub open spec fn ratchet_of(value: Seq<char>) -> Result<WheelRatchet, Error> {
    if trim(value) == "free"@ {
        Ok(WheelRatchet::Free)
    } else if trim(value) == "ratchet"@ {
        Ok(WheelRatchet::Ratchet)
    } else {
        Err(Error::Message(Msg::ConfigRatchet))
    }
}

impl WheelRatchet {
    pub fn as_str(self) -> (s: &'static str)
        ensures
            s@ == ratchet_name(self),
    {
        match self {
            WheelRatchet::Free => "free",
            WheelRatchet::Ratchet => "ratchet",
        }
    }

    pub fn parse(value: &[char]) -> (r: Result<WheelRatchet, Error>)
        ensures
            r == ratchet_of(value@),
    {
        let t = trim_chars(value);
        if chars_eq(t.as_slice(), "free") {
            Ok(WheelRatchet::Free)
        } else if chars_eq(t.as_slice(), "ratchet") {
            Ok(WheelRatchet::Ratchet)
        } else {
            Err(Error::Message(Msg::ConfigRatchet))
        }
    }
}

/// The saved settings; `None` means mx4 leaves that device setting alone when reconnecting.
#[derive(Clone, Copy, Debug, PartialEq, Eq, Structural)]
pub struct SavedConfig {
    pub dpi: Option<u32>,
    pub wheel_ratchet: Option<WheelRatchet>,
    pub wheel_ratchet_speed: Option<u8>,
    pub wheel_force: Option<u8>,
    pub wheel_invert: Option<bool>,
    pub wheel_resolution: Option<bool>,
    pub wheel_divert: Option<bool>,
    pub thumb_wheel_invert: Option<bool>,
    pub thumb_wheel_divert: Option<bool>,
    pub force_button: Option<u16>,
    pub haptic_strength: Option<u8>,
}

/// The configuration with nothing saved.
pub open spec fn empty_config() -> SavedConfig {
    SavedConfig {
        dpi: None,
        wheel_ratchet: None,
        wheel_ratchet_speed: None,
        wheel_force: None,
        wheel_invert: None,
        wheel_resolution: None,
        wheel_divert: None,
        thumb_wheel_invert: None,
        thumb_wheel_divert: None,
        force_button: None,
        haptic_strength: None,
    }
}

impl Default for SavedConfig {
    fn default() -> (c: SavedConfig)
        ensures
            c == empty_config(),
    {
        SavedConfig {
            dpi: None,
            wheel_ratchet: None,
            wheel_ratchet_speed: None,
            wheel_force: None,
            wheel_invert: None,
            wheel_resolution: None,
            wheel_divert: None,
            thumb_wheel_invert: None,
            thumb_wheel_divert: None,
            force_button: None,
            haptic_strength: None,
        }
    }
}

impl SavedConfig {
    /// Whether nothing is saved.
    pub fn is_empty(&self) -> (r: bool)
        ensures
            r == (*self == empty_config()),
    {
        self.dpi.is_none() && self.wheel_ratchet.is_none() && self.wheel_ratchet_speed.is_none()
            && self.wheel_force.is_none() && self.wheel_invert.is_none()
            && self.wheel_resolution.is_none() && self.wheel_divert.is_none()
            && self.thumb_wheel_invert.is_none() && self.thumb_wheel_divert.is_none()
            && self.force_button.is_none() && self.haptic_strength.is_none()
    }
}

/// The first line of a saved file.
pub const HEADER_SAVED: &'static str = "# Saved by mx4. Adjusting this file by hand is supported.";
/// The second line of a saved file.
pub const HEADER_UNKNOWN: &'static str = "# Unsupported keys are ignored.";

/// A string value as the file writes it: backslashes and double quotes escaped.
pub open spec fn quote_escape(s: Seq<char>) -> Seq<char>
    decreases s.len(),
{
    if s.len() == 0 {
        Seq::empty()
    } else {
        quote_escape(s.drop_last()) + if s.last() == '\\' {
            "\\\\"@
        } else if s.last() == '"' {
            "\\\""@
        } else {
            seq![s.last()]
        }
    }
}

pub open spec fn quoted(s: Seq<char>) -> Seq<char> {
    "\""@ + quote_escape(s) + "\""@
}

/// The line for a key, when its value is saved.
pub open spec fn opt_line<T>(key: Seq<char>, value: Option<T>, text: spec_fn(T) -> Seq<char>) -> Seq<
    Seq<char>,
> {
    match value {
        Some(v) => seq![key + " = "@ + text(v)],
        None => Seq::empty(),
    }
}

/// The lines of a saved file: two comment lines, a blank line, and one line per saved setting.
pub open spec fn toml_lines(c: SavedConfig) -> Seq<Seq<char>> {
    seq![HEADER_SAVED@, HEADER_UNKNOWN@, Seq::<char>::empty()] + opt_line(
        "dpi"@,
        c.dpi,
        |v: u32| dec(v as nat),
    ) + opt_line("wheel_ratchet"@, c.wheel_ratchet, |r: WheelRatchet| quoted(ratchet_name(r)))
        + opt_line("wheel_ratchet_speed"@, c.wheel_ratchet_speed, |v: u8| dec(v as nat))
        + opt_line("wheel_force"@, c.wheel_force, |v: u8| dec(v as nat)) + opt_line(
        "wheel_invert"@,
        c.wheel_invert,
        |b: bool| bool_text(b),
    ) + opt_line("wheel_resolution"@, c.wheel_resolution, |b: bool| bool_text(b)) + opt_line(
        "wheel_divert"@,
        c.wheel_divert,
        |b: bool| bool_text(b),
    ) + opt_line("thumb_wheel_invert"@, c.thumb_wheel_invert, |b: bool| bool_text(b)) + opt_line(
        "thumb_wheel_divert"@,
        c.thumb_wheel_divert,
        |b: bool| bool_text(b),
    ) + opt_line("force_button"@, c.force_button, |v: u16| dec(v as nat)) + opt_line(
        "haptic_strength"@,
        c.haptic_strength,
        |v: u8| dec(v as nat),
    )
}

/// Lines, each terminated by a line break.
pub open spec fn lines_text(ls: Seq<Seq<char>>) -> Seq<char>
    decreases ls.len(),
{
    if ls.len() == 0 {
        Seq::empty()
    } else {
        lines_text(ls.drop_last()) + ls.last() + "\n"@
    }
}

pub open spec fn toml_text(c: SavedConfig) -> Seq<char> {
    lines_text(toml_lines(c))
}

proof fn lemma_lines_push(ls: Seq<Seq<char>>, l: Seq<char>)
    ensures
        lines_text(ls.push(l)) == lines_text(ls) + l + "\n"@,
{
    assert(ls.push(l).drop_last() =~= ls);
}

/// Appends the value in double quotes, with backslashes and double quotes escaped.
pub fn push_quoted(s: &mut String, value: &str)
    ensures
        final(s)@ == old(s)@ + quoted(value@),
{
    let chars = chars_of(value);
    push_str(s, "\"");
    let ghost start = s@;
    let mut i: usize = 0;
    while i < chars.len()
        invariant
            i <= chars.len(),
            chars@ == value@,
            s@ == start + quote_escape(chars@.take(i as int)),
        decreases chars.len() - i,
    {
        let c = chars[i];
        let ghost before = s@;
        if c == '\\' {
            push_str(s, "\\\\");
        } else if c == '"' {
            push_str(s, "\\\"");
        } else {
            push_char(s, c);
        }
        proof {
            assert(chars@.take(i + 1).drop_last() =~= chars@.take(i as int));
            assert(s@ =~= start + quote_escape(chars@.take(i + 1)));
        }
        i = i + 1;
    }
    assert(chars@.take(chars.len() as int) =~= chars@);
    push_str(s, "\"");
    assert(s@ =~= old(s)@ + quoted(value@));
}

/// Appends the line `key = <decimal>` when a number is saved.
fn push_number_line(s: &mut String, key: &str, value: Option<u64>, Ghost(ls): Ghost<Seq<Seq<char>>>)
    requires
        old(s)@ == lines_text(ls),
    ensures
        final(s)@ == lines_text(
            ls + match value {
                Some(v) => seq![key@ + " = "@ + dec(v as nat)],
                None => Seq::<Seq<char>>::empty(),
            },
        ),
{
    match value {
        Some(v) => {
            push_str(s, key);
            push_str(s, " = ");
            push_dec(s, v);
            push_str(s, "\n");
            proof {
                let l = key@ + " = "@ + dec(v as nat);
                lemma_lines_push(ls, l);
                assert(ls + seq![l] =~= ls.push(l));
                assert(final(s)@ =~= lines_text(ls) + l + "\n"@);
            }
        },
        None => {
            assert(ls + Seq::<Seq<char>>::empty() =~= ls);
        },
    }
}

/// Appends the line `key = true|false` when a flag is saved.
fn push_bool_line(s: &mut String, key: &str, value: Option<bool>, Ghost(ls): Ghost<Seq<Seq<char>>>)
    requires
        old(s)@ == lines_text(ls),
    ensures
        final(s)@ == lines_text(ls + opt_line(key@, value, |b: bool| bool_text(b))),
{
    match value {
        Some(v) => {
            push_str(s, key);
            push_str(s, " = ");
            push_bool(s, v);
            push_str(s, "\n");
            proof {
                let l = key@ + " = "@ + bool_text(v);
                lemma_lines_push(ls, l);
                assert(ls + seq![l] =~= ls.push(l));
                assert(final(s)@ =~= lines_text(ls) + l + "\n"@);
                assert(opt_line(key@, value, |b: bool| bool_text(b)) =~= seq![l]);
            }
        },
        None => {
            assert(ls + Seq::<Seq<char>>::empty() =~= ls);
        },
    }
}

impl SavedConfig {
    /// The file text for the configuration.
    pub fn to_toml(&self) -> (s: String)
        ensures
            s@ == toml_text(*self),
    {
        let mut s = String::new();
        let ghost ls = Seq::<Seq<char>>::empty();
        push_str(&mut s, HEADER_SAVED);
        push_str(&mut s, "\n");
        push_str(&mut s, HEADER_UNKNOWN);
        push_str(&mut s, "\n");
        push_str(&mut s, "\n");
        proof {
            let e = Seq::<Seq<char>>::empty();
            lemma_lines_push(e, HEADER_SAVED@);
            lemma_lines_push(e.push(HEADER_SAVED@), HEADER_UNKNOWN@);
            lemma_lines_push(e.push(HEADER_SAVED@).push(HEADER_UNKNOWN@), Seq::<char>::empty());
            let base = seq![HEADER_SAVED@, HEADER_UNKNOWN@, Seq::<char>::empty()];
            assert(e.push(HEADER_SAVED@).push(HEADER_UNKNOWN@).push(Seq::<char>::empty()) =~= base);
            assert(s@ =~= lines_text(base));
            ls = base;
        }
        push_number_line(
            &mut s,
            "dpi",
            match self.dpi {
                Some(v) => Some(v as u64),
                None => None,
            },
            Ghost(ls),
        );
        proof {
            let o = opt_line("dpi"@, self.dpi, |v: u32| dec(v as nat));
            assert(o =~= match self.dpi {
                Some(v) => seq!["dpi"@ + " = "@ + dec(v as nat)],
                None => Seq::<Seq<char>>::empty(),
            });
            ls = ls + o;
        }
        let ghost before_ratchet = ls;
        match self.wheel_ratchet {
            Some(r) => {
                push_str(&mut s, "wheel_ratchet");
                push_str(&mut s, " = ");
                push_quoted(&mut s, r.as_str());
                push_str(&mut s, "\n");
                proof {
                    let l = "wheel_ratchet"@ + " = "@ + quoted(ratchet_name(r));
                    lemma_lines_push(ls, l);
                    assert(s@ =~= lines_text(ls) + l + "\n"@);
                    ls = ls.push(l);
                }
            },
            None => {},
        }
        proof {
            let o = opt_line(
                "wheel_ratchet"@,
                self.wheel_ratchet,
                |r: WheelRatchet| quoted(ratchet_name(r)),
            );
            assert(ls =~= before_ratchet + o);
        }
        push_number_line(
            &mut s,
            "wheel_ratchet_speed",
            match self.wheel_ratchet_speed {
                Some(v) => Some(v as u64),
                None => None,
            },
            Ghost(ls),
        );
        proof {
            let o = opt_line("wheel_ratchet_speed"@, self.wheel_ratchet_speed, |v: u8| dec(v as nat));
            assert(o =~= match self.wheel_ratchet_speed {
                Some(v) => seq!["wheel_ratchet_speed"@ + " = "@ + dec(v as nat)],
                None => Seq::<Seq<char>>::empty(),
            });
            ls = ls + o;
        }
        push_number_line(
            &mut s,
            "wheel_force",
            match self.wheel_force {
                Some(v) => Some(v as u64),
                None => None,
            },
            Ghost(ls),
        );
        proof {
            let o = opt_line("wheel_force"@, self.wheel_force, |v: u8| dec(v as nat));
            assert(o =~= match self.wheel_force {
                Some(v) => seq!["wheel_force"@ + " = "@ + dec(v as nat)],
                None => Seq::<Seq<char>>::empty(),
            });
            ls = ls + o;
        }
        push_bool_line(&mut s, "wheel_invert", self.wheel_invert, Ghost(ls));
        proof {
            ls = ls + opt_line("wheel_invert"@, self.wheel_invert, |b: bool| bool_text(b));
        }
        push_bool_line(&mut s, "wheel_resolution", self.wheel_resolution, Ghost(ls));
        proof {
            ls = ls + opt_line("wheel_resolution"@, self.wheel_resolution, |b: bool| bool_text(b));
        }
        push_bool_line(&mut s, "wheel_divert", self.wheel_divert, Ghost(ls));
        proof {
            ls = ls + opt_line("wheel_divert"@, self.wheel_divert, |b: bool| bool_text(b));
        }
        push_bool_line(&mut s, "thumb_wheel_invert", self.thumb_wheel_invert, Ghost(ls));
        proof {
            ls = ls + opt_line("thumb_wheel_invert"@, self.thumb_wheel_invert, |b: bool| bool_text(b));
        }
        push_bool_line(&mut s, "thumb_wheel_divert", self.thumb_wheel_divert, Ghost(ls));
        proof {
            ls = ls + opt_line("thumb_wheel_divert"@, self.thumb_wheel_divert, |b: bool| bool_text(b));
        }
        push_number_line(
            &mut s,
            "force_button",
            match self.force_button {
                Some(v) => Some(v as u64),
                None => None,
            },
            Ghost(ls),
        );
        proof {
            let o = opt_line("force_button"@, self.force_button, |v: u16| dec(v as nat));
            assert(o =~= match self.force_button {
                Some(v) => seq!["force_button"@ + " = "@ + dec(v as nat)],
                None => Seq::<Seq<char>>::empty(),
            });
            ls = ls + o;
        }
        push_number_line(
            &mut s,
            "haptic_strength",
            match self.haptic_strength {
                Some(v) => Some(v as u64),
                None => None,
            },
            Ghost(ls),
        );
        proof {
            let o = opt_line("haptic_strength"@, self.haptic_strength, |v: u8| dec(v as nat));
            assert(o =~= match self.haptic_strength {
                Some(v) => seq!["haptic_strength"@ + " = "@ + dec(v as nat)],
                None => Seq::<Seq<char>>::empty(),
            });
            ls = ls + o;
            assert(ls =~= toml_lines(*self));
        }
        s
    }
}

} // verus!

verus! {

/// The position of the first `c` in `s`, or the length of `s` when it holds none.
pub open spec fn char_pos(s: Seq<char>, c: char) -> nat
    decreases s.len(),
{
    if s.len() == 0 {
        0
    } else if s[0] == c {
        0
    } else {
        1 + char_pos(s.drop_first(), c)
    }
}

/// The lines of a text, split at each line break. Unlike `str::lines` this keeps a last empty
/// line after a final break and keeps carriage returns; a trimmed line sees neither.
pub open spec fn split_lines(s: Seq<char>) -> Seq<Seq<char>>
    decreases s.len(),
{
    let k = char_pos(s, '\n');
    if k >= s.len() {
        seq![s]
    } else {
        seq![s.take(k as int)] + split_lines(s.skip(k + 1 as int))
    }
}

/// `s` with every non-overlapping occurrence of `from`, read left to right, replaced by `to`
/// (`str::replace`).
pub open spec fn replace_all(s: Seq<char>, from: Seq<char>, to: Seq<char>) -> Seq<char>
    decreases s.len(),
{
    if s.len() == 0 {
        Seq::empty()
    } else if from.len() > 0 && from.len() <= s.len() && s.take(from.len() as int) == from {
        to + replace_all(s.skip(from.len() as int), from, to)
    } else {
        seq![s[0]] + replace_all(s.drop_first(), from, to)
    }
}

/// What a string value reads as: surrounding whitespace removed, then the text between the
/// double quotes with `\"` and then `\\` unescaped.
pub open spec fn string_value(value: Seq<char>) -> Result<Seq<char>, Error> {
    let t = trim(value);
    if t.len() >= 2 && t[0] == '"' && t.last() == '"' {
        Ok(
            replace_all(
                replace_all(t.subrange(1, t.len() - 1), "\\\""@, "\""@),
                "\\\\"@,
                "\\"@,
            ),
        )
    } else {
        Err(Error::Message(Msg::ConfigString))
    }
}

/// What a boolean value reads as.
pub open spec fn bool_value(value: Seq<char>) -> Result<bool, Error> {
    if trim(value) == "true"@ {
        Ok(true)
    } else if trim(value) == "false"@ {
        Ok(false)
    } else {
        Err(Error::Message(Msg::ConfigBool))
    }
}

/// What a number value no larger than `max` reads as.
pub open spec fn number_value(value: Seq<char>, max: nat) -> Result<nat, Error> {
    match parse_unsigned(value, max) {
        Ok(n) => Ok(n),
        Err(e) => Err(Error::Number(e)),
    }
}

/// The configuration after the setting `key = value` (both trimmed) is read onto `c`.
pub open spec fn config_setting(c: SavedConfig, key: Seq<char>, value: Seq<char>) -> Result<
    SavedConfig,
    Error,
> {
    if key == "dpi"@ {
        match number_value(value, u32::MAX as nat) {
            Ok(n) => Ok(SavedConfig { dpi: Some(n as u32), ..c }),
            Err(e) => Err(e),
        }
    } else if key == "wheel_ratchet"@ {
        match string_value(value) {
            Ok(s) => match ratchet_of(s) {
                Ok(r) => Ok(SavedConfig { wheel_ratchet: Some(r), ..c }),
                Err(e) => Err(e),
            },
            Err(e) => Err(e),
        }
    } else if key == "wheel_ratchet_speed"@ {
        match number_value(value, u8::MAX as nat) {
            Ok(n) => Ok(SavedConfig { wheel_ratchet_speed: Some(n as u8), ..c }),
            Err(e) => Err(e),
        }
    } else if key == "wheel_force"@ {
        match number_value(value, u8::MAX as nat) {
            Ok(n) => Ok(SavedConfig { wheel_force: Some(n as u8), ..c }),
            Err(e) => Err(e),
        }
    } else if key == "wheel_invert"@ {
        match bool_value(value) {
            Ok(b) => Ok(SavedConfig { wheel_invert: Some(b), ..c }),
            Err(e) => Err(e),
        }
    } else if key == "wheel_resolution"@ {
        match bool_value(value) {
            Ok(b) => Ok(SavedConfig { wheel_resolution: Some(b), ..c }),
            Err(e) => Err(e),
        }
    } else if key == "wheel_divert"@ {
        match bool_value(value) {
            Ok(b) => Ok(SavedConfig { wheel_divert: Some(b), ..c }),
            Err(e) => Err(e),
        }
    } else if key == "thumb_wheel_invert"@ {
        match bool_value(value) {
            Ok(b) => Ok(SavedConfig { thumb_wheel_invert: Some(b), ..c }),
            Err(e) => Err(e),
        }
    } else if key == "thumb_wheel_divert"@ {
        match bool_value(value) {
            Ok(b) => Ok(SavedConfig { thumb_wheel_divert: Some(b), ..c }),
            Err(e) => Err(e),
        }
    } else if key == "force_button"@ {
        match number_value(value, u16::MAX as nat) {
            Ok(n) => Ok(SavedConfig { force_button: Some(n as u16), ..c }),
            Err(e) => Err(e),
        }
    } else if key == "haptic_strength"@ {
        match number_value(value, u8::MAX as nat) {
            Ok(n) => Ok(SavedConfig { haptic_strength: Some(n as u8), ..c }),
            Err(e) => Err(e),
        }
    } else {
        Ok(c)
    }
}

/// The configuration after one line of the file is read onto `c`: blank lines and `#` comments
/// change nothing, other lines must hold `=`, split at the first one.
pub open spec fn config_line(c: SavedConfig, line: Seq<char>) -> Result<SavedConfig, Error> {
    let t = trim(line);
    if t.len() == 0 || t[0] == '#' {
        Ok(c)
    } else {
        let k = char_pos(t, '=');
        if k >= t.len() {
            Err(Error::Message(Msg::ConfigLine))
        } else {
            config_setting(c, trim(t.take(k as int)), trim(t.skip(k + 1 as int)))
        }
    }
}

/// The configuration after the lines are read onto `c` in order; the first failing line decides
/// the error.
pub open spec fn config_lines(c: SavedConfig, ls: Seq<Seq<char>>) -> Result<SavedConfig, Error>
    decreases ls.len(),
{
    if ls.len() == 0 {
        Ok(c)
    } else {
        match config_line(c, ls[0]) {
            Ok(c2) => config_lines(c2, ls.drop_first()),
            Err(e) => Err(e),
        }
    }
}

/// What a config file's text reads as.
pub open spec fn parsed_config(data: Seq<char>) -> Result<SavedConfig, Error> {
    config_lines(empty_config(), split_lines(data))
}

proof fn lemma_char_pos(s: Seq<char>, c: char, k: int)
    requires
        0 <= k <= s.len(),
        forall|i: int| 0 <= i < k ==> s[i] != c,
        k == s.len() || s[k] == c,
    ensures
        char_pos(s, c) == k,
    decreases k,
{
    if k > 0 {
        lemma_char_pos(s.drop_first(), c, k - 1);
    }
}

/// The position of the first `c` in `s`.
fn find_char(s: &[char], c: char) -> (k: usize)
    ensures
        k == char_pos(s@, c),
        k <= s.len(),
{
    let mut k: usize = 0;
    while k < s.len() && s[k] != c
        invariant
            k <= s.len(),
            forall|i: int| 0 <= i < k ==> s@[i] != c,
        decreases s.len() - k,
    {
        k = k + 1;
    }
    proof {
        lemma_char_pos(s@, c, k as int);
    }
    k
}

/// `s` with every `a b` pair, read left to right, replaced by `r`.
fn replace_pair(s: &[char], a: char, b: char, r: char) -> (out: Vec<char>)
    ensures
        out@ == replace_all(s@, seq![a, b], seq![r]),
{
    let ghost from = seq![a, b];
    let ghost to = seq![r];
    let mut out: Vec<char> = Vec::new();
    let mut i: usize = 0;
    assert(s@.skip(0) =~= s@);
    while i < s.len()
        invariant
            i <= s.len(),
            from == seq![a, b],
            to == seq![r],
            replace_all(s@, from, to) == out@ + replace_all(s@.skip(i as int), from, to),
        decreases s.len() - i,
    {
        let ghost rest = s@.skip(i as int);
        if i + 1 < s.len() && s[i] == a && s[i + 1] == b {
            proof {
                assert(rest.take(2) =~= from);
                assert(rest.skip(2) =~= s@.skip(i + 2));
                assert(out@.push(r) + replace_all(s@.skip(i + 2), from, to) =~= out@ + (to
                    + replace_all(rest.skip(2), from, to)));
            }
            out.push(r);
            i = i + 2;
        } else {
            proof {
                if from.len() <= rest.len() {
                    assert(rest.take(2)[0] == s@[i as int]);
                    assert(rest.take(2)[1] == s@[i + 1]);
                    assert(rest.take(2) != from);
                }
                assert(rest.drop_first() =~= s@.skip(i + 1));
                assert(out@.push(s[i as int]) + replace_all(s@.skip(i + 1), from, to) =~= out@
                    + (seq![rest[0]] + replace_all(rest.drop_first(), from, to)));
            }
            out.push(s[i]);
            i = i + 1;
        }
    }
    assert(s@.skip(s.len() as int) =~= Seq::<char>::empty());
    assert(out@ + Seq::<char>::empty() =~= out@);
    out
}

/// Reads a double-quoted string value.
fn parse_string(value: &[char]) -> (r: Result<Vec<char>, Error>)
    ensures
        match string_value(value@) {
            Ok(s) => r matches Ok(v) && v@ == s,
            Err(e) => r == Err::<Vec<char>, Error>(e),
        },
{
    let t = trim_chars(value);
    if !(t.len() >= 2 && t[0] == '"' && t[t.len() - 1] == '"') {
        return Err(Error::Message(Msg::ConfigString));
    }
    let inner = sub_chars(t.as_slice(), 1, t.len() - 1);
    let once = replace_pair(inner.as_slice(), '\\', '"', '"');
    let twice = replace_pair(once.as_slice(), '\\', '\\', '\\');
    proof {
        reveal_strlit("\\\"");
        reveal_strlit("\"");
        reveal_strlit("\\\\");
        reveal_strlit("\\");
        assert("\\\""@ =~= seq!['\\', '"']);
        assert("\""@ =~= seq!['"']);
        assert("\\\\"@ =~= seq!['\\', '\\']);
        assert("\\"@ =~= seq!['\\']);
    }
    Ok(twice)
}

/// Reads a boolean value.
fn parse_bool(value: &[char]) -> (r: Result<bool, Error>)
    ensures
        r == bool_value(value@),
{
    let t = trim_chars(value);
    if chars_eq(t.as_slice(), "true") {
        Ok(true)
    } else if chars_eq(t.as_slice(), "false") {
        Ok(false)
    } else {
        Err(Error::Message(Msg::ConfigBool))
    }
}

/// Reads a number value no larger than `max`.
fn parse_number(value: &[char], max: u64) -> (r: Result<u64, Error>)
    requires
        max <= u32::MAX,
    ensures
        match number_value(value@, max as nat) {
            Ok(n) => n <= max && r == Ok::<u64, Error>(n as u64),
            Err(e) => r == Err::<u64, Error>(e),
        },
{
    match parse_unsigned_chars(value, max) {
        Ok(n) => Ok(n),
        Err(e) => Err(Error::Number(e)),
    }
}

/// Reads the setting `key = value` onto the configuration.
fn apply_setting(config: SavedConfig, key: &[char], value: &[char]) -> (r: Result<
    SavedConfig,
    Error,
>)
    ensures
        r == config_setting(config, key@, value@),
{
    let mut c = config;
    if chars_eq(key, "dpi") {
        let n = parse_number(value, 0xffff_ffff)?;
        c.dpi = Some(n as u32);
    } else if chars_eq(key, "wheel_ratchet") {
        let s = parse_string(value)?;
        let r = WheelRatchet::parse(s.as_slice())?;
        c.wheel_ratchet = Some(r);
    } else if chars_eq(key, "wheel_ratchet_speed") {
        let n = parse_number(value, 0xff)?;
        c.wheel_ratchet_speed = Some(n as u8);
    } else if chars_eq(key, "wheel_force") {
        let n = parse_number(value, 0xff)?;
        c.wheel_force = Some(n as u8);
    } else if chars_eq(key, "wheel_invert") {
        c.wheel_invert = Some(parse_bool(value)?);
    } else if chars_eq(key, "wheel_resolution") {
        c.wheel_resolution = Some(parse_bool(value)?);
    } else if chars_eq(key, "wheel_divert") {
        c.wheel_divert = Some(parse_bool(value)?);
    } else if chars_eq(key, "thumb_wheel_invert") {
        c.thumb_wheel_invert = Some(parse_bool(value)?);
    } else if chars_eq(key, "thumb_wheel_divert") {
        c.thumb_wheel_divert = Some(parse_bool(value)?);
    } else if chars_eq(key, "force_button") {
        let n = parse_number(value, 0xffff)?;
        c.force_button = Some(n as u16);
    } else if chars_eq(key, "haptic_strength") {
        let n = parse_number(value, 0xff)?;
        c.haptic_strength = Some(n as u8);
    }
    Ok(c)
}

/// Reads one line of the file onto the configuration.
fn apply_line(config: SavedConfig, line: &[char]) -> (r: Result<SavedConfig, Error>)
    ensures
        r == config_line(config, line@),
{
    let t = trim_chars(line);
    if t.len() == 0 || t[0] == '#' {
        return Ok(config);
    }
    let k = find_char(t.as_slice(), '=');
    if k >= t.len() {
        return Err(Error::Message(Msg::ConfigLine));
    }
    let key = trim_chars(sub_chars(t.as_slice(), 0, k).as_slice());
    let value = trim_chars(sub_chars(t.as_slice(), k + 1, t.len()).as_slice());
    proof {
        assert(t@.subrange(0, k as int) =~= t@.take(k as int));
        assert(t@.subrange(k + 1, t@.len() as int) =~= t@.skip(k + 1));
    }
    apply_setting(config, key.as_slice(), value.as_slice())
}

/// Reads a config file's text. Lines are `key = value`, blank, or `#` comments; unknown keys are
/// ignored, and the first malformed line or value is the error.
pub fn parse(data: &str) -> (r: Result<SavedConfig, Error>)
    ensures
        r == parsed_config(data@),
{
    let chars = chars_of(data);
    let n = chars.len();
    let mut config = SavedConfig::default();
    let mut j: usize = 0;
    assert(chars@.skip(0) =~= chars@);
    loop
        invariant
            j <= n,
            n == chars@.len(),
            chars@ == data@,
            parsed_config(data@) == config_lines(config, split_lines(chars@.skip(j as int))),
        decreases n - j,
    {
        let ghost rest = chars@.skip(j as int);
        let mut k: usize = j;
        while k < n && chars[k] != '\n'
            invariant
                j <= k <= n,
                n == chars@.len(),
                forall|i: int| j <= i < k ==> chars@[i] != '\n',
            decreases n - k,
        {
            k = k + 1;
        }
        proof {
            lemma_char_pos(rest, '\n', k - j);
        }
        let line = sub_chars(chars.as_slice(), j, k);
        let ghost ls = split_lines(rest);
        proof {
            if k < n {
                assert(rest.take(k - j) =~= line@);
                assert(rest.skip(k - j + 1) =~= chars@.skip(k + 1));
                assert(ls[0] == line@);
                assert(ls.drop_first() =~= split_lines(chars@.skip(k + 1)));
            } else {
                assert(rest =~= line@);
                assert(ls =~= seq![line@]);
                assert(ls.drop_first() =~= Seq::<Seq<char>>::empty());
            }
        }
        match apply_line(config, line.as_slice()) {
            Err(e) => {
                return Err(e);
            },
            Ok(c2) => {
                config = c2;
            },
        }
        if k == n {
            assert(config_lines(config, Seq::<Seq<char>>::empty()) == Ok::<SavedConfig, Error>(config));
            return Ok(config);
        }
        j = k + 1;
    }
}

} // verus!

verus! {

/// Whether a line holds no line break.
pub open spec fn no_break(l: Seq<char>) -> bool {
    forall|j: int| 0 <= j < l.len() ==> l[j] != '\n'
}

/// Whether a text is non-empty and neither starts nor ends with whitespace.
pub open spec fn plain_edges(s: Seq<char>) -> bool {
    s.len() > 0 && !is_ws(s[0]) && !is_ws(s.last())
}

proof fn lemma_lines_prepend(l: Seq<char>, rest: Seq<Seq<char>>)
    ensures
        lines_text(seq![l] + rest) == l + "\n"@ + lines_text(rest),
    decreases rest.len(),
{
    if rest.len() == 0 {
        assert(seq![l] + rest =~= seq![l]);
        assert(seq![l].drop_last() =~= Seq::<Seq<char>>::empty());
        assert(lines_text(rest) =~= Seq::<char>::empty());
        assert(lines_text(seq![l]) == lines_text(seq![l].drop_last()) + l + "\n"@);
        assert(l + "\n"@ + lines_text(rest) =~= Seq::<char>::empty() + l + "\n"@);
    } else {
        lemma_lines_prepend(l, rest.drop_last());
        assert((seq![l] + rest).drop_last() =~= seq![l] + rest.drop_last());
        assert((seq![l] + rest).last() == rest.last());
        assert(lines_text(seq![l] + rest) == lines_text((seq![l] + rest).drop_last()) + (seq![l]
            + rest).last() + "\n"@);
        assert(lines_text(rest) == lines_text(rest.drop_last()) + rest.last() + "\n"@);
        assert(l + "\n"@ + lines_text(rest) =~= l + "\n"@ + lines_text(rest.drop_last())
            + rest.last() + "\n"@);
    }
}

proof fn lemma_split_lines_text(ls: Seq<Seq<char>>)
    requires
        forall|i: int| 0 <= i < ls.len() ==> no_break(#[trigger] ls[i]),
    ensures
        split_lines(lines_text(ls)) == ls.push(Seq::<char>::empty()),
    decreases ls.len(),
{
    reveal_strlit("\n");
    if ls.len() == 0 {
        assert(lines_text(ls) =~= Seq::<char>::empty());
        assert(split_lines(Seq::<char>::empty()) =~= seq![Seq::<char>::empty()]);
        assert(ls.push(Seq::<char>::empty()) =~= seq![Seq::<char>::empty()]);
    } else {
        let l = ls[0];
        let rest = ls.drop_first();
        assert(ls =~= seq![l] + rest);
        lemma_lines_prepend(l, rest);
        assert forall|i: int| 0 <= i < rest.len() implies no_break(#[trigger] rest[i]) by {
            assert(rest[i] == ls[i + 1]);
        }
        lemma_split_lines_text(rest);
        let s = lines_text(ls);
        assert(no_break(ls[0]));
        assert(s =~= l + seq!['\n'] + lines_text(rest));
        lemma_char_pos(s, '\n', l.len() as int);
        assert(s.take(l.len() as int) =~= l);
        assert(s.skip(l.len() + 1 as int) =~= lines_text(rest));
        assert(ls.push(Seq::<char>::empty()) =~= seq![l] + rest.push(Seq::<char>::empty()));
    }
}

proof fn lemma_config_lines_concat(c: SavedConfig, a: Seq<Seq<char>>, b: Seq<Seq<char>>)
    ensures
        config_lines(c, a + b) == match config_lines(c, a) {
            Ok(c2) => config_lines(c2, b),
            Err(e) => Err(e),
        },
    decreases a.len(),
{
    if a.len() == 0 {
        assert(a + b =~= b);
    } else {
        assert((a + b)[0] == a[0]);
        assert((a + b).drop_first() =~= a.drop_first() + b);
        match config_line(c, a[0]) {
            Ok(c2) => lemma_config_lines_concat(c2, a.drop_first(), b),
            Err(e) => {},
        }
    }
}

proof fn lemma_trim_plain(s: Seq<char>)
    requires
        plain_edges(s),
    ensures
        trim(s) == s,
{
}

/// A `key = value` line reads as the setting of its key and value.
proof fn lemma_setting_line(c: SavedConfig, key: Seq<char>, vt: Seq<char>)
    requires
        plain_edges(key),
        plain_edges(vt),
        key[0] != '#',
        forall|j: int| 0 <= j < key.len() ==> key[j] != '=',
    ensures
        config_line(c, key + " = "@ + vt) == config_setting(c, key, vt),
{
    reveal_strlit(" = ");
    let line = key + " = "@ + vt;
    assert(is_ws(' '));
    assert(line[0] == key[0]);
    assert(line.last() == vt.last());
    lemma_trim_plain(line);
    lemma_char_pos(line, '=', key.len() + 1 as int);
    let k = key.len() + 1 as int;
    assert(line.take(k) =~= key.push(' '));
    assert(line.skip(k + 1) =~= seq![' '] + vt);
    assert(key.push(' ').drop_last() =~= key);
    assert(trim_start(key.push(' ')) == key.push(' '));
    assert(trim_end(key.push(' ')) == trim_end(key));
    assert((seq![' '] + vt).drop_first() =~= vt);
    assert(trim_start(seq![' '] + vt) == trim_start(vt));
    lemma_trim_plain(key);
    lemma_trim_plain(vt);
}

proof fn lemma_single_line(c: SavedConfig, l: Seq<char>)
    ensures
        config_lines(c, seq![l]) == config_line(c, l),
{
    assert(seq![l].drop_first() =~= Seq::<Seq<char>>::empty());
    match config_line(c, l) {
        Ok(c2) => {
            assert(config_lines(c2, Seq::<Seq<char>>::empty()) == Ok::<SavedConfig, Error>(c2));
        },
        Err(e) => {},
    }
}

/// The keys differ from one another.
proof fn lemma_keys_differ()
    ensures
        "dpi"@.len() == 3,
        "wheel_ratchet"@.len() == 13,
        "wheel_ratchet_speed"@.len() == 19,
        "wheel_force"@.len() == 11,
        "wheel_invert"@.len() == 12,
        "wheel_resolution"@.len() == 16,
        "wheel_divert"@.len() == 12,
        "thumb_wheel_invert"@.len() == 18,
        "thumb_wheel_divert"@.len() == 18,
        "force_button"@.len() == 12,
        "haptic_strength"@.len() == 15,
        "wheel_invert"@ != "wheel_divert"@,
        "wheel_invert"@ != "force_button"@,
        "wheel_divert"@ != "force_button"@,
        "thumb_wheel_invert"@ != "thumb_wheel_divert"@,
{
    reveal_strlit("dpi");
    reveal_strlit("wheel_ratchet");
    reveal_strlit("wheel_ratchet_speed");
    reveal_strlit("wheel_force");
    reveal_strlit("wheel_invert");
    reveal_strlit("wheel_resolution");
    reveal_strlit("wheel_divert");
    reveal_strlit("thumb_wheel_invert");
    reveal_strlit("thumb_wheel_divert");
    reveal_strlit("force_button");
    reveal_strlit("haptic_strength");
    assert("wheel_invert"@[6] != "wheel_divert"@[6]);
    assert("wheel_invert"@[0] != "force_button"@[0]);
    assert("wheel_divert"@[0] != "force_button"@[0]);
    assert("thumb_wheel_invert"@[12] != "thumb_wheel_divert"@[12]);
}

/// Whether a key can stand at the start of a setting line.
pub open spec fn plain_key(key: Seq<char>) -> bool {
    &&& plain_edges(key)
    &&& key[0] != '#'
    &&& forall|j: int| 0 <= j < key.len() ==> key[j] != '=' && key[j] != '\n'
}

proof fn lemma_number_value(n: nat, max: nat)
    requires
        n <= max,
    ensures
        number_value(dec(n), max) == Ok::<nat, Error>(n),
        plain_edges(dec(n)),
        no_break(dec(n)),
{
    crate::text::lemma_parse_dec(n, max);
    crate::text::lemma_dec_first_is_digit(n);
    assert(is_digit(dec(n).last()));
    assert forall|j: int| 0 <= j < dec(n).len() implies dec(n)[j] != '\n' by {
        assert(is_digit(dec(n)[j]));
    }
}

proof fn lemma_bool_value(b: bool)
    ensures
        bool_value(bool_text(b)) == Ok::<bool, Error>(b),
        plain_edges(bool_text(b)),
        no_break(bool_text(b)),
{
    reveal_strlit("true");
    reveal_strlit("false");
    lemma_trim_plain(bool_text(b));
}

proof fn lemma_replace_absent(s: Seq<char>, from: Seq<char>, to: Seq<char>)
    requires
        from.len() > 0,
        forall|j: int| 0 <= j < s.len() ==> s[j] != from[0],
    ensures
        replace_all(s, from, to) == s,
    decreases s.len(),
{
    if s.len() > 0 {
        if from.len() <= s.len() {
            assert(s.take(from.len() as int)[0] != from[0]);
        }
        lemma_replace_absent(s.drop_first(), from, to);
        assert(seq![s[0]] + s.drop_first() =~= s);
    }
}

proof fn lemma_quote_escape_plain(s: Seq<char>)
    requires
        forall|j: int| 0 <= j < s.len() ==> s[j] != '\\' && s[j] != '"',
    ensures
        quote_escape(s) == s,
    decreases s.len(),
{
    if s.len() > 0 {
        lemma_quote_escape_plain(s.drop_last());
        assert(s.drop_last().push(s.last()) =~= s);
    }
}

proof fn lemma_ratchet_value(r: WheelRatchet)
    ensures
        string_value(quoted(ratchet_name(r))) == Ok::<Seq<char>, Error>(ratchet_name(r)),
        ratchet_of(ratchet_name(r)) == Ok::<WheelRatchet, Error>(r),
        plain_edges(quoted(ratchet_name(r))),
        no_break(quoted(ratchet_name(r))),
{
    reveal_strlit("free");
    reveal_strlit("ratchet");
    reveal_strlit("\"");
    reveal_strlit("\\\"");
    reveal_strlit("\\\\");
    let name = ratchet_name(r);
    lemma_quote_escape_plain(name);
    let q = quoted(name);
    assert(q =~= seq!['"'] + name + seq!['"']);
    assert(is_ws('"') == false);
    lemma_trim_plain(q);
    assert(q.subrange(1, q.len() - 1) =~= name);
    lemma_replace_absent(name, "\\\""@, "\""@);
    lemma_replace_absent(name, "\\\\"@, "\\"@);
    lemma_trim_plain(name);
}

} // verus!

verus! {

/// Whether no line of `ls` holds a line break.
pub open spec fn all_no_break(ls: Seq<Seq<char>>) -> bool {
    forall|i: int| 0 <= i < ls.len() ==> no_break(#[trigger] ls[i])
}

proof fn lemma_all_no_break_concat(a: Seq<Seq<char>>, b: Seq<Seq<char>>)
    requires
        all_no_break(a),
        all_no_break(b),
    ensures
        all_no_break(a + b),
{
    assert forall|i: int| 0 <= i < (a + b).len() implies no_break(#[trigger] (a + b)[i]) by {
        if i < a.len() {
            assert((a + b)[i] == a[i]);
        } else {
            assert((a + b)[i] == b[i - a.len()]);
        }
    }
}

/// The comment lines and the blank line at the head of a saved file change nothing.
proof fn lemma_header_lines(c: SavedConfig)
    ensures
        config_lines(c, seq![HEADER_SAVED@, HEADER_UNKNOWN@, Seq::<char>::empty()])
            == Ok::<SavedConfig, Error>(c),
        all_no_break(seq![HEADER_SAVED@, HEADER_UNKNOWN@, Seq::<char>::empty()]),
{
    reveal_strlit("# Saved by mx4. Adjusting this file by hand is supported.");
    reveal_strlit("# Unsupported keys are ignored.");
    let h = seq![HEADER_SAVED@, HEADER_UNKNOWN@, Seq::<char>::empty()];
    lemma_trim_plain(HEADER_SAVED@);
    lemma_trim_plain(HEADER_UNKNOWN@);
    assert(trim(Seq::<char>::empty()) =~= Seq::<char>::empty());
    assert(h.drop_first() =~= seq![HEADER_UNKNOWN@, Seq::<char>::empty()]);
    assert(h.drop_first().drop_first() =~= seq![Seq::<char>::empty()]);
    lemma_single_line(c, Seq::<char>::empty());
    assert(config_line(c, Seq::<char>::empty()) == Ok::<SavedConfig, Error>(c));
    assert(config_line(c, HEADER_SAVED@) == Ok::<SavedConfig, Error>(c));
    assert(config_line(c, HEADER_UNKNOWN@) == Ok::<SavedConfig, Error>(c));
    let h1 = h.drop_first();
    assert(h1[0] == HEADER_UNKNOWN@);
    assert(config_lines(c, h1) == config_lines(c, h1.drop_first()));
    assert(h[0] == HEADER_SAVED@);
    assert(config_lines(c, h) == config_lines(c, h1));
}

/// A `key = value` line, with its key and value plain, reads as that one setting.
proof fn lemma_setting_chunk(c: SavedConfig, key: Seq<char>, vt: Seq<char>)
    requires
        plain_key(key),
        plain_edges(vt),
        no_break(vt),
    ensures
        config_lines(c, seq![key + " = "@ + vt]) == config_setting(c, key, vt),
        no_break(key + " = "@ + vt),
{
    lemma_setting_line(c, key, vt);
    lemma_single_line(c, key + " = "@ + vt);
    reveal_strlit(" = ");
    let line = key + " = "@ + vt;
    assert forall|j: int| 0 <= j < line.len() implies line[j] != '\n' by {
        if j >= key.len() + 3 {
            assert(line[j] == vt[j - key.len() - 3]);
        }
    }
}

proof fn lemma_dpi_chunk(c: SavedConfig, v: Option<u32>)
    requires
        c.dpi is None,
    ensures
        config_lines(c, opt_line("dpi"@, v, |v: u32| dec(v as nat))) == Ok::<SavedConfig, Error>(SavedConfig { dpi: v, ..c }),
        all_no_break(opt_line("dpi"@, v, |v: u32| dec(v as nat))),
{
    reveal_strlit("dpi");
    lemma_keys_differ();
    match v {
        Some(n) => {
            lemma_number_value(n as nat, u32::MAX as nat);
            lemma_setting_chunk(c, "dpi"@, dec(n as nat));
            assert(opt_line("dpi"@, v, |v: u32| dec(v as nat)) =~= seq!["dpi"@ + " = "@ + dec(n as nat)]);
        },
        None => {
            assert(config_lines(c, Seq::<Seq<char>>::empty()) == Ok::<SavedConfig, Error>(c));
        },
    }
}

proof fn lemma_wheel_ratchet_chunk(c: SavedConfig, v: Option<WheelRatchet>)
    requires
        c.wheel_ratchet is None,
    ensures
        config_lines(c, opt_line("wheel_ratchet"@, v, |r: WheelRatchet| quoted(ratchet_name(r)))) == Ok::<SavedConfig, Error>(SavedConfig { wheel_ratchet: v, ..c }),
        all_no_break(opt_line("wheel_ratchet"@, v, |r: WheelRatchet| quoted(ratchet_name(r)))),
{
    reveal_strlit("wheel_ratchet");
    lemma_keys_differ();
    match v {
        Some(n) => {
            lemma_ratchet_value(n);
            lemma_setting_chunk(c, "wheel_ratchet"@, quoted(ratchet_name(n)));
            assert(opt_line("wheel_ratchet"@, v, |r: WheelRatchet| quoted(ratchet_name(r))) =~= seq!["wheel_ratchet"@ + " = "@ + quoted(ratchet_name(n))]);
        },
        None => {
            assert(config_lines(c, Seq::<Seq<char>>::empty()) == Ok::<SavedConfig, Error>(c));
        },
    }
}

proof fn lemma_wheel_ratchet_speed_chunk(c: SavedConfig, v: Option<u8>)
    requires
        c.wheel_ratchet_speed is None,
    ensures
        config_lines(c, opt_line("wheel_ratchet_speed"@, v, |v: u8| dec(v as nat))) == Ok::<SavedConfig, Error>(SavedConfig { wheel_ratchet_speed: v, ..c }),
        all_no_break(opt_line("wheel_ratchet_speed"@, v, |v: u8| dec(v as nat))),
{
    reveal_strlit("wheel_ratchet_speed");
    lemma_keys_differ();
    match v {
        Some(n) => {
            lemma_number_value(n as nat, u8::MAX as nat);
            lemma_setting_chunk(c, "wheel_ratchet_speed"@, dec(n as nat));
            assert(opt_line("wheel_ratchet_speed"@, v, |v: u8| dec(v as nat)) =~= seq!["wheel_ratchet_speed"@ + " = "@ + dec(n as nat)]);
        },
        None => {
            assert(config_lines(c, Seq::<Seq<char>>::empty()) == Ok::<SavedConfig, Error>(c));
        },
    }
}

proof fn lemma_wheel_force_chunk(c: SavedConfig, v: Option<u8>)
    requires
        c.wheel_force is None,
    ensures
        config_lines(c, opt_line("wheel_force"@, v, |v: u8| dec(v as nat))) == Ok::<SavedConfig, Error>(SavedConfig { wheel_force: v, ..c }),
        all_no_break(opt_line("wheel_force"@, v, |v: u8| dec(v as nat))),
{
    reveal_strlit("wheel_force");
    lemma_keys_differ();
    match v {
        Some(n) => {
            lemma_number_value(n as nat, u8::MAX as nat);
            lemma_setting_chunk(c, "wheel_force"@, dec(n as nat));
            assert(opt_line("wheel_force"@, v, |v: u8| dec(v as nat)) =~= seq!["wheel_force"@ + " = "@ + dec(n as nat)]);
        },
        None => {
            assert(config_lines(c, Seq::<Seq<char>>::empty()) == Ok::<SavedConfig, Error>(c));
        },
    }
}

proof fn lemma_wheel_invert_chunk(c: SavedConfig, v: Option<bool>)
    requires
        c.wheel_invert is None,
    ensures
        config_lines(c, opt_line("wheel_invert"@, v, |b: bool| bool_text(b))) == Ok::<SavedConfig, Error>(SavedConfig { wheel_invert: v, ..c }),
        all_no_break(opt_line("wheel_invert"@, v, |b: bool| bool_text(b))),
{
    reveal_strlit("wheel_invert");
    lemma_keys_differ();
    match v {
        Some(n) => {
            lemma_bool_value(n);
            lemma_setting_chunk(c, "wheel_invert"@, bool_text(n));
            assert(opt_line("wheel_invert"@, v, |b: bool| bool_text(b)) =~= seq!["wheel_invert"@ + " = "@ + bool_text(n)]);
        },
        None => {
            assert(config_lines(c, Seq::<Seq<char>>::empty()) == Ok::<SavedConfig, Error>(c));
        },
    }
}

proof fn lemma_wheel_resolution_chunk(c: SavedConfig, v: Option<bool>)
    requires
        c.wheel_resolution is None,
    ensures
        config_lines(c, opt_line("wheel_resolution"@, v, |b: bool| bool_text(b))) == Ok::<SavedConfig, Error>(SavedConfig { wheel_resolution: v, ..c }),
        all_no_break(opt_line("wheel_resolution"@, v, |b: bool| bool_text(b))),
{
    reveal_strlit("wheel_resolution");
    lemma_keys_differ();
    match v {
        Some(n) => {
            lemma_bool_value(n);
            lemma_setting_chunk(c, "wheel_resolution"@, bool_text(n));
            assert(opt_line("wheel_resolution"@, v, |b: bool| bool_text(b)) =~= seq!["wheel_resolution"@ + " = "@ + bool_text(n)]);
        },
        None => {
            assert(config_lines(c, Seq::<Seq<char>>::empty()) == Ok::<SavedConfig, Error>(c));
        },
    }
}

proof fn lemma_wheel_divert_chunk(c: SavedConfig, v: Option<bool>)
    requires
        c.wheel_divert is None,
    ensures
        config_lines(c, opt_line("wheel_divert"@, v, |b: bool| bool_text(b))) == Ok::<SavedConfig, Error>(SavedConfig { wheel_divert: v, ..c }),
        all_no_break(opt_line("wheel_divert"@, v, |b: bool| bool_text(b))),
{
    reveal_strlit("wheel_divert");
    lemma_keys_differ();
    match v {
        Some(n) => {
            lemma_bool_value(n);
            lemma_setting_chunk(c, "wheel_divert"@, bool_text(n));
            assert(opt_line("wheel_divert"@, v, |b: bool| bool_text(b)) =~= seq!["wheel_divert"@ + " = "@ + bool_text(n)]);
        },
        None => {
            assert(config_lines(c, Seq::<Seq<char>>::empty()) == Ok::<SavedConfig, Error>(c));
        },
    }
}

proof fn lemma_thumb_wheel_invert_chunk(c: SavedConfig, v: Option<bool>)
    requires
        c.thumb_wheel_invert is None,
    ensures
        config_lines(c, opt_line("thumb_wheel_invert"@, v, |b: bool| bool_text(b))) == Ok::<SavedConfig, Error>(SavedConfig { thumb_wheel_invert: v, ..c }),
        all_no_break(opt_line("thumb_wheel_invert"@, v, |b: bool| bool_text(b))),
{
    reveal_strlit("thumb_wheel_invert");
    lemma_keys_differ();
    match v {
        Some(n) => {
            lemma_bool_value(n);
            lemma_setting_chunk(c, "thumb_wheel_invert"@, bool_text(n));
            assert(opt_line("thumb_wheel_invert"@, v, |b: bool| bool_text(b)) =~= seq!["thumb_wheel_invert"@ + " = "@ + bool_text(n)]);
        },
        None => {
            assert(config_lines(c, Seq::<Seq<char>>::empty()) == Ok::<SavedConfig, Error>(c));
        },
    }
}

proof fn lemma_thumb_wheel_divert_chunk(c: SavedConfig, v: Option<bool>)
    requires
        c.thumb_wheel_divert is None,
    ensures
        config_lines(c, opt_line("thumb_wheel_divert"@, v, |b: bool| bool_text(b))) == Ok::<SavedConfig, Error>(SavedConfig { thumb_wheel_divert: v, ..c }),
        all_no_break(opt_line("thumb_wheel_divert"@, v, |b: bool| bool_text(b))),
{
    reveal_strlit("thumb_wheel_divert");
    lemma_keys_differ();
    match v {
        Some(n) => {
            lemma_bool_value(n);
            lemma_setting_chunk(c, "thumb_wheel_divert"@, bool_text(n));
            assert(opt_line("thumb_wheel_divert"@, v, |b: bool| bool_text(b)) =~= seq!["thumb_wheel_divert"@ + " = "@ + bool_text(n)]);
        },
        None => {
            assert(config_lines(c, Seq::<Seq<char>>::empty()) == Ok::<SavedConfig, Error>(c));
        },
    }
}

proof fn lemma_force_button_chunk(c: SavedConfig, v: Option<u16>)
    requires
        c.force_button is None,
    ensures
        config_lines(c, opt_line("force_button"@, v, |v: u16| dec(v as nat))) == Ok::<SavedConfig, Error>(SavedConfig { force_button: v, ..c }),
        all_no_break(opt_line("force_button"@, v, |v: u16| dec(v as nat))),
{
    reveal_strlit("force_button");
    lemma_keys_differ();
    match v {
        Some(n) => {
            lemma_number_value(n as nat, u16::MAX as nat);
            lemma_setting_chunk(c, "force_button"@, dec(n as nat));
            assert(opt_line("force_button"@, v, |v: u16| dec(v as nat)) =~= seq!["force_button"@ + " = "@ + dec(n as nat)]);
        },
        None => {
            assert(config_lines(c, Seq::<Seq<char>>::empty()) == Ok::<SavedConfig, Error>(c));
        },
    }
}

proof fn lemma_haptic_strength_chunk(c: SavedConfig, v: Option<u8>)
    requires
        c.haptic_strength is None,
    ensures
        config_lines(c, opt_line("haptic_strength"@, v, |v: u8| dec(v as nat))) == Ok::<SavedConfig, Error>(SavedConfig { haptic_strength: v, ..c }),
        all_no_break(opt_line("haptic_strength"@, v, |v: u8| dec(v as nat))),
{
    reveal_strlit("haptic_strength");
    lemma_keys_differ();
    match v {
        Some(n) => {
            lemma_number_value(n as nat, u8::MAX as nat);
            lemma_setting_chunk(c, "haptic_strength"@, dec(n as nat));
            assert(opt_line("haptic_strength"@, v, |v: u8| dec(v as nat)) =~= seq!["haptic_strength"@ + " = "@ + dec(n as nat)]);
        },
        None => {
            assert(config_lines(c, Seq::<Seq<char>>::empty()) == Ok::<SavedConfig, Error>(c));
        },
    }
}

/// Saving and loading agree: the text written for a configuration reads back as exactly that
/// configuration.
pub proof fn lemma_parse_to_toml(c: SavedConfig)
    ensures
        parsed_config(toml_text(c)) == Ok::<SavedConfig, Error>(c),
{
    let h = seq![HEADER_SAVED@, HEADER_UNKNOWN@, Seq::<char>::empty()];
    lemma_header_lines(empty_config());
    let d0 = opt_line("dpi"@, c.dpi, |v: u32| dec(v as nat));
    let d1 = opt_line("wheel_ratchet"@, c.wheel_ratchet, |r: WheelRatchet| quoted(ratchet_name(r)));
    let d2 = opt_line("wheel_ratchet_speed"@, c.wheel_ratchet_speed, |v: u8| dec(v as nat));
    let d3 = opt_line("wheel_force"@, c.wheel_force, |v: u8| dec(v as nat));
    let d4 = opt_line("wheel_invert"@, c.wheel_invert, |b: bool| bool_text(b));
    let d5 = opt_line("wheel_resolution"@, c.wheel_resolution, |b: bool| bool_text(b));
    let d6 = opt_line("wheel_divert"@, c.wheel_divert, |b: bool| bool_text(b));
    let d7 = opt_line("thumb_wheel_invert"@, c.thumb_wheel_invert, |b: bool| bool_text(b));
    let d8 = opt_line("thumb_wheel_divert"@, c.thumb_wheel_divert, |b: bool| bool_text(b));
    let d9 = opt_line("force_button"@, c.force_button, |v: u16| dec(v as nat));
    let d10 = opt_line("haptic_strength"@, c.haptic_strength, |v: u8| dec(v as nat));
    let c0 = SavedConfig { dpi: c.dpi, ..empty_config() };
    lemma_dpi_chunk(empty_config(), c.dpi);
    lemma_config_lines_concat(empty_config(), h, d0);
    lemma_all_no_break_concat(h, d0);
    let x0 = h + d0;
    let c1 = SavedConfig { wheel_ratchet: c.wheel_ratchet, ..c0 };
    lemma_wheel_ratchet_chunk(c0, c.wheel_ratchet);
    lemma_config_lines_concat(empty_config(), x0, d1);
    lemma_all_no_break_concat(x0, d1);
    let x1 = x0 + d1;
    let c2 = SavedConfig { wheel_ratchet_speed: c.wheel_ratchet_speed, ..c1 };
    lemma_wheel_ratchet_speed_chunk(c1, c.wheel_ratchet_speed);
    lemma_config_lines_concat(empty_config(), x1, d2);
    lemma_all_no_break_concat(x1, d2);
    let x2 = x1 + d2;
    let c3 = SavedConfig { wheel_force: c.wheel_force, ..c2 };
    lemma_wheel_force_chunk(c2, c.wheel_force);
    lemma_config_lines_concat(empty_config(), x2, d3);
    lemma_all_no_break_concat(x2, d3);
    let x3 = x2 + d3;
    let c4 = SavedConfig { wheel_invert: c.wheel_invert, ..c3 };
    lemma_wheel_invert_chunk(c3, c.wheel_invert);
    lemma_config_lines_concat(empty_config(), x3, d4);
    lemma_all_no_break_concat(x3, d4);
    let x4 = x3 + d4;
    let c5 = SavedConfig { wheel_resolution: c.wheel_resolution, ..c4 };
    lemma_wheel_resolution_chunk(c4, c.wheel_resolution);
    lemma_config_lines_concat(empty_config(), x4, d5);
    lemma_all_no_break_concat(x4, d5);
    let x5 = x4 + d5;
    let c6 = SavedConfig { wheel_divert: c.wheel_divert, ..c5 };
    lemma_wheel_divert_chunk(c5, c.wheel_divert);
    lemma_config_lines_concat(empty_config(), x5, d6);
    lemma_all_no_break_concat(x5, d6);
    let x6 = x5 + d6;
    let c7 = SavedConfig { thumb_wheel_invert: c.thumb_wheel_invert, ..c6 };
    lemma_thumb_wheel_invert_chunk(c6, c.thumb_wheel_invert);
    lemma_config_lines_concat(empty_config(), x6, d7);
    lemma_all_no_break_concat(x6, d7);
    let x7 = x6 + d7;
    let c8 = SavedConfig { thumb_wheel_divert: c.thumb_wheel_divert, ..c7 };
    lemma_thumb_wheel_divert_chunk(c7, c.thumb_wheel_divert);
    lemma_config_lines_concat(empty_config(), x7, d8);
    lemma_all_no_break_concat(x7, d8);
    let x8 = x7 + d8;
    let c9 = SavedConfig { force_button: c.force_button, ..c8 };
    lemma_force_button_chunk(c8, c.force_button);
    lemma_config_lines_concat(empty_config(), x8, d9);
    lemma_all_no_break_concat(x8, d9);
    let x9 = x8 + d9;
    let c10 = SavedConfig { haptic_strength: c.haptic_strength, ..c9 };
    lemma_haptic_strength_chunk(c9, c.haptic_strength);
    lemma_config_lines_concat(empty_config(), x9, d10);
    lemma_all_no_break_concat(x9, d10);
    let x10 = x9 + d10;
    assert(x10 =~= toml_lines(c));
    assert(all_no_break(toml_lines(c)));
    lemma_split_lines_text(toml_lines(c));
    let last = seq![Seq::<char>::empty()];
    assert(toml_lines(c).push(Seq::<char>::empty()) =~= x10 + last);
    lemma_config_lines_concat(empty_config(), x10, last);
    lemma_single_line(c10, Seq::<char>::empty());
    assert(trim(Seq::<char>::empty()) =~= Seq::<char>::empty());
    assert(c10 == c);
}

} // verus!

verus! {

/// Which device setting a saved value goes to.
#[derive(Clone, Copy, Debug, PartialEq, Eq, Structural)]
pub enum SettingTarget {
    Dpi,
    Wheel,
    ThumbWheel,
    ForceButton,
    HapticStrength,
}

/// One saved value to apply: the setting it goes to, the label its error is reported under, the
/// name of the wheel setting (empty for the others), and the argument as the command line gives it.
#[derive(Debug)]
pub struct SavedSetting {
    pub target: SettingTarget,
    pub label: String,
    pub name: String,
    pub value: String,
}

pub ghost struct SettingView {
    pub target: SettingTarget,
    pub label: Seq<char>,
    pub name: Seq<char>,
    pub value: Seq<char>,
}

impl View for SavedSetting {
    type V = SettingView;

    open spec fn view(&self) -> SettingView {
        SettingView { target: self.target, label: self.label@, name: self.name@, value: self.value@ }
    }
}

/// The views of a list of settings.
pub open spec fn views(v: Seq<SavedSetting>) -> Seq<SettingView> {
    v.map_values(|s: SavedSetting| s@)
}

pub open spec fn on_off(b: bool) -> Seq<char> {
    if b {
        "on"@
    } else {
        "off"@
    }
}

pub open spec fn widen_u32(v: Option<u32>) -> Option<nat> {
    match v {
        Some(x) => Some(x as nat),
        None => None,
    }
}

pub open spec fn widen_u16(v: Option<u16>) -> Option<nat> {
    match v {
        Some(x) => Some(x as nat),
        None => None,
    }
}

pub open spec fn widen_u64(v: Option<u64>) -> Option<nat> {
    match v {
        Some(x) => Some(x as nat),
        None => None,
    }
}

pub open spec fn widen_u8(v: Option<u8>) -> Option<nat> {
    match v {
        Some(x) => Some(x as nat),
        None => None,
    }
}

/// The setting for a saved number, given in decimal.
pub open spec fn number_setting(
    v: Option<nat>,
    target: SettingTarget,
    label: Seq<char>,
    name: Seq<char>,
) -> Seq<SettingView> {
    match v {
        Some(n) => seq![SettingView { target, label, name, value: dec(n) }],
        None => Seq::empty(),
    }
}

/// The setting for a saved flag, given as `on` or `off`.
pub open spec fn toggle_setting(
    v: Option<bool>,
    target: SettingTarget,
    label: Seq<char>,
    name: Seq<char>,
) -> Seq<SettingView> {
    match v {
        Some(b) => seq![SettingView { target, label, name, value: on_off(b) }],
        None => Seq::empty(),
    }
}

/// The setting for a saved wheel mode, given by its name.
pub open spec fn ratchet_setting(v: Option<WheelRatchet>) -> Seq<SettingView> {
    match v {
        Some(r) => seq![
            SettingView {
                target: SettingTarget::Wheel,
                label: "wheel ratchet"@,
                name: "ratchet"@,
                value: ratchet_name(r),
            },
        ],
        None => Seq::empty(),
    }
}

/// The settings that applying a saved configuration makes, in order: one for each saved value.
pub open spec fn saved_settings(c: SavedConfig) -> Seq<SettingView> {
    number_setting(widen_u32(c.dpi), SettingTarget::Dpi, "dpi"@, ""@)
        + ratchet_setting(c.wheel_ratchet)
        + number_setting(widen_u8(c.wheel_ratchet_speed), SettingTarget::Wheel, "wheel ratchet-speed"@, "ratchet-speed"@)
        + number_setting(widen_u8(c.wheel_force), SettingTarget::Wheel, "wheel force"@, "force"@)
        + toggle_setting(c.wheel_invert, SettingTarget::Wheel, "wheel invert"@, "invert"@)
        + toggle_setting(c.wheel_resolution, SettingTarget::Wheel, "wheel resolution"@, "resolution"@)
        + toggle_setting(c.wheel_divert, SettingTarget::Wheel, "wheel divert"@, "divert"@)
        + toggle_setting(c.thumb_wheel_invert, SettingTarget::ThumbWheel, "thumb-wheel invert"@, "invert"@)
        + toggle_setting(c.thumb_wheel_divert, SettingTarget::ThumbWheel, "thumb-wheel divert"@, "divert"@)
        + number_setting(widen_u16(c.force_button), SettingTarget::ForceButton, "force-button"@, ""@)
        + number_setting(widen_u8(c.haptic_strength), SettingTarget::HapticStrength, "haptic strength"@, ""@)
}

fn on_off_text(b: bool) -> (s: &'static str)
    ensures
        s@ == on_off(b),
{
    if b {
        "on"
    } else {
        "off"
    }
}

fn string_from(s: &str) -> (r: String)
    ensures
        r@ == s@,
{
    let mut r = String::new();
    push_str(&mut r, s);
    r
}

fn push_setting(v: &mut Vec<SavedSetting>, target: SettingTarget, label: &str, name: &str, value: &str)
    ensures
        views(final(v)@) == views(old(v)@).push(
            SettingView { target, label: label@, name: name@, value: value@ },
        ),
{
    let s = SavedSetting {
        target,
        label: string_from(label),
        name: string_from(name),
        value: string_from(value),
    };
    let ghost sv = s@;
    v.push(s);
    assert(views(final(v)@) =~= views(old(v)@).push(sv));
}

fn add_number(v: &mut Vec<SavedSetting>, n: Option<u64>, target: SettingTarget, label: &str, name: &str)
    ensures
        views(final(v)@) == views(old(v)@) + number_setting(
            widen_u64(n),
            target,
            label@,
            name@,
        ),
{
    match n {
        Some(x) => {
            let mut value = String::new();
            push_dec(&mut value, x);
            push_setting(v, target, label, name, value.as_str());
            assert(views(final(v)@) =~= views(old(v)@) + number_setting(
                widen_u64(n),
                target,
                label@,
                name@,
            ));
        },
        None => {
            assert(views(final(v)@) =~= views(old(v)@) + Seq::<SettingView>::empty());
        },
    }
}

fn add_toggle(v: &mut Vec<SavedSetting>, b: Option<bool>, target: SettingTarget, label: &str, name: &str)
    ensures
        views(final(v)@) == views(old(v)@) + toggle_setting(b, target, label@, name@),
{
    match b {
        Some(x) => {
            push_setting(v, target, label, name, on_off_text(x));
            assert(views(final(v)@) =~= views(old(v)@) + toggle_setting(b, target, label@, name@));
        },
        None => {
            assert(views(final(v)@) =~= views(old(v)@) + Seq::<SettingView>::empty());
        },
    }
}

/// The settings that applying the configuration makes, in order.
pub fn saved_settings_of(config: &SavedConfig) -> (v: Vec<SavedSetting>)
    ensures
        views(v@) == saved_settings(*config),
{
    let mut v: Vec<SavedSetting> = Vec::new();
    let ghost mut g = Seq::<SettingView>::empty();
    assert(views(v@) =~= g);
    add_number(
        &mut v,
        match config.dpi {
            Some(x) => Some(x as u64),
            None => None,
        },
        SettingTarget::Dpi,
        "dpi",
        "",
    );
    proof {
        assert(widen_u64(match config.dpi {
            Some(x) => Some(x as u64),
            None => None,
        }) == widen_u32(config.dpi));
        g = g + number_setting(widen_u32(config.dpi), SettingTarget::Dpi, "dpi"@, ""@);
    }
    if let Some(r) = config.wheel_ratchet {
        push_setting(&mut v, SettingTarget::Wheel, "wheel ratchet", "ratchet", r.as_str());
    }
    proof {
        g = g + ratchet_setting(config.wheel_ratchet);
    }
    add_number(
        &mut v,
        match config.wheel_ratchet_speed {
            Some(x) => Some(x as u64),
            None => None,
        },
        SettingTarget::Wheel,
        "wheel ratchet-speed",
        "ratchet-speed",
    );
    proof {
        assert(widen_u64(match config.wheel_ratchet_speed {
            Some(x) => Some(x as u64),
            None => None,
        }) == widen_u8(config.wheel_ratchet_speed));
        g = g + number_setting(widen_u8(config.wheel_ratchet_speed), SettingTarget::Wheel, "wheel ratchet-speed"@, "ratchet-speed"@);
    }
    add_number(
        &mut v,
        match config.wheel_force {
            Some(x) => Some(x as u64),
            None => None,
        },
        SettingTarget::Wheel,
        "wheel force",
        "force",
    );
    proof {
        assert(widen_u64(match config.wheel_force {
            Some(x) => Some(x as u64),
            None => None,
        }) == widen_u8(config.wheel_force));
        g = g + number_setting(widen_u8(config.wheel_force), SettingTarget::Wheel, "wheel force"@, "force"@);
    }
    add_toggle(&mut v, config.wheel_invert, SettingTarget::Wheel, "wheel invert", "invert");
    proof {
        g = g + toggle_setting(config.wheel_invert, SettingTarget::Wheel, "wheel invert"@, "invert"@);
    }
    add_toggle(&mut v, config.wheel_resolution, SettingTarget::Wheel, "wheel resolution", "resolution");
    proof {
        g = g + toggle_setting(config.wheel_resolution, SettingTarget::Wheel, "wheel resolution"@, "resolution"@);
    }
    add_toggle(&mut v, config.wheel_divert, SettingTarget::Wheel, "wheel divert", "divert");
    proof {
        g = g + toggle_setting(config.wheel_divert, SettingTarget::Wheel, "wheel divert"@, "divert"@);
    }
    add_toggle(&mut v, config.thumb_wheel_invert, SettingTarget::ThumbWheel, "thumb-wheel invert", "invert");
    proof {
        g = g + toggle_setting(config.thumb_wheel_invert, SettingTarget::ThumbWheel, "thumb-wheel invert"@, "invert"@);
    }
    add_toggle(&mut v, config.thumb_wheel_divert, SettingTarget::ThumbWheel, "thumb-wheel divert", "divert");
    proof {
        g = g + toggle_setting(config.thumb_wheel_divert, SettingTarget::ThumbWheel, "thumb-wheel divert"@, "divert"@);
    }
    add_number(
        &mut v,
        match config.force_button {
            Some(x) => Some(x as u64),
            None => None,
        },
        SettingTarget::ForceButton,
        "force-button",
        "",
    );
    proof {
        assert(widen_u64(match config.force_button {
            Some(x) => Some(x as u64),
            None => None,
        }) == widen_u16(config.force_button));
        g = g + number_setting(widen_u16(config.force_button), SettingTarget::ForceButton, "force-button"@, ""@);
    }
    add_number(
        &mut v,
        match config.haptic_strength {
            Some(x) => Some(x as u64),
            None => None,
        },
        SettingTarget::HapticStrength,
        "haptic strength",
        "",
    );
    proof {
        assert(widen_u64(match config.haptic_strength {
            Some(x) => Some(x as u64),
            None => None,
        }) == widen_u8(config.haptic_strength));
        g = g + number_setting(widen_u8(config.haptic_strength), SettingTarget::HapticStrength, "haptic strength"@, ""@);
    }
    proof {
        assert(g =~= saved_settings(*config));
    }
    v
}

} // verus!

verus! {

/// What applying a saved configuration does next.
#[derive(Debug)]
pub enum ApplyStep {
    /// Apply this setting, on a freshly opened device, and report its result.
    Run(SavedSetting),
    /// Every saved setting has been tried; these are the failures, in order.
    Finished(Vec<String>),
}

/// The texts of a list of strings.
pub open spec fn texts(v: Seq<String>) -> Seq<Seq<char>> {
    v.map_values(|s: String| s@)
}

/// How a failed setting is reported.
pub open spec fn failure_line(label: Seq<char>, e: Error) -> Seq<char> {
    label + ": "@ + message_of(e)
}

/// The reports of the failures among the first `n` settings.
pub open spec fn error_lines(ss: Seq<SettingView>, rs: Seq<Result<(), Error>>, n: nat) -> Seq<
    Seq<char>,
>
    decreases n,
{
    if n == 0 {
        Seq::empty()
    } else {
        error_lines(ss, rs, (n - 1) as nat) + match rs[n - 1] {
            Err(e) => seq![failure_line(ss[n - 1].label, e)],
            Ok(_) => Seq::empty(),
        }
    }
}

/// Applying a saved configuration, best effort: given the results of the settings applied so far,
/// in order, the next setting to apply, or, once each has been tried, the failures. A failure does
/// not stop the settings after it, so one unsupported or busy feature does not keep the others
/// from being applied.
pub fn apply_best_effort(config: &SavedConfig, results: &Vec<Result<(), Error>>) -> (s: ApplyStep)
    ensures
        results.len() < saved_settings(*config).len() ==> (s matches ApplyStep::Run(x) && x@
            == saved_settings(*config)[results.len() as int]),
        results.len() >= saved_settings(*config).len() ==> (s matches ApplyStep::Finished(errs)
            && texts(errs@) == error_lines(
            saved_settings(*config),
            results@,
            saved_settings(*config).len(),
        )),
{
    let mut settings = saved_settings_of(config);
    let ghost ss = saved_settings(*config);
    assert(settings@.len() == ss.len());
    if results.len() < settings.len() {
        let ghost i = results.len() as int;
        assert(views(settings@)[i] == settings@[i]@);
        let x = settings.remove(results.len());
        return ApplyStep::Run(x);
    }
    let mut errs: Vec<String> = Vec::new();
    let mut i: usize = 0;
    while i < settings.len()
        invariant
            i <= settings.len(),
            settings.len() <= results.len(),
            views(settings@) == ss,
            texts(errs@) == error_lines(ss, results@, i as nat),
        decreases settings.len() - i,
    {
        let ghost before = errs@;
        match &results[i] {
            Err(e) => {
                let mut line = String::new();
                push_str(&mut line, settings[i].label.as_str());
                push_str(&mut line, ": ");
                let m = e.message();
                push_str(&mut line, m.as_str());
                proof {
                    assert(views(settings@)[i as int] == settings@[i as int]@);
                }
                errs.push(line);
                assert(texts(errs@) =~= texts(before) + seq![failure_line(ss[i as int].label, *e)]);
            },
            Ok(_) => {
                assert(texts(before) + Seq::<Seq<char>>::empty() =~= texts(before));
            },
        }
        i = i + 1;
    }
    ApplyStep::Finished(errs)
}

/// The outcome of applying a saved configuration: success, or the first failure's report.
pub fn first_error(errors: &Vec<String>) -> (r: Result<(), Error>)
    ensures
        errors.len() == 0 ==> r is Ok,
        errors.len() > 0 ==> (r matches Err(Error::Setting(t)) && t@ == errors@[0]@),
{
    if errors.len() == 0 {
        Ok(())
    } else {
        Err(Error::Setting(errors[0].clone()))
    }
}

/// When every setting succeeds, nothing is reported.
pub proof fn lemma_all_succeed_no_errors(ss: Seq<SettingView>, rs: Seq<Result<(), Error>>, n: nat)
    requires
        n <= rs.len(),
        forall|i: int| 0 <= i < n ==> (#[trigger] rs[i]) is Ok,
    ensures
        error_lines(ss, rs, n) == Seq::<Seq<char>>::empty(),
    decreases n,
{
    if n > 0 {
        lemma_all_succeed_no_errors(ss, rs, (n - 1) as nat);
        assert(rs[n - 1] is Ok);
        assert(error_lines(ss, rs, n) =~= Seq::<Seq<char>>::empty());
    }
}

/// Each failure is reported once: there are as many reports as failed settings.
pub proof fn lemma_one_report_per_failure(ss: Seq<SettingView>, rs: Seq<Result<(), Error>>, n: nat)
    requires
        n <= rs.len(),
    ensures
        error_lines(ss, rs, n).len() == rs.take(n as int).filter(|r: Result<(), Error>| r is Err).len(),
    decreases n,
{
    let f = |r: Result<(), Error>| r is Err;
    if n > 0 {
        lemma_one_report_per_failure(ss, rs, (n - 1) as nat);
        let t = rs.take(n as int);
        assert(t.drop_last() =~= rs.take(n - 1));
        assert(t.last() == rs[n - 1]);
        reveal(Seq::filter);
    } else {
        assert(rs.take(0) =~= Seq::<Result<(), Error>>::empty());
        reveal(Seq::filter);
    }
}

/// A configuration with nothing saved applies nothing.
pub proof fn lemma_empty_config_applies_nothing()
    ensures
        saved_settings(empty_config()) == Seq::<SettingView>::empty(),
{
    assert(saved_settings(empty_config()) =~= Seq::<SettingView>::empty());
}

} // verus!

verus! {

/// The arguments that applying a saved configuration hands on read back, through the parsers the
/// command line uses, as the saved values, wherever those lie in the ranges the parsers accept.
pub proof fn lemma_saved_arguments_read_back(
    dpi: u32,
    ratchet: WheelRatchet,
    speed: u8,
    force: u8,
    flag: bool,
    fb: u16,
    fb_min: u16,
    fb_max: u16,
    strength: u8,
)
    ensures
        MIN_DPI <= dpi <= MAX_DPI ==> dpi_arg(dec(dpi as nat)) == Ok::<u32, Error>(dpi),
        ratchet_arg(ratchet_name(ratchet)) == Ok::<u8, Error>(
            match ratchet {
                WheelRatchet::Free => WHEEL_RATCHET_FREE,
                WheelRatchet::Ratchet => WHEEL_RATCHET_RATCHET,
            },
        ),
        speed <= 50 ==> ratchet_speed_arg(dec(speed as nat)) == Ok::<u8, Error>(speed),
        1 <= force <= 100 ==> force_arg(dec(force as nat)) == Ok::<u8, Error>(force),
        toggle_arg(on_off(flag)) == Ok::<bool, Error>(flag),
        fb_min <= fb <= fb_max ==> value_arg(dec(fb as nat), fb_min, fb_max) == Ok::<u16, Error>(
            fb,
        ),
        strength <= 100 ==> strength_arg(dec(strength as nat)) == Ok::<u8, Error>(strength),
{
    lemma_number_value(dpi as nat, u32::MAX as nat);
    lemma_trim_plain(dec(dpi as nat));
    lemma_number_value(speed as nat, u8::MAX as nat);
    lemma_trim_plain(dec(speed as nat));
    lemma_number_value(force as nat, u8::MAX as nat);
    lemma_trim_plain(dec(force as nat));
    lemma_number_value(fb as nat, u16::MAX as nat);
    lemma_trim_plain(dec(fb as nat));
    lemma_number_value(strength as nat, u8::MAX as nat);
    lemma_trim_plain(dec(strength as nat));
    reveal_strlit("free");
    reveal_strlit("ratchet");
    reveal_strlit("on");
    reveal_strlit("off");
    reveal_strlit("subtle");
    reveal_strlit("low");
    reveal_strlit("medium");
    reveal_strlit("high");
    lemma_trim_plain(ratchet_name(ratchet));
    lemma_trim_plain(on_off(flag));
    let s = dec(strength as nat);
    crate::text::lemma_dec_first_is_digit(strength as nat);
    assert(is_digit(s[0]));
    assert(s != "off"@ && s != "subtle"@ && s != "low"@ && s != "medium"@ && s != "high"@) by {
        assert("off"@[0] == 'o');
        assert("subtle"@[0] == 's');
        assert("low"@[0] == 'l');
        assert("medium"@[0] == 'm');
        assert("high"@[0] == 'h');
    }
}

} // verus!

verus! {

/// The lines of a text, split at each line break.
pub fn lines_of(data: &str) -> (ls: Vec<Vec<char>>)
    ensures
        ls@.map_values(|l: Vec<char>| l@) == split_lines(data@),
{
    let chars = chars_of(data);
    let n = chars.len();
    let mut ls: Vec<Vec<char>> = Vec::new();
    let mut j: usize = 0;
    assert(chars@.skip(0) =~= chars@);
    assert(ls@.map_values(|l: Vec<char>| l@) + split_lines(chars@.skip(0)) =~= split_lines(data@));
    loop
        invariant
            j <= n,
            n == chars@.len(),
            chars@ == data@,
            ls@.map_values(|l: Vec<char>| l@) + split_lines(chars@.skip(j as int)) == split_lines(
                data@,
            ),
        decreases n - j,
    {
        let ghost rest = chars@.skip(j as int);
        let ghost before = ls@.map_values(|l: Vec<char>| l@);
        let mut k: usize = j;
        while k < n && chars[k] != '\n'
            invariant
                j <= k <= n,
                n == chars@.len(),
                forall|i: int| j <= i < k ==> chars@[i] != '\n',
            decreases n - k,
        {
            k = k + 1;
        }
        proof {
            lemma_char_pos(rest, '\n', k - j);
        }
        let line = sub_chars(chars.as_slice(), j, k);
        let ghost lv = line@;
        ls.push(line);
        assert(ls@.map_values(|l: Vec<char>| l@) =~= before.push(lv));
        if k == n {
            assert(rest =~= lv);
            assert(split_lines(rest) =~= seq![lv]);
            assert(before + split_lines(rest) =~= before.push(lv));
            return ls;
        }
        proof {
            assert(rest.take(k - j) =~= lv);
            assert(rest.skip(k - j + 1) =~= chars@.skip(k + 1));
            assert(before + split_lines(rest) =~= before.push(lv) + split_lines(chars@.skip(k + 1)));
        }
        j = k + 1;
    }
}

} // verus!

verus! {

/// `newer` where it holds a value, else `older`.
pub open spec fn newer_or<T>(newer: Option<T>, older: Option<T>) -> Option<T> {
    match newer {
        Some(v) => Some(v),
        None => older,
    }
}

/// The configuration `base` with every value that `change` holds put in.
pub open spec fn merge(base: SavedConfig, change: SavedConfig) -> SavedConfig {
    SavedConfig {
        dpi: newer_or(change.dpi, base.dpi),
        wheel_ratchet: newer_or(change.wheel_ratchet, base.wheel_ratchet),
        wheel_ratchet_speed: newer_or(change.wheel_ratchet_speed, base.wheel_ratchet_speed),
        wheel_force: newer_or(change.wheel_force, base.wheel_force),
        wheel_invert: newer_or(change.wheel_invert, base.wheel_invert),
        wheel_resolution: newer_or(change.wheel_resolution, base.wheel_resolution),
        wheel_divert: newer_or(change.wheel_divert, base.wheel_divert),
        thumb_wheel_invert: newer_or(change.thumb_wheel_invert, base.thumb_wheel_invert),
        thumb_wheel_divert: newer_or(change.thumb_wheel_divert, base.thumb_wheel_divert),
        force_button: newer_or(change.force_button, base.force_button),
        haptic_strength: newer_or(change.haptic_strength, base.haptic_strength),
    }
}

fn newer_or_value<T: Copy>(newer: Option<T>, older: Option<T>) -> (r: Option<T>)
    ensures
        r == newer_or(newer, older),
{
    match newer {
        Some(v) => Some(v),
        None => older,
    }
}

impl SavedConfig {
    /// This configuration with every value that `change` holds put in.
    pub fn merged(&self, change: &SavedConfig) -> (r: SavedConfig)
        ensures
            r == merge(*self, *change),
    {
        SavedConfig {
            dpi: newer_or_value(change.dpi, self.dpi),
            wheel_ratchet: newer_or_value(change.wheel_ratchet, self.wheel_ratchet),
            wheel_ratchet_speed: newer_or_value(change.wheel_ratchet_speed, self.wheel_ratchet_speed),
            wheel_force: newer_or_value(change.wheel_force, self.wheel_force),
            wheel_invert: newer_or_value(change.wheel_invert, self.wheel_invert),
            wheel_resolution: newer_or_value(change.wheel_resolution, self.wheel_resolution),
            wheel_divert: newer_or_value(change.wheel_divert, self.wheel_divert),
            thumb_wheel_invert: newer_or_value(change.thumb_wheel_invert, self.thumb_wheel_invert),
            thumb_wheel_divert: newer_or_value(change.thumb_wheel_divert, self.thumb_wheel_divert),
            force_button: newer_or_value(change.force_button, self.force_button),
            haptic_strength: newer_or_value(change.haptic_strength, self.haptic_strength),
        }
    }
}

/// Putting in an empty change leaves a configuration as it is, and putting in a change twice is
/// putting it in once.
pub proof fn lemma_merge_laws(base: SavedConfig, change: SavedConfig)
    ensures
        merge(base, empty_config()) == base,
        merge(merge(base, change), change) == merge(base, change),
        merge(empty_config(), change) == change,
{
}

} // verus!

verus! {

/// The most symlinks that resolving the config path follows.
pub const MAX_LINK_HOPS: u8 = 40;

/// What the filesystem reports about the path being resolved.
#[derive(Clone, Copy, Debug, PartialEq, Eq, Structural)]
pub enum LinkKind {
    /// A symbolic link.
    Symlink,
    /// Something that is not a link.
    Present,
    /// Nothing.
    Missing,
    /// The lookup failed otherwise.
    Failed,
}

/// What resolving the config path does next.
#[derive(Clone, Copy, Debug, PartialEq, Eq, Structural)]
pub enum LinkAction {
    /// Follow the link: an absolute target replaces the path, a relative one is taken from the
    /// link's directory.
    Follow,
    /// The path is the file to write; use its canonical form.
    Resolved,
    /// The file does not exist yet: create its directory and write the file there.
    CreateParent,
    /// Report the lookup's failure.
    Fail,
}

pub open spec fn link_step(hops: u8, kind: LinkKind) -> Result<LinkAction, Error> {
    if hops >= MAX_LINK_HOPS {
        Err(Error::Message(Msg::TooManySymlinks))
    } else {
        Ok(
            match kind {
                LinkKind::Symlink => LinkAction::Follow,
                LinkKind::Present => LinkAction::Resolved,
                LinkKind::Missing => LinkAction::CreateParent,
                LinkKind::Failed => LinkAction::Fail,
            },
        )
    }
}

/// One step of resolving the path the configuration is written to, after `hops` links were
/// followed. Resolving first means that aliases share one lock and that replacing the file keeps
/// the user's link; dangling links are allowed, cycles end in an error.
pub fn resolve_step(hops: u8, kind: LinkKind) -> (r: Result<LinkAction, Error>)
    ensures
        r == link_step(hops, kind),
{
    if hops >= MAX_LINK_HOPS {
        return Err(Error::Message(Msg::TooManySymlinks));
    }
    Ok(
        match kind {
            LinkKind::Symlink => LinkAction::Follow,
            LinkKind::Present => LinkAction::Resolved,
            LinkKind::Missing => LinkAction::CreateParent,
            LinkKind::Failed => LinkAction::Fail,
        },
    )
}

/// Resolution never follows more than [`MAX_LINK_HOPS`] links: a cycle ends in an error.
pub proof fn lemma_link_cycles_end(kind: LinkKind)
    ensures
        link_step(MAX_LINK_HOPS, kind) == Err::<LinkAction, Error>(
            Error::Message(Msg::TooManySymlinks),
        ),
        forall|h: u8| h < MAX_LINK_HOPS ==> (link_step(h, LinkKind::Symlink) == Ok::<
            LinkAction,
            Error,
        >(LinkAction::Follow)),
{
}

} // verus!

verus! {

/// Unknown keys do not make loading fail: a setting line with a key this version does not know
/// leaves the configuration as it is.
pub proof fn lemma_unknown_keys_ignored(c: SavedConfig, key: Seq<char>, value: Seq<char>)
    requires
        key != "dpi"@,
        key != "wheel_ratchet"@,
        key != "wheel_ratchet_speed"@,
        key != "wheel_force"@,
        key != "wheel_invert"@,
        key != "wheel_resolution"@,
        key != "wheel_divert"@,
        key != "thumb_wheel_invert"@,
        key != "thumb_wheel_divert"@,
        key != "force_button"@,
        key != "haptic_strength"@,
    ensures
        config_setting(c, key, value) == Ok::<SavedConfig, Error>(c),
{
}

} // verus!

verus! {

/// The hires-wheel change that a flag setting with this value makes.
pub open spec fn flag_plan(mask: u8, value: Seq<char>, idx: u8, h: Seq<Reply>) -> Plan<()> {
    match toggle_arg(value) {
        Err(e) => Plan::Finish(Err(e)),
        Ok(enabled) => hires_set_plan(idx, mask, enabled, h),
    }
}

/// The thumb-wheel change that a flag setting with this value makes.
pub open spec fn thumb_flag_plan(mask: Seq<u8>, value: Seq<char>, idx: u8, h: Seq<Reply>) -> Plan<()> {
    match toggle_arg(value) {
        Err(e) => Plan::Finish(Err(e)),
        Ok(enabled) => thumb_set_plan(idx, mask, enabled, h),
    }
}

/// Whether a setting made from `c` goes where its label says: to the saved field's own device
/// setting, with the saved field's value. A wheel setting's name selects the SmartShift field or
/// the wheel flag of its own saved field, and nothing else.
pub open spec fn aimed(c: SavedConfig, s: SettingView, idx: u8, h: Seq<Reply>) -> bool {
    &&& s.label == "dpi"@ ==> (s.target == SettingTarget::Dpi && c.dpi is Some && s.value
        == dec(c.dpi->0 as nat))
    &&& s.label == "wheel ratchet"@ ==> (s.target == SettingTarget::Wheel && c.wheel_ratchet is Some && s.value
        == ratchet_name(c.wheel_ratchet->0) && wheel_set_plan(idx, s.name, s.value, h) == smart_shift_set_plan(idx, SmartShiftField::Ratchet, s.value, h))
    &&& s.label == "wheel ratchet-speed"@ ==> (s.target == SettingTarget::Wheel && c.wheel_ratchet_speed is Some && s.value
        == dec(c.wheel_ratchet_speed->0 as nat) && wheel_set_plan(idx, s.name, s.value, h) == smart_shift_set_plan(idx, SmartShiftField::RatchetSpeed, s.value, h))
    &&& s.label == "wheel force"@ ==> (s.target == SettingTarget::Wheel && c.wheel_force is Some && s.value
        == dec(c.wheel_force->0 as nat) && wheel_set_plan(idx, s.name, s.value, h) == smart_shift_set_plan(idx, SmartShiftField::Force, s.value, h))
    &&& s.label == "wheel invert"@ ==> (s.target == SettingTarget::Wheel && c.wheel_invert is Some && s.value
        == on_off(c.wheel_invert->0) && wheel_set_plan(idx, s.name, s.value, h) == flag_plan(WHEEL_INVERT_MASK, s.value, idx, h))
    &&& s.label == "wheel resolution"@ ==> (s.target == SettingTarget::Wheel && c.wheel_resolution is Some && s.value
        == on_off(c.wheel_resolution->0) && wheel_set_plan(idx, s.name, s.value, h) == flag_plan(WHEEL_RESOLUTION_MASK, s.value, idx, h))
    &&& s.label == "wheel divert"@ ==> (s.target == SettingTarget::Wheel && c.wheel_divert is Some && s.value
        == on_off(c.wheel_divert->0) && wheel_set_plan(idx, s.name, s.value, h) == flag_plan(WHEEL_DIVERT_MASK, s.value, idx, h))
    &&& s.label == "thumb-wheel invert"@ ==> (s.target == SettingTarget::ThumbWheel && c.thumb_wheel_invert is Some && s.value
        == on_off(c.thumb_wheel_invert->0) && set_thumb_plan(idx, s.name, s.value, h) == thumb_flag_plan(THUMB_INVERT_MASK@, s.value, idx, h))
    &&& s.label == "thumb-wheel divert"@ ==> (s.target == SettingTarget::ThumbWheel && c.thumb_wheel_divert is Some && s.value
        == on_off(c.thumb_wheel_divert->0) && set_thumb_plan(idx, s.name, s.value, h) == thumb_flag_plan(THUMB_MODE_MASK@, s.value, idx, h))
    &&& s.label == "force-button"@ ==> (s.target == SettingTarget::ForceButton && c.force_button is Some && s.value
        == dec(c.force_button->0 as nat))
    &&& s.label == "haptic strength"@ ==> (s.target == SettingTarget::HapticStrength && c.haptic_strength is Some && s.value
        == dec(c.haptic_strength->0 as nat))
}

pub open spec fn all_aimed(c: SavedConfig, ss: Seq<SettingView>, idx: u8, h: Seq<Reply>) -> bool {
    forall|i: int| 0 <= i < ss.len() ==> aimed(c, #[trigger] ss[i], idx, h)
}

proof fn lemma_all_aimed_concat(
    c: SavedConfig,
    a: Seq<SettingView>,
    b: Seq<SettingView>,
    idx: u8,
    h: Seq<Reply>,
)
    requires
        all_aimed(c, a, idx, h),
        all_aimed(c, b, idx, h),
    ensures
        all_aimed(c, a + b, idx, h),
{
    assert forall|i: int| 0 <= i < (a + b).len() implies aimed(c, #[trigger] (a + b)[i], idx, h) by {
        if i < a.len() {
            assert((a + b)[i] == a[i]);
        } else {
            assert((a + b)[i] == b[i - a.len()]);
        }
    }
}

/// The labels and wheel setting names are told apart.
proof fn lemma_labels_differ()
    ensures
        "dpi"@.len() == 3,
        "wheel ratchet"@.len() == 13,
        "wheel ratchet-speed"@.len() == 19,
        "wheel force"@.len() == 11,
        "wheel invert"@.len() == 12,
        "wheel resolution"@.len() == 16,
        "wheel divert"@.len() == 12,
        "thumb-wheel invert"@.len() == 18,
        "thumb-wheel divert"@.len() == 18,
        "force-button"@.len() == 12,
        "haptic strength"@.len() == 15,
        "wheel invert"@ != "wheel divert"@,
        "wheel invert"@ != "force-button"@,
        "wheel divert"@ != "force-button"@,
        "thumb-wheel invert"@ != "thumb-wheel divert"@,
        "ratchet"@.len() == 7,
        "ratchet-speed"@.len() == 13,
        "smart-shift"@.len() == 11,
        "force"@.len() == 5,
        "invert"@.len() == 6,
        "resolution"@.len() == 10,
        "divert"@.len() == 6,
        "invert"@ != "divert"@,
{
    reveal_strlit("dpi");
    reveal_strlit("wheel ratchet");
    reveal_strlit("wheel ratchet-speed");
    reveal_strlit("wheel force");
    reveal_strlit("wheel invert");
    reveal_strlit("wheel resolution");
    reveal_strlit("wheel divert");
    reveal_strlit("thumb-wheel invert");
    reveal_strlit("thumb-wheel divert");
    reveal_strlit("force-button");
    reveal_strlit("haptic strength");
    reveal_strlit("ratchet");
    reveal_strlit("ratchet-speed");
    reveal_strlit("smart-shift");
    reveal_strlit("force");
    reveal_strlit("invert");
    reveal_strlit("resolution");
    reveal_strlit("divert");
    assert("wheel invert"@[6] != "wheel divert"@[6]);
    assert("wheel invert"@[0] != "force-button"@[0]);
    assert("wheel divert"@[0] != "force-button"@[0]);
    assert("thumb-wheel invert"@[12] != "thumb-wheel divert"@[12]);
    assert("invert"@[0] != "divert"@[0]);
}

proof fn lemma_dpi_aimed(c: SavedConfig, idx: u8, h: Seq<Reply>)
    ensures
        all_aimed(c, number_setting(widen_u32(c.dpi), SettingTarget::Dpi, "dpi"@, ""@), idx, h),
{
    lemma_labels_differ();
    let ss = number_setting(widen_u32(c.dpi), SettingTarget::Dpi, "dpi"@, ""@);
    if ss.len() > 0 {
        assert(ss.len() == 1);
        assert(aimed(c, ss[0], idx, h));
    }
}

proof fn lemma_wheel_ratchet_aimed(c: SavedConfig, idx: u8, h: Seq<Reply>)
    ensures
        all_aimed(c, ratchet_setting(c.wheel_ratchet), idx, h),
{
    lemma_labels_differ();
    let ss = ratchet_setting(c.wheel_ratchet);
    if ss.len() > 0 {
        assert(ss.len() == 1);
        assert(aimed(c, ss[0], idx, h));
    }
}

proof fn lemma_wheel_ratchet_speed_aimed(c: SavedConfig, idx: u8, h: Seq<Reply>)
    ensures
        all_aimed(c, number_setting(widen_u8(c.wheel_ratchet_speed), SettingTarget::Wheel, "wheel ratchet-speed"@, "ratchet-speed"@), idx, h),
{
    lemma_labels_differ();
    let ss = number_setting(widen_u8(c.wheel_ratchet_speed), SettingTarget::Wheel, "wheel ratchet-speed"@, "ratchet-speed"@);
    if ss.len() > 0 {
        assert(ss.len() == 1);
        assert(aimed(c, ss[0], idx, h));
    }
}

proof fn lemma_wheel_force_aimed(c: SavedConfig, idx: u8, h: Seq<Reply>)
    ensures
        all_aimed(c, number_setting(widen_u8(c.wheel_force), SettingTarget::Wheel, "wheel force"@, "force"@), idx, h),
{
    lemma_labels_differ();
    let ss = number_setting(widen_u8(c.wheel_force), SettingTarget::Wheel, "wheel force"@, "force"@);
    if ss.len() > 0 {
        assert(ss.len() == 1);
        assert(aimed(c, ss[0], idx, h));
    }
}

proof fn lemma_wheel_invert_aimed(c: SavedConfig, idx: u8, h: Seq<Reply>)
    ensures
        all_aimed(c, toggle_setting(c.wheel_invert, SettingTarget::Wheel, "wheel invert"@, "invert"@), idx, h),
{
    lemma_labels_differ();
    let ss = toggle_setting(c.wheel_invert, SettingTarget::Wheel, "wheel invert"@, "invert"@);
    if ss.len() > 0 {
        assert(ss.len() == 1);
        assert(aimed(c, ss[0], idx, h));
    }
}

proof fn lemma_wheel_resolution_aimed(c: SavedConfig, idx: u8, h: Seq<Reply>)
    ensures
        all_aimed(c, toggle_setting(c.wheel_resolution, SettingTarget::Wheel, "wheel resolution"@, "resolution"@), idx, h),
{
    lemma_labels_differ();
    let ss = toggle_setting(c.wheel_resolution, SettingTarget::Wheel, "wheel resolution"@, "resolution"@);
    if ss.len() > 0 {
        assert(ss.len() == 1);
        assert(aimed(c, ss[0], idx, h));
    }
}

proof fn lemma_wheel_divert_aimed(c: SavedConfig, idx: u8, h: Seq<Reply>)
    ensures
        all_aimed(c, toggle_setting(c.wheel_divert, SettingTarget::Wheel, "wheel divert"@, "divert"@), idx, h),
{
    lemma_labels_differ();
    let ss = toggle_setting(c.wheel_divert, SettingTarget::Wheel, "wheel divert"@, "divert"@);
    if ss.len() > 0 {
        assert(ss.len() == 1);
        assert(aimed(c, ss[0], idx, h));
    }
}

proof fn lemma_thumb_wheel_invert_aimed(c: SavedConfig, idx: u8, h: Seq<Reply>)
    ensures
        all_aimed(c, toggle_setting(c.thumb_wheel_invert, SettingTarget::ThumbWheel, "thumb-wheel invert"@, "invert"@), idx, h),
{
    lemma_labels_differ();
    let ss = toggle_setting(c.thumb_wheel_invert, SettingTarget::ThumbWheel, "thumb-wheel invert"@, "invert"@);
    if ss.len() > 0 {
        assert(ss.len() == 1);
        assert(aimed(c, ss[0], idx, h));
    }
}

proof fn lemma_thumb_wheel_divert_aimed(c: SavedConfig, idx: u8, h: Seq<Reply>)
    ensures
        all_aimed(c, toggle_setting(c.thumb_wheel_divert, SettingTarget::ThumbWheel, "thumb-wheel divert"@, "divert"@), idx, h),
{
    lemma_labels_differ();
    let ss = toggle_setting(c.thumb_wheel_divert, SettingTarget::ThumbWheel, "thumb-wheel divert"@, "divert"@);
    if ss.len() > 0 {
        assert(ss.len() == 1);
        assert(aimed(c, ss[0], idx, h));
    }
}

proof fn lemma_force_button_aimed(c: SavedConfig, idx: u8, h: Seq<Reply>)
    ensures
        all_aimed(c, number_setting(widen_u16(c.force_button), SettingTarget::ForceButton, "force-button"@, ""@), idx, h),
{
    lemma_labels_differ();
    let ss = number_setting(widen_u16(c.force_button), SettingTarget::ForceButton, "force-button"@, ""@);
    if ss.len() > 0 {
        assert(ss.len() == 1);
        assert(aimed(c, ss[0], idx, h));
    }
}

proof fn lemma_haptic_strength_aimed(c: SavedConfig, idx: u8, h: Seq<Reply>)
    ensures
        all_aimed(c, number_setting(widen_u8(c.haptic_strength), SettingTarget::HapticStrength, "haptic strength"@, ""@), idx, h),
{
    lemma_labels_differ();
    let ss = number_setting(widen_u8(c.haptic_strength), SettingTarget::HapticStrength, "haptic strength"@, ""@);
    if ss.len() > 0 {
        assert(ss.len() == 1);
        assert(aimed(c, ss[0], idx, h));
    }
}

/// Every setting made from a saved configuration goes where its label says: each carries its
/// own saved field's value, and each wheel or thumb-wheel setting's name selects, in the wheel
/// setters, the SmartShift field or flag of that same saved field.
pub proof fn lemma_settings_aimed(c: SavedConfig, idx: u8, h: Seq<Reply>)
    ensures
        all_aimed(c, saved_settings(c), idx, h),
{
    lemma_dpi_aimed(c, idx, h);
    let acc0 = number_setting(widen_u32(c.dpi), SettingTarget::Dpi, "dpi"@, ""@);
    lemma_wheel_ratchet_aimed(c, idx, h);
    let part1 = ratchet_setting(c.wheel_ratchet);
    lemma_all_aimed_concat(c, acc0, part1, idx, h);
    let acc1 = acc0 + part1;
    lemma_wheel_ratchet_speed_aimed(c, idx, h);
    let part2 = number_setting(widen_u8(c.wheel_ratchet_speed), SettingTarget::Wheel, "wheel ratchet-speed"@, "ratchet-speed"@);
    lemma_all_aimed_concat(c, acc1, part2, idx, h);
    let acc2 = acc1 + part2;
    lemma_wheel_force_aimed(c, idx, h);
    let part3 = number_setting(widen_u8(c.wheel_force), SettingTarget::Wheel, "wheel force"@, "force"@);
    lemma_all_aimed_concat(c, acc2, part3, idx, h);
    let acc3 = acc2 + part3;
    lemma_wheel_invert_aimed(c, idx, h);
    let part4 = toggle_setting(c.wheel_invert, SettingTarget::Wheel, "wheel invert"@, "invert"@);
    lemma_all_aimed_concat(c, acc3, part4, idx, h);
    let acc4 = acc3 + part4;
    lemma_wheel_resolution_aimed(c, idx, h);
    let part5 = toggle_setting(c.wheel_resolution, SettingTarget::Wheel, "wheel resolution"@, "resolution"@);
    lemma_all_aimed_concat(c, acc4, part5, idx, h);
    let acc5 = acc4 + part5;
    lemma_wheel_divert_aimed(c, idx, h);
    let part6 = toggle_setting(c.wheel_divert, SettingTarget::Wheel, "wheel divert"@, "divert"@);
    lemma_all_aimed_concat(c, acc5, part6, idx, h);
    let acc6 = acc5 + part6;
    lemma_thumb_wheel_invert_aimed(c, idx, h);
    let part7 = toggle_setting(c.thumb_wheel_invert, SettingTarget::ThumbWheel, "thumb-wheel invert"@, "invert"@);
    lemma_all_aimed_concat(c, acc6, part7, idx, h);
    let acc7 = acc6 + part7;
    lemma_thumb_wheel_divert_aimed(c, idx, h);
    let part8 = toggle_setting(c.thumb_wheel_divert, SettingTarget::ThumbWheel, "thumb-wheel divert"@, "divert"@);
    lemma_all_aimed_concat(c, acc7, part8, idx, h);
    let acc8 = acc7 + part8;
    lemma_force_button_aimed(c, idx, h);
    let part9 = number_setting(widen_u16(c.force_button), SettingTarget::ForceButton, "force-button"@, ""@);
    lemma_all_aimed_concat(c, acc8, part9, idx, h);
    let acc9 = acc8 + part9;
    lemma_haptic_strength_aimed(c, idx, h);
    let part10 = number_setting(widen_u8(c.haptic_strength), SettingTarget::HapticStrength, "haptic strength"@, ""@);
    lemma_all_aimed_concat(c, acc9, part10, idx, h);
    let acc10 = acc9 + part10;
    assert(acc10 =~= saved_settings(c));
}

} // verus!

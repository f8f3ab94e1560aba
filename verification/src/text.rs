//! Character-level helpers shared by the argument parsers, the config format and the status
//! renderers: Unicode whitespace trimming, unsigned decimal parsing with the standard library's
//! error kinds, and decimal/hexadecimal rendering.

use vstd::prelude::*;

verus! {

/// Why a piece of text is not an unsigned number of the expected width.
#[derive(Clone, Copy, Debug, PartialEq, Eq)]
pub enum NumberError {
    Empty,
    InvalidDigit,
    PosOverflow,
}

/// Unicode `White_Space` characters, the set that `char::is_whitespace` accepts.
pub open spec fn is_ws(c: char) -> bool {
    let u = c as u32;
    ||| 0x09 <= u <= 0x0d
    ||| u == 0x20
    ||| u == 0x85
    ||| u == 0xa0
    ||| u == 0x1680
    ||| 0x2000 <= u <= 0x200a
    ||| u == 0x2028
    ||| u == 0x2029
    ||| u == 0x202f
    ||| u == 0x205f
    ||| u == 0x3000
}

pub open spec fn trim_start(s: Seq<char>) -> Seq<char>
    decreases s.len(),
{
    if s.len() > 0 && is_ws(s[0]) {
        trim_start(s.drop_first())
    } else {
        s
    }
}

pub open spec fn trim_end(s: Seq<char>) -> Seq<char>
    decreases s.len(),
{
    if s.len() > 0 && is_ws(s.last()) {
        trim_end(s.drop_last())
    } else {
        s
    }
}

/// What `str::trim` leaves of a text: leading and trailing whitespace removed.
pub open spec fn trim(s: Seq<char>) -> Seq<char> {
    trim_end(trim_start(s))
}

pub open spec fn is_digit(c: char) -> bool {
    '0' <= c && c <= '9'
}

pub open spec fn digit_value(c: char) -> nat {
    (c as u32 - '0' as u32) as nat
}

pub open spec fn digit_char(d: nat) -> char {
    if d == 0 {
        '0'
    } else if d == 1 {
        '1'
    } else if d == 2 {
        '2'
    } else if d == 3 {
        '3'
    } else if d == 4 {
        '4'
    } else if d == 5 {
        '5'
    } else if d == 6 {
        '6'
    } else if d == 7 {
        '7'
    } else if d == 8 {
        '8'
    } else {
        '9'
    }
}

/// The decimal rendering of `n`, as `{}` prints an unsigned integer.
pub open spec fn dec(n: nat) -> Seq<char>
    decreases n,
{
    if n < 10 {
        seq![digit_char(n)]
    } else {
        dec(n / 10).push(digit_char(n % 10))
    }
}

/// Digits read left to right onto `acc`; the first non-digit, or the first prefix whose value
/// exceeds `max`, decides the error.
pub open spec fn digits_from(d: Seq<char>, acc: nat, max: nat) -> Result<nat, NumberError>
    decreases d.len(),
{
    if d.len() == 0 {
        Ok(acc)
    } else if !is_digit(d[0]) {
        Err(NumberError::InvalidDigit)
    } else if acc * 10 + digit_value(d[0]) > max {
        Err(NumberError::PosOverflow)
    } else {
        digits_from(d.drop_first(), acc * 10 + digit_value(d[0]), max)
    }
}

/// Parsing an unsigned integer whose largest value is `max`, as `str::parse` does for the
/// unsigned integer types: an optional leading `+`, then at least one decimal digit.
pub open spec fn parse_unsigned(s: Seq<char>, max: nat) -> Result<nat, NumberError> {
    if s.len() == 0 {
        Err(NumberError::Empty)
    } else if s.len() == 1 && (s[0] == '+' || s[0] == '-') {
        Err(NumberError::InvalidDigit)
    } else if s[0] == '+' {
        digits_from(s.drop_first(), 0, max)
    } else {
        digits_from(s, 0, max)
    }
}

pub open spec fn hex_upper(d: nat) -> char {
    if d < 10 {
        digit_char(d)
    } else if d == 10 {
        'A'
    } else if d == 11 {
        'B'
    } else if d == 12 {
        'C'
    } else if d == 13 {
        'D'
    } else if d == 14 {
        'E'
    } else {
        'F'
    }
}

pub open spec fn hex_lower(d: nat) -> char {
    if d < 10 {
        digit_char(d)
    } else if d == 10 {
        'a'
    } else if d == 11 {
        'b'
    } else if d == 12 {
        'c'
    } else if d == 13 {
        'd'
    } else if d == 14 {
        'e'
    } else {
        'f'
    }
}

/// `{:02X}` of a byte.
pub open spec fn hex2_upper(b: u8) -> Seq<char> {
    seq![hex_upper(b as nat / 16), hex_upper(b as nat % 16)]
}

/// `{:02x}` of a byte.
pub open spec fn hex2_lower(b: u8) -> Seq<char> {
    seq![hex_lower(b as nat / 16), hex_lower(b as nat % 16)]
}

/// `{:04X}` of a 16-bit value.
pub open spec fn hex4_upper(v: u16) -> Seq<char> {
    seq![
        hex_upper(v as nat / 4096),
        hex_upper((v as nat / 256) % 16),
        hex_upper((v as nat / 16) % 16),
        hex_upper(v as nat % 16),
    ]
}

/// `{:04x}` of a 16-bit value.
pub open spec fn hex4_lower(v: u16) -> Seq<char> {
    seq![
        hex_lower(v as nat / 4096),
        hex_lower((v as nat / 256) % 16),
        hex_lower((v as nat / 16) % 16),
        hex_lower(v as nat % 16),
    ]
}

/// The text of a boolean as `{}` prints it.
pub open spec fn bool_text(b: bool) -> Seq<char> {
    if b {
        "true"@
    } else {
        "false"@
    }
}

/// Appends one character to a string (`String::push`).
#[verifier::external_body]
pub fn push_char(s: &mut String, c: char)
    ensures
        final(s)@ == old(s)@.push(c),
{
    s.push(c);
}

/// The characters of a string slice, in order.
pub fn chars_of(s: &str) -> (v: Vec<char>)
    ensures
        v@ == s@,
{
    let mut v: Vec<char> = Vec::new();
    for c in it: s.chars()
        invariant
            v@ == it.seq().take(it.index() as int),
    {
        v.push(c);
    }
    v
}

/// A string holding exactly the given characters.
pub fn string_of(v: &[char]) -> (s: String)
    ensures
        s@ == v@,
{
    let mut s = String::new();
    let mut i: usize = 0;
    while i < v.len()
        invariant
            i <= v.len(),
            s@ == v@.take(i as int),
        decreases v.len() - i,
    {
        push_char(&mut s, v[i]);
        i = i + 1;
        assert(v@.take(i as int) == v@.take(i - 1).push(v@[i - 1]));
    }
    assert(v@.take(v.len() as int) == v@);
    s
}

/// Whether two character sequences are equal, one of them given as a string slice.
pub fn chars_eq(a: &[char], b: &str) -> (r: bool)
    ensures
        r == (a@ == b@),
{
    let bv = chars_of(b);
    if a.len() != bv.len() {
        return false;
    }
    let mut i: usize = 0;
    while i < a.len()
        invariant
            i <= a.len(),
            a.len() == bv.len(),
            bv@ == b@,
            forall|j: int| 0 <= j < i ==> a@[j] == bv@[j],
        decreases a.len() - i,
    {
        if a[i] != bv[i] {
            return false;
        }
        i = i + 1;
    }
    assert(a@ =~= bv@);
    true
}

pub fn is_whitespace(c: char) -> (r: bool)
    ensures
        r == is_ws(c),
{
    let u = c as u32;
    (0x09 <= u && u <= 0x0d) || u == 0x20 || u == 0x85 || u == 0xa0 || u == 0x1680 || (0x2000
        <= u && u <= 0x200a) || u == 0x2028 || u == 0x2029 || u == 0x202f || u == 0x205f || u
        == 0x3000
}

proof fn lemma_trim_start_step(s: Seq<char>, i: int)
    requires
        0 <= i < s.len(),
        is_ws(s[i]),
    ensures
        trim_start(s.subrange(i, s.len() as int)) == trim_start(s.subrange(i + 1, s.len() as int)),
{
    assert(s.subrange(i, s.len() as int).drop_first() =~= s.subrange(i + 1, s.len() as int));
}

proof fn lemma_trim_end_step(t: Seq<char>, j: int)
    requires
        0 < j <= t.len(),
        is_ws(t[j - 1]),
    ensures
        trim_end(t.subrange(0, j)) == trim_end(t.subrange(0, j - 1)),
{
    assert(t.subrange(0, j).drop_last() =~= t.subrange(0, j - 1));
}

/// The characters of `s` without leading and trailing whitespace (`str::trim`).
pub fn trim_chars(s: &[char]) -> (r: Vec<char>)
    ensures
        r@ == trim(s@),
{
    let n = s.len();
    let mut i: usize = 0;
    assert(s@.subrange(0, n as int) =~= s@);
    while i < n && is_whitespace(s[i])
        invariant
            i <= n,
            n == s@.len(),
            trim_start(s@) == trim_start(s@.subrange(i as int, n as int)),
        decreases n - i,
    {
        proof {
            lemma_trim_start_step(s@, i as int);
        }
        i = i + 1;
    }
    let ghost t = s@.subrange(i as int, n as int);
    assert(trim_start(s@) == t);
    let mut j: usize = n;
    assert(t.subrange(0, (j - i) as int) =~= t);
    while j > i && is_whitespace(s[j - 1])
        invariant
            i <= j <= n,
            n == s@.len(),
            t == s@.subrange(i as int, n as int),
            trim_end(t) == trim_end(t.subrange(0, (j - i) as int)),
        decreases j,
    {
        proof {
            assert(t[(j - i) - 1] == s@[j - 1]);
            lemma_trim_end_step(t, (j - i) as int);
        }
        j = j - 1;
    }
    let mut r: Vec<char> = Vec::new();
    let mut k: usize = i;
    while k < j
        invariant
            i <= k <= j <= n,
            n == s@.len(),
            r@ == s@.subrange(i as int, k as int),
        decreases j - k,
    {
        r.push(s[k]);
        k = k + 1;
        assert(r@ =~= s@.subrange(i as int, k as int));
    }
    assert(r@ =~= t.subrange(0, (j - i) as int));
    r
}

pub fn digit_of(d: u64) -> (c: char)
    requires
        d < 10,
    ensures
        c == digit_char(d as nat),
{
    if d == 0 {
        '0'
    } else if d == 1 {
        '1'
    } else if d == 2 {
        '2'
    } else if d == 3 {
        '3'
    } else if d == 4 {
        '4'
    } else if d == 5 {
        '5'
    } else if d == 6 {
        '6'
    } else if d == 7 {
        '7'
    } else if d == 8 {
        '8'
    } else {
        '9'
    }
}

/// Appends the decimal rendering of `n`.
pub fn push_dec(s: &mut String, n: u64)
    ensures
        final(s)@ == old(s)@ + dec(n as nat),
    decreases n,
{
    if n >= 10 {
        push_dec(s, n / 10);
    }
    push_char(s, digit_of(n % 10));
    proof {
        if n < 10 {
            assert(old(s)@ + dec(n as nat) =~= old(s)@.push(digit_char(n as nat)));
        } else {
            assert(old(s)@ + dec(n as nat) =~= (old(s)@ + dec((n / 10) as nat)).push(
                digit_char((n % 10) as nat),
            ));
        }
    }
}

/// Appends a text.
pub fn push_str(s: &mut String, t: &str)
    ensures
        final(s)@ == old(s)@ + t@,
{
    s.append(t);
}

/// Appends `true` or `false`.
pub fn push_bool(s: &mut String, b: bool)
    ensures
        final(s)@ == old(s)@ + bool_text(b),
{
    if b {
        s.append("true");
    } else {
        s.append("false");
    }
}

pub fn hex_digit_upper(d: u8) -> (c: char)
    requires
        d < 16,
    ensures
        c == hex_upper(d as nat),
{
    if d < 10 {
        digit_of(d as u64)
    } else if d == 10 {
        'A'
    } else if d == 11 {
        'B'
    } else if d == 12 {
        'C'
    } else if d == 13 {
        'D'
    } else if d == 14 {
        'E'
    } else {
        'F'
    }
}

pub fn hex_digit_lower(d: u8) -> (c: char)
    requires
        d < 16,
    ensures
        c == hex_lower(d as nat),
{
    if d < 10 {
        digit_of(d as u64)
    } else if d == 10 {
        'a'
    } else if d == 11 {
        'b'
    } else if d == 12 {
        'c'
    } else if d == 13 {
        'd'
    } else if d == 14 {
        'e'
    } else {
        'f'
    }
}

/// Appends `{:02X}` of a byte.
pub fn push_hex2_upper(s: &mut String, b: u8)
    ensures
        final(s)@ == old(s)@ + hex2_upper(b),
{
    push_char(s, hex_digit_upper(b / 16));
    push_char(s, hex_digit_upper(b % 16));
    assert(final(s)@ =~= old(s)@ + hex2_upper(b));
}

/// Appends `{:02x}` of a byte.
pub fn push_hex2_lower(s: &mut String, b: u8)
    ensures
        final(s)@ == old(s)@ + hex2_lower(b),
{
    push_char(s, hex_digit_lower(b / 16));
    push_char(s, hex_digit_lower(b % 16));
    assert(final(s)@ =~= old(s)@ + hex2_lower(b));
}

/// Appends `{:04X}` of a 16-bit value.
pub fn push_hex4_upper(s: &mut String, v: u16)
    ensures
        final(s)@ == old(s)@ + hex4_upper(v),
{
    push_char(s, hex_digit_upper((v / 4096) as u8));
    push_char(s, hex_digit_upper(((v / 256) % 16) as u8));
    push_char(s, hex_digit_upper(((v / 16) % 16) as u8));
    push_char(s, hex_digit_upper((v % 16) as u8));
    assert(final(s)@ =~= old(s)@ + hex4_upper(v));
}

/// Appends `{:04x}` of a 16-bit value.
pub fn push_hex4_lower(s: &mut String, v: u16)
    ensures
        final(s)@ == old(s)@ + hex4_lower(v),
{
    push_char(s, hex_digit_lower((v / 4096) as u8));
    push_char(s, hex_digit_lower(((v / 256) % 16) as u8));
    push_char(s, hex_digit_lower(((v / 16) % 16) as u8));
    push_char(s, hex_digit_lower((v % 16) as u8));
    assert(final(s)@ =~= old(s)@ + hex4_lower(v));
}

pub fn is_ascii_digit(c: char) -> (r: bool)
    ensures
        r == is_digit(c),
{
    '0' <= c && c <= '9'
}

/// Parses an unsigned integer no larger than `max` from exactly the given characters.
pub fn parse_unsigned_chars(s: &[char], max: u64) -> (r: Result<u64, NumberError>)
    requires
        max <= u32::MAX,
    ensures
        match parse_unsigned(s@, max as nat) {
            Ok(n) => n <= max && r == Ok::<u64, NumberError>(n as u64),
            Err(e) => r == Err::<u64, NumberError>(e),
        },
{
    let n = s.len();
    if n == 0 {
        return Err(NumberError::Empty);
    }
    if n == 1 && (s[0] == '+' || s[0] == '-') {
        return Err(NumberError::InvalidDigit);
    }
    let start: usize = if s[0] == '+' {
        1
    } else {
        0
    };
    let ghost d = s@.subrange(start as int, n as int);
    assert(start == 1 ==> d =~= s@.drop_first());
    assert(start == 0 ==> d =~= s@);
    assert(parse_unsigned(s@, max as nat) == digits_from(d, 0, max as nat));
    let mut acc: u64 = 0;
    let mut i: usize = start;
    while i < n
        invariant
            start <= i <= n,
            n == s@.len(),
            d == s@.subrange(start as int, n as int),
            parse_unsigned(s@, max as nat) == digits_from(d, 0, max as nat),
            acc <= max,
            max <= u32::MAX,
            digits_from(d, 0, max as nat) == digits_from(
                s@.subrange(i as int, n as int),
                acc as nat,
                max as nat,
            ),
        decreases n - i,
    {
        let c = s[i];
        proof {
            assert(s@.subrange(i as int, n as int)[0] == c);
        }
        if !is_ascii_digit(c) {
            assert(digits_from(s@.subrange(i as int, n as int), acc as nat, max as nat) == Err::<
                nat,
                NumberError,
            >(NumberError::InvalidDigit));
            return Err(NumberError::InvalidDigit);
        }
        let v = (c as u32 - '0' as u32) as u64;
        assert(v == digit_value(c));
        assert(acc * 10 + v <= u32::MAX * 10 + 9) by (nonlinear_arith)
            requires
                acc <= u32::MAX,
                v <= 9,
        ;
        if acc * 10 + v > max {
            assert(digits_from(s@.subrange(i as int, n as int), acc as nat, max as nat) == Err::<
                nat,
                NumberError,
            >(NumberError::PosOverflow));
            return Err(NumberError::PosOverflow);
        }
        proof {
            assert(s@.subrange(i as int, n as int).drop_first() =~= s@.subrange(
                i + 1,
                n as int,
            ));
        }
        acc = acc * 10 + v;
        i = i + 1;
    }
    assert(s@.subrange(n as int, n as int) =~= Seq::<char>::empty());
    Ok(acc)
}

/// Parses an unsigned integer no larger than `max` from the text with surrounding whitespace
/// removed, as `text.trim().parse()` does.
pub fn parse_trimmed(s: &[char], max: u64) -> (r: Result<u64, NumberError>)
    requires
        max <= u32::MAX,
    ensures
        match parse_unsigned(trim(s@), max as nat) {
            Ok(n) => n <= max && r == Ok::<u64, NumberError>(n as u64),
            Err(e) => r == Err::<u64, NumberError>(e),
        },
{
    let t = trim_chars(s);
    parse_unsigned_chars(t.as_slice(), max)
}

/// Reading back a decimal rendering: the digits of `n` followed by `rest` read as `rest` alone
/// would be read after `n`.
pub proof fn lemma_digits_of_dec(n: nat, rest: Seq<char>, max: nat)
    requires
        n <= max,
    ensures
        digits_from(dec(n) + rest, 0, max) == digits_from(rest, n, max),
    decreases n,
{
    if n < 10 {
        assert((dec(n) + rest)[0] == digit_char(n));
        assert((dec(n) + rest).drop_first() =~= rest);
        assert(digit_value(digit_char(n)) == n);
    } else {
        lemma_digits_of_dec(n / 10, seq![digit_char(n % 10)] + rest, max);
        assert(dec(n) + rest =~= dec(n / 10) + (seq![digit_char(n % 10)] + rest));
        let r2 = seq![digit_char(n % 10)] + rest;
        assert(r2[0] == digit_char(n % 10));
        assert(r2.drop_first() =~= rest);
        assert(digit_value(digit_char(n % 10)) == n % 10);
        assert((n / 10) * 10 + n % 10 == n);
    }
}

/// The decimal rendering of a value parses back to the value.
pub proof fn lemma_parse_dec(n: nat, max: nat)
    requires
        n <= max,
    ensures
        parse_unsigned(dec(n), max) == Ok::<nat, NumberError>(n),
{
    lemma_digits_of_dec(n, Seq::<char>::empty(), max);
    assert(dec(n) + Seq::<char>::empty() =~= dec(n));
    lemma_dec_first_is_digit(n);
}

/// A decimal rendering is a non-empty run of digits, with no whitespace in it.
pub proof fn lemma_dec_first_is_digit(n: nat)
    ensures
        dec(n).len() >= 1,
        is_digit(dec(n)[0]),
        forall|i: int| 0 <= i < dec(n).len() ==> #[trigger] is_digit(dec(n)[i]) && !is_ws(dec(n)[i]),
    decreases n,
{
    if n >= 10 {
        lemma_dec_first_is_digit(n / 10);
    }
}


/// Whether `s` has two dots at position `i`.
pub open spec fn dotdot_at(s: Seq<char>, i: int) -> bool {
    0 <= i && i + 1 < s.len() && s[i] == '.' && s[i + 1] == '.'
}

/// The first position from `i` on where `s` has two dots (`str::split_once("..")`).
pub open spec fn first_dotdot_from(s: Seq<char>, i: nat) -> Option<nat>
    decreases s.len() - i,
{
    if i + 1 >= s.len() {
        None
    } else if dotdot_at(s, i as int) {
        Some(i)
    } else {
        first_dotdot_from(s, i + 1)
    }
}

pub fn find_dotdot(s: &[char]) -> (r: Option<usize>)
    ensures
        match first_dotdot_from(s@, 0) {
            Some(i) => r == Some(i as usize) && i + 1 < s@.len(),
            None => r is None,
        },
{
    let mut i: usize = 0;
    while s.len() > 1 && i < s.len() - 1
        invariant
            first_dotdot_from(s@, 0) == first_dotdot_from(s@, i as nat),
        decreases s.len() - i,
    {
        if s[i] == '.' && s[i + 1] == '.' {
            return Some(i);
        }
        i = i + 1;
    }
    None
}

/// The characters of `s` from `from` up to `to`.
pub fn sub_chars(s: &[char], from: usize, to: usize) -> (r: Vec<char>)
    requires
        from <= to <= s.len(),
    ensures
        r@ == s@.subrange(from as int, to as int),
{
    let mut r: Vec<char> = Vec::new();
    let mut k: usize = from;
    while k < to
        invariant
            from <= k <= to <= s.len(),
            r@ == s@.subrange(from as int, k as int),
        decreases to - k,
    {
        r.push(s[k]);
        k = k + 1;
        assert(r@ =~= s@.subrange(from as int, k as int));
    }
    r
}

} // verus!

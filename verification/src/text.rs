//! Text helpers: trimming, radix digits, fixed-width hexadecimal identifiers and name ordering.
use vstd::prelude::*;

verus! {

/// Unicode `White_Space`: the characters that trimming removes.
pub open spec fn white(c: char) -> bool {
    let n = c as u32;
    ||| 0x09 <= n <= 0x0d
    ||| n == 0x20
    ||| n == 0x85
    ||| n == 0xa0
    ||| n == 0x1680
    ||| 0x2000 <= n <= 0x200a
    ||| n == 0x2028
    ||| n == 0x2029
    ||| n == 0x202f
    ||| n == 0x205f
    ||| n == 0x3000
}

/// The Unicode general category `Cc`: the C0 and C1 control codes and DEL.
pub open spec fn control(c: char) -> bool {
    let n = c as u32;
    n <= 0x1f || 0x7f <= n <= 0x9f
}

pub open spec fn has_control(s: Seq<char>) -> bool {
    exists|i: int| 0 <= i < s.len() && control(#[trigger] s[i])
}

/// `s` without its leading white space.
pub open spec fn trimmed_start(s: Seq<char>) -> Seq<char>
    decreases s.len(),
{
    if s.len() > 0 && white(s[0]) {
        trimmed_start(s.subrange(1, s.len() as int))
    } else {
        s
    }
}

/// `s` without its trailing white space.
pub open spec fn trimmed_end(s: Seq<char>) -> Seq<char>
    decreases s.len(),
{
    if s.len() > 0 && white(s.last()) {
        trimmed_end(s.drop_last())
    } else {
        s
    }
}

/// `s` without the white space at either end.
pub open spec fn trimmed(s: Seq<char>) -> Seq<char> {
    trimmed_end(trimmed_start(s))
}

/// A trimmed text neither starts nor ends with white space, so that trimming it again changes
/// nothing.
pub proof fn trimming_is_idempotent(s: Seq<char>)
    ensures
        trimmed(s).len() > 0 ==> !white(trimmed(s)[0]) && !white(trimmed(s).last()),
        trimmed(trimmed(s)) == trimmed(s),
{
    start_is_trimmed(s);
    end_is_trimmed(trimmed_start(s));
}

proof fn start_is_trimmed(s: Seq<char>)
    ensures
        trimmed_start(s).len() > 0 ==> !white(trimmed_start(s)[0]),
    decreases s.len(),
{
    if s.len() > 0 && white(s[0]) {
        start_is_trimmed(s.subrange(1, s.len() as int));
    }
}

proof fn end_is_trimmed(s: Seq<char>)
    ensures
        trimmed_end(s).len() > 0 ==> !white(trimmed_end(s).last()) && trimmed_end(s)[0] == s[0],
    decreases s.len(),
{
    if s.len() > 0 && white(s.last()) {
        end_is_trimmed(s.drop_last());
    }
}

pub fn is_whitespace(c: char) -> (r: bool)
    ensures
        r == white(c),
{
    let n: u32 = c as u32;
    (0x09 <= n && n <= 0x0d) || n == 0x20 || n == 0x85 || n == 0xa0 || n == 0x1680 || (0x2000 <= n
        && n <= 0x200a) || n == 0x2028 || n == 0x2029 || n == 0x202f || n == 0x205f || n == 0x3000
}

pub fn is_control(c: char) -> (r: bool)
    ensures
        r == control(c),
{
    let n: u32 = c as u32;
    n <= 0x1f || (0x7f <= n && n <= 0x9f)
}

/// The standard library's `String::push`: appends one character.
pub assume_specification[ String::push ](text: &mut String, c: char)
    ensures
        final(text)@ == old(text)@.push(c),
;

/// The characters of `text`, in order.
pub fn chars_of(text: &str) -> (r: Vec<char>)
    ensures
        r@ == text@,
{
    let mut r: Vec<char> = Vec::new();
    for c in it: text.chars()
        invariant
            it.seq() == text@,
            r@ == text@.take(it.index() as int),
    {
        r.push(c);
    }
    r
}

pub fn contains_control(text: &str) -> (r: bool)
    ensures
        r == has_control(text@),
{
    let chars = chars_of(text);
    for i in 0..chars.len()
        invariant
            chars@ == text@,
            forall|j: int| 0 <= j < i ==> !control(#[trigger] text@[j]),
    {
        if is_control(chars[i]) {
            assert(control(text@[i as int]));
            return true;
        }
    }
    false
}

/// `text` without the white space at either end.
pub fn trim(text: &str) -> (r: &str)
    ensures
        r@ == trimmed(text@),
{
    let chars = chars_of(text);
    let n: usize = chars.len();
    let mut from: usize = 0;
    assert(text@.subrange(0, n as int) =~= text@);
    while from < n && is_whitespace(chars[from])
        invariant
            from <= n,
            n == text@.len(),
            chars@ == text@,
            trimmed_start(text@) == trimmed_start(text@.subrange(from as int, n as int)),
        decreases n - from,
    {
        assert(text@.subrange(from as int, n as int).subrange(1, n - from) =~= text@.subrange(
            from + 1,
            n as int,
        ));
        from = from + 1;
    }
    let mut to: usize = n;
    while from < to && is_whitespace(chars[to - 1])
        invariant
            from <= to <= n,
            n == text@.len(),
            chars@ == text@,
            trimmed_end(text@.subrange(from as int, n as int)) == trimmed_end(
                text@.subrange(from as int, to as int),
            ),
        decreases to,
    {
        assert(text@.subrange(from as int, to as int).drop_last() =~= text@.subrange(
            from as int,
            to - 1,
        ));
        to = to - 1;
    }
    text.substring_char(from, to)
}

/// `s` without one leading `0x` or `0X`.
pub open spec fn without_hex_prefix(s: Seq<char>) -> Seq<char> {
    if s.len() >= 2 && s[0] == '0' && (s[1] == 'x' || s[1] == 'X') {
        s.subrange(2, s.len() as int)
    } else {
        s
    }
}

pub fn strip_hex_prefix(text: &str) -> (r: &str)
    ensures
        r@ == without_hex_prefix(text@),
{
    let n: usize = text.unicode_len();
    if n >= 2 && text.get_char(0) == '0' && (text.get_char(1) == 'x' || text.get_char(1) == 'X') {
        text.substring_char(2, n)
    } else {
        text
    }
}

/// The value of one digit in `radix`; letters of either case follow the decimal digits.
pub open spec fn digit_value(c: char, radix: int) -> Option<int> {
    let n = c as int;
    let v = if '0' <= c <= '9' {
        n - 0x30
    } else if 'a' <= c <= 'z' {
        n - 0x61 + 10
    } else if 'A' <= c <= 'Z' {
        n - 0x41 + 10
    } else {
        radix
    };
    if v < radix {
        Some(v)
    } else {
        None
    }
}

/// The number that a run of digits denotes, most significant digit first.
pub open spec fn digits_value(s: Seq<char>, radix: int) -> Option<int>
    decreases s.len(),
{
    if s.len() == 0 {
        Some(0)
    } else {
        match (digits_value(s.drop_last(), radix), digit_value(s.last(), radix)) {
            (Some(high), Some(low)) => Some(high * radix + low),
            _ => None,
        }
    }
}

/// An optional `+`, then one or more digits whose value fits in 64 bits.
pub open spec fn parsed_u64(s: Seq<char>, radix: int) -> Option<u64> {
    let digits = if s.len() > 0 && s[0] == '+' {
        s.subrange(1, s.len() as int)
    } else {
        s
    };
    match digits_value(digits, radix) {
        Some(v) => if digits.len() > 0 && v <= u64::MAX {
            Some(v as u64)
        } else {
            None
        },
        None => None,
    }
}

/// What the standard library says of a text that is no number in `radix`.
pub uninterp spec fn u64_error_text(s: Seq<char>, radix: int) -> Seq<char>;

/// The standard library's `u64::from_str_radix`. It accepts exactly an optional `+` followed by
/// digits whose value fits; how it words a refusal is left to the library.
#[verifier::external_body]
pub(crate) fn u64_from_str_radix(text: &str, radix: u32) -> (r: Result<u64, String>)
    requires
        2 <= radix <= 36,
    ensures
        match r {
            Ok(value) => parsed_u64(text@, radix as int) == Some(value),
            Err(message) => {
                &&& parsed_u64(text@, radix as int) is None
                &&& message@ == u64_error_text(text@, radix as int)
            },
        },
{
    u64::from_str_radix(text, radix).map_err(|err| err.to_string())
}

/// One lower-case hexadecimal digit.
pub open spec fn hex_digit(d: int) -> char {
    if d < 10 {
        (0x30 + d) as char
    } else {
        (0x61 + d - 10) as char
    }
}

/// The lowest `width` hexadecimal digits of `n`, most significant first.
pub open spec fn hex_text(n: int, width: nat) -> Seq<char>
    decreases width,
{
    if width == 0 {
        Seq::empty()
    } else {
        hex_text(n / 16, (width - 1) as nat).push(hex_digit(n % 16))
    }
}

/// The decimal digits of `n`.
pub open spec fn decimal_text(n: nat) -> Seq<char>
    decreases n,
{
    if n < 10 {
        seq![(0x30 + n) as char]
    } else {
        decimal_text(n / 10).push((0x30 + n % 10) as char)
    }
}

/// `n` in decimal, with a leading `-` where it is negative.
pub open spec fn signed_text(n: int) -> Seq<char> {
    if n < 0 {
        seq!['-'] + decimal_text((-n) as nat)
    } else {
        decimal_text(n as nat)
    }
}

fn push_hex(out: &mut String, n: u64, width: usize)
    ensures
        final(out)@ == old(out)@ + hex_text(n as int, width as nat),
    decreases width,
{
    if width > 0 {
        push_hex(out, n / 16, width - 1);
        let d: u8 = (n % 16) as u8;
        let c: char = if d < 10 {
            (0x30u8 + d) as char
        } else {
            (0x61u8 + (d - 10)) as char
        };
        out.push(c);
    }
    proof {
        assert(out@ =~= old(out)@ + hex_text(n as int, width as nat));
    }
}

fn push_decimal(out: &mut String, n: u64)
    ensures
        final(out)@ == old(out)@ + decimal_text(n as nat),
    decreases n,
{
    if n >= 10 {
        push_decimal(out, n / 10);
    }
    out.push((0x30u8 + (n % 10) as u8) as char);
    proof {
        assert(out@ =~= old(out)@ + decimal_text(n as nat));
    }
}

/// Sixteen hexadecimal digits: how an identifier is stored.
pub fn format_hex16(n: u64) -> (r: String)
    ensures
        r@ == hex_text(n as int, 16),
{
    let mut out = String::new();
    push_hex(&mut out, n, 16);
    assert(out@ =~= hex_text(n as int, 16));
    out
}

/// `0x` and sixteen hexadecimal digits: how an identifier is shown.
pub open spec fn shown_id(n: u64) -> Seq<char> {
    seq!['0', 'x'] + hex_text(n as int, 16)
}

pub fn format_shown_id(n: u64) -> (r: String)
    ensures
        r@ == shown_id(n),
{
    let mut out = String::new();
    out.push('0');
    out.push('x');
    push_hex(&mut out, n, 16);
    assert(out@ =~= shown_id(n));
    out
}

pub fn push_signed(out: &mut String, n: i64)
    ensures
        final(out)@ == old(out)@ + signed_text(n as int),
{
    if n < 0 {
        out.push('-');
        let magnitude: u64 = (-(n as i128)) as u64;
        push_decimal(out, magnitude);
    } else {
        push_decimal(out, n as u64);
    }
    proof {
        assert(out@ =~= old(out)@ + signed_text(n as int));
    }
}

/// Whether two texts hold the same characters.
pub fn same_text(a: &str, b: &str) -> (r: bool)
    ensures
        r == (a@ == b@),
{
    let a: String = a.to_string();
    let b: String = b.to_string();
    a == b
}

/// The characters of an optional text.
pub open spec fn optional_text(t: Option<String>) -> Option<Seq<char>> {
    match t {
        Some(text) => Some(text@),
        None => None,
    }
}

/// Whether two optional texts are equal.
pub fn same_optional(a: &Option<String>, b: &Option<String>) -> (r: bool)
    ensures
        r == (optional_text(*a) == optional_text(*b)),
{
    match (a, b) {
        (Some(a), Some(b)) => *a == *b,
        (None, None) => true,
        _ => false,
    }
}

pub fn clone_optional(t: &Option<String>) -> (r: Option<String>)
    ensures
        r == *t,
{
    match t {
        Some(text) => Some(text.clone()),
        None => None,
    }
}

/// One character with an ASCII capital turned into its small letter.
pub open spec fn lower_char(c: char) -> char {
    if 'A' <= c <= 'Z' {
        (c as int + 0x20) as char
    } else {
        c
    }
}

/// `s` with every ASCII capital turned into its small letter.
pub open spec fn lowered(s: Seq<char>) -> Seq<char> {
    s.map_values(|c: char| lower_char(c))
}

pub fn to_ascii_lowercase(text: &str) -> (r: Vec<char>)
    ensures
        r@ == lowered(text@),
{
    let chars = chars_of(text);
    let mut r: Vec<char> = Vec::new();
    for i in 0..chars.len()
        invariant
            chars@ == text@,
            r@ == lowered(text@).take(i as int),
    {
        let c: char = chars[i];
        let low: char = if 'A' <= c && c <= 'Z' {
            (c as u8 + 0x20u8) as char
        } else {
            c
        };
        r.push(low);
        assert(r@ =~= lowered(text@).take(i + 1));
    }
    r
}

/// The pieces of `s` between commas; a text without a comma is one piece.
pub open spec fn comma_pieces(s: Seq<char>) -> Seq<Seq<char>>
    decreases s.len(),
{
    if s.len() == 0 {
        seq![s]
    } else if s.last() == ',' {
        comma_pieces(s.drop_last()).push(Seq::empty())
    } else {
        let before = comma_pieces(s.drop_last());
        before.update(before.len() - 1, before.last().push(s.last()))
    }
}

pub proof fn comma_pieces_nonempty(s: Seq<char>)
    ensures
        comma_pieces(s).len() > 0,
    decreases s.len(),
{
    if s.len() > 0 {
        comma_pieces_nonempty(s.drop_last());
    }
}

pub open spec fn texts(v: Seq<String>) -> Seq<Seq<char>> {
    v.map_values(|t: String| t@)
}

pub fn split_commas(text: &str) -> (r: Vec<String>)
    ensures
        texts(r@) == comma_pieces(text@),
{
    let chars = chars_of(text);
    let mut done: Vec<String> = Vec::new();
    let mut current = String::new();
    assert(current@ =~= text@.take(0));
    assert(texts(done@).push(current@) =~= comma_pieces(text@.take(0)));
    for i in 0..chars.len()
        invariant
            chars@ == text@,
            texts(done@).push(current@) == comma_pieces(text@.take(i as int)),
    {
        let ghost before = texts(done@).push(current@);
        assert(text@.take(i + 1).drop_last() =~= text@.take(i as int));
        let c: char = chars[i];
        if c == ',' {
            done.push(current);
            current = String::new();
            assert(texts(done@) =~= before);
            assert(current@ =~= Seq::<char>::empty());
        } else {
            current.push(c);
            assert(texts(done@).push(current@) =~= before.update(
                before.len() - 1,
                before.last().push(c),
            ));
        }
    }
    assert(text@.take(chars.len() as int) =~= text@);
    done.push(current);
    assert(texts(done@) =~= comma_pieces(text@));
    done
}

/// A number below `16^width` is what its `width` hexadecimal digits denote.
pub proof fn hex_text_denotes(n: int, width: nat)
    requires
        0 <= n < vstd::arithmetic::power::pow(16, width),
    ensures
        hex_text(n, width).len() == width,
        digits_value(hex_text(n, width), 16) == Some(n),
        forall|i: int| 0 <= i < width ==> (#[trigger] hex_text(n, width)[i]) != '+',
    decreases width,
{
    reveal(vstd::arithmetic::power::pow);
    if width > 0 {
        let high = hex_text(n / 16, (width - 1) as nat);
        assert(vstd::arithmetic::power::pow(16, width) == 16 * vstd::arithmetic::power::pow(
            16,
            (width - 1) as nat,
        ));
        hex_text_denotes(n / 16, (width - 1) as nat);
        assert(hex_text(n, width).drop_last() =~= high);
        assert forall|i: int| 0 <= i < width implies (#[trigger] hex_text(n, width)[i]) != '+' by {
            if i < width - 1 {
                assert(hex_text(n, width)[i] == high[i]);
            }
        }
    }
}

/// The sixteen digits of an identifier read back as that identifier.
pub proof fn hex16_reads_back(n: u64)
    ensures
        hex_text(n as int, 16).len() == 16,
        parsed_u64(hex_text(n as int, 16), 16) == Some(n),
{
    assert(vstd::arithmetic::power::pow(16, 16) == 0x1_0000_0000_0000_0000int) by {
        reveal_with_fuel(vstd::arithmetic::power::pow, 17);
    }
    hex_text_denotes(n as int, 16);
    assert(hex_text(n as int, 16)[0] != '+');
}

} // verus!

//! Small text helpers: reading hexadecimal numbers and writing numbers
//! in a given radix, the way `from_str_radix` and `format!` do.

use vstd::prelude::*;

verus! {

/// Value of one hexadecimal digit (either case), as `char::to_digit(16)`.
pub open spec fn hex_digit_value(c: char) -> Option<nat> {
    if '0' <= c && c <= '9' {
        Some((c as nat - '0' as nat) as nat)
    } else if 'a' <= c && c <= 'f' {
        Some((c as nat - 'a' as nat + 10) as nat)
    } else if 'A' <= c && c <= 'F' {
        Some((c as nat - 'A' as nat + 10) as nat)
    } else {
        None
    }
}

/// Value of a run of hexadecimal digits, most significant first
/// (`Some(0)` for the empty run, `None` if a character is not a digit).
pub open spec fn hex_digits_value(s: Seq<char>) -> Option<nat>
    decreases s.len(),
{
    if s.len() == 0 {
        Some(0)
    } else {
        match (hex_digits_value(s.drop_last()), hex_digit_value(s.last())) {
            (Some(high), Some(d)) => Some(high * 16 + d),
            _ => None,
        }
    }
}

/// What `u32::from_str_radix(s, 16)` accepts: an optional `+`, then at
/// least one hexadecimal digit, with a value that fits in a `u32`.
pub open spec fn hex_u32_value(s: Seq<char>) -> Option<u32> {
    let digits = if s.len() > 0 && s[0] == '+' { s.drop_first() } else { s };
    if digits.len() == 0 {
        None
    } else {
        match hex_digits_value(digits) {
            Some(v) => if v <= u32::MAX { Some(v as u32) } else { None },
            None => None,
        }
    }
}

fn hex_digit(c: char) -> (r: Option<u32>)
    ensures
        r matches Some(d) ==> hex_digit_value(c) == Some(d as nat) && d < 16,
        r is None ==> hex_digit_value(c) is None,
{
    if '0' <= c && c <= '9' {
        Some((c as u32) - ('0' as u32))
    } else if 'a' <= c && c <= 'f' {
        Some((c as u32) - ('a' as u32) + 10)
    } else if 'A' <= c && c <= 'F' {
        Some((c as u32) - ('A' as u32) + 10)
    } else {
        None
    }
}

/// Parse hexadecimal text into a `u32` exactly as `u32::from_str_radix(s, 16)`.
pub fn parse_hex_u32(s: &str) -> (r: Option<u32>)
    ensures
        r == hex_u32_value(s@),
{
    let n = s.unicode_len();
    let start: usize = if n > 0 && s.get_char(0) == '+' { 1 } else { 0 };
    let ghost digits = if s@.len() > 0 && s@[0] == '+' { s@.drop_first() } else { s@ };
    assert(digits =~= s@.subrange(start as int, n as int));
    if start == n {
        return None;
    }
    let mut acc: u64 = 0;
    let mut invalid = false;
    let mut over = false;
    let mut i = start;
    assert(s@.subrange(start as int, start as int) =~= Seq::<char>::empty());
    while i < n
        invariant
            n == s@.len(),
            start <= i <= n,
            acc <= u32::MAX,
            invalid ==> hex_digits_value(s@.subrange(start as int, i as int)) is None,
            !invalid && over ==> (hex_digits_value(s@.subrange(start as int, i as int)) matches Some(v)
                && v > u32::MAX),
            !invalid && !over ==> hex_digits_value(s@.subrange(start as int, i as int))
                == Some(acc as nat),
        decreases n - i,
    {
        let c = s.get_char(i);
        let ghost prev = s@.subrange(start as int, i as int);
        let ghost next = s@.subrange(start as int, i + 1);
        assert(next.drop_last() =~= prev);
        assert(next.last() == c);
        match hex_digit(c) {
            None => {
                invalid = true;
            },
            Some(d) => {
                if !invalid && !over {
                    if acc * 16 + (d as u64) <= 0xFFFF_FFFF {
                        acc = acc * 16 + (d as u64);
                    } else {
                        over = true;
                    }
                }
            },
        }
        i = i + 1;
    }
    assert(s@.subrange(start as int, n as int) =~= digits);
    if invalid || over {
        None
    } else {
        Some(acc as u32)
    }
}

/// Whether two strings hold the same characters.
pub fn str_eq(a: &str, b: &str) -> (r: bool)
    ensures
        r == (a@ == b@),
{
    let n = a.unicode_len();
    if n != b.unicode_len() {
        return false;
    }
    let mut i: usize = 0;
    while i < n
        invariant
            n == a@.len(),
            n == b@.len(),
            i <= n,
            forall|k: int| 0 <= k < i ==> a@[k] == b@[k],
        decreases n - i,
    {
        if a.get_char(i) != b.get_char(i) {
            return false;
        }
        i = i + 1;
    }
    assert(a@ =~= b@);
    true
}

// ──────────────────────────── Writing numbers ────────────────────────────

/// The lower-case digit for a value below 16.
pub open spec fn digit_char(d: nat) -> char {
    if d < 10 {
        (d + '0' as nat) as char
    } else {
        (d - 10 + 'a' as nat) as char
    }
}

/// Lower-case hexadecimal text of `v`, zero-padded to at least `width`
/// digits (as `format!("{:0width$x}", v)`).
pub open spec fn hex_text(v: nat, width: nat) -> Seq<char>
    decreases v + width,
{
    if v < 16 && width <= 1 {
        seq![digit_char(v)]
    } else {
        hex_text(v / 16, if width > 0 { (width - 1) as nat } else { 0 }) + seq![digit_char(v % 16)]
    }
}

/// Decimal text of `v` (as `format!("{}", v)`).
pub open spec fn decimal_text(v: nat) -> Seq<char>
    decreases v,
{
    if v < 10 {
        seq![digit_char(v)]
    } else {
        decimal_text(v / 10) + seq![digit_char(v % 10)]
    }
}

const DIGITS: &'static str = "0123456789abcdef";

/// Append the digit for `d` to `out`.
fn push_digit(out: &mut String, d: u32)
    requires
        d < 16,
    ensures
        final(out)@ == old(out)@.push(digit_char(d as nat)),
{
    proof {
        reveal_strlit("0123456789abcdef");
    }
    let one = DIGITS.substring_char(d as usize, d as usize + 1);
    assert(DIGITS@[d as int] == digit_char(d as nat)) by {
        reveal_strlit("0123456789abcdef");
        assert(d == 0 || d == 1 || d == 2 || d == 3 || d == 4 || d == 5 || d == 6 || d == 7 || d == 8
            || d == 9 || d == 10 || d == 11 || d == 12 || d == 13 || d == 14 || d == 15);
    }
    assert(one@ =~= seq![digit_char(d as nat)]);
    out.append(one);
}

fn append_hex(out: &mut String, v: u32, width: usize)
    ensures
        final(out)@ == old(out)@ + hex_text(v as nat, width as nat),
    decreases v + width,
{
    if v < 16 && width <= 1 {
        push_digit(out, v);
    } else {
        let w = if width > 0 { width - 1 } else { 0 };
        append_hex(out, v / 16, w);
        push_digit(out, v % 16);
        assert(old(out)@ + hex_text(v as nat, width as nat) =~= old(out)@ + hex_text((v / 16) as nat, w as nat)
            + seq![digit_char((v % 16) as nat)]);
    }
}

/// Lower-case hexadecimal text of `v`, zero-padded to at least `width` digits.
pub fn format_hex(v: u32, width: usize) -> (r: String)
    ensures
        r@ == hex_text(v as nat, width as nat),
{
    let mut out = String::new();
    append_hex(&mut out, v, width);
    assert(Seq::<char>::empty() + hex_text(v as nat, width as nat) =~= hex_text(v as nat, width as nat));
    out
}

fn append_decimal(out: &mut String, v: u32)
    ensures
        final(out)@ == old(out)@ + decimal_text(v as nat),
    decreases v,
{
    if v < 10 {
        push_digit(out, v);
    } else {
        append_decimal(out, v / 10);
        push_digit(out, v % 10);
        assert(old(out)@ + decimal_text(v as nat) =~= old(out)@ + decimal_text((v / 10) as nat) + seq![
            digit_char((v % 10) as nat),
        ]);
    }
}

/// Append the decimal text of `v` to `out`.
pub fn push_decimal(out: &mut String, v: u32)
    ensures
        final(out)@ == old(out)@ + decimal_text(v as nat),
{
    append_decimal(out, v);
}

// ──────────────────────────── Trimming ────────────────────────────

/// The characters `char::is_whitespace` accepts (Unicode `White_Space`).
pub open spec fn is_whitespace(c: char) -> bool {
    ('\t' <= c && c <= '\r') || c == ' ' || c == '\u{85}' || c == '\u{a0}' || c == '\u{1680}' || ('\u{2000}'
        <= c && c <= '\u{200a}') || c == '\u{2028}' || c == '\u{2029}' || c == '\u{202f}' || c
        == '\u{205f}' || c == '\u{3000}'
}

fn is_whitespace_exec(c: char) -> (r: bool)
    ensures
        r == is_whitespace(c),
{
    ('\t' <= c && c <= '\r') || c == ' ' || c == '\u{85}' || c == '\u{a0}' || c == '\u{1680}' || ('\u{2000}'
        <= c && c <= '\u{200a}') || c == '\u{2028}' || c == '\u{2029}' || c == '\u{202f}' || c
        == '\u{205f}' || c == '\u{3000}'
}

/// `s` without leading whitespace.
pub open spec fn trim_start_spec(s: Seq<char>) -> Seq<char>
    decreases s.len(),
{
    if s.len() > 0 && is_whitespace(s[0]) {
        trim_start_spec(s.drop_first())
    } else {
        s
    }
}

/// `s` without trailing whitespace.
pub open spec fn trim_end_spec(s: Seq<char>) -> Seq<char>
    decreases s.len(),
{
    if s.len() > 0 && is_whitespace(s.last()) {
        trim_end_spec(s.drop_last())
    } else {
        s
    }
}

/// `s` without leading and trailing whitespace, as `str::trim`.
pub open spec fn trim_spec(s: Seq<char>) -> Seq<char> {
    trim_end_spec(trim_start_spec(s))
}

proof fn lemma_trim_start_at(s: Seq<char>, i: int)
    requires
        0 <= i <= s.len(),
        forall|k: int| 0 <= k < i ==> is_whitespace(s[k]),
        i == s.len() || !is_whitespace(s[i]),
    ensures
        trim_start_spec(s) == s.subrange(i, s.len() as int),
    decreases i,
{
    if i == 0 {
        assert(s.subrange(0, s.len() as int) =~= s);
    } else {
        assert(s.drop_first().subrange(i - 1, s.len() - 1) =~= s.subrange(i, s.len() as int));
        lemma_trim_start_at(s.drop_first(), i - 1);
    }
}

proof fn lemma_trim_end_at(s: Seq<char>, j: int)
    requires
        0 <= j <= s.len(),
        forall|k: int| j <= k < s.len() ==> is_whitespace(s[k]),
        j == 0 || !is_whitespace(s[j - 1]),
    ensures
        trim_end_spec(s) == s.subrange(0, j),
    decreases s.len() - j,
{
    if j == s.len() {
        assert(s.subrange(0, j) =~= s);
    } else {
        assert(s.drop_last().subrange(0, j) =~= s.subrange(0, j));
        lemma_trim_end_at(s.drop_last(), j);
    }
}

/// `s` without leading and trailing whitespace, as `str::trim`.
pub fn trim(s: &str) -> (r: &str)
    ensures
        r@ == trim_spec(s@),
{
    let n = s.unicode_len();
    let mut i: usize = 0;
    while i < n && is_whitespace_exec(s.get_char(i))
        invariant
            n == s@.len(),
            i <= n,
            forall|k: int| 0 <= k < i ==> is_whitespace(s@[k]),
        decreases n - i,
    {
        i = i + 1;
    }
    let mut j: usize = n;
    while j > i && is_whitespace_exec(s.get_char(j - 1))
        invariant
            n == s@.len(),
            i <= j <= n,
            forall|k: int| j <= k < n ==> is_whitespace(s@[k]),
        decreases j,
    {
        j = j - 1;
    }
    proof {
        lemma_trim_start_at(s@, i as int);
        let t = s@.subrange(i as int, n as int);
        assert forall|k: int| j - i <= k < t.len() implies is_whitespace(t[k]) by {
            assert(t[k] == s@[k + i]);
        }
        if j > i {
            assert(t[j - i - 1] == s@[j - 1]);
        }
        lemma_trim_end_at(t, j - i);
        assert(t.subrange(0, j - i) =~= s@.subrange(i as int, j as int));
    }
    s.substring_char(i, j)
}

/// `s` without leading and trailing whitespace (as `str::trim`), owned.
pub fn trim_to_string(s: &str) -> (r: String)
    ensures
        r@ == trim_spec(s@),
{
    String::from_str(trim(s))
}

/// `s` followed by spaces up to `width` characters (as `format!("{:<width$}", s)`).
pub open spec fn pad_right_spec(s: Seq<char>, width: nat) -> Seq<char> {
    if s.len() < width {
        s + Seq::new((width - s.len()) as nat, |i: int| ' ')
    } else {
        s
    }
}

/// `s` followed by spaces up to `width` characters.
pub fn pad_right(s: &str, width: usize) -> (r: String)
    ensures
        r@ == pad_right_spec(s@, width as nat),
{
    let mut out = String::from_str(s);
    let mut n = s.unicode_len();
    while n < width
        invariant
            s@.len() <= n <= (if s@.len() < width { width as nat } else { s@.len() }),
            out@ == s@ + Seq::new((n - s@.len()) as nat, |i: int| ' '),
        decreases width - n,
    {
        let ghost before = out@;
        out.append(" ");
        proof {
            reveal_strlit(" ");
            assert(out@ =~= before.push(' '));
        }
        assert(out@ =~= s@ + Seq::new((n + 1 - s@.len()) as nat, |i: int| ' '));
        n = n + 1;
    }
    assert(out@ =~= pad_right_spec(s@, width as nat));
    out
}

/// `s` without any leading `c` characters, as `str::trim_start_matches(c)`.
pub open spec fn strip_leading_spec(s: Seq<char>, c: char) -> Seq<char>
    decreases s.len(),
{
    if s.len() > 0 && s[0] == c {
        strip_leading_spec(s.drop_first(), c)
    } else {
        s
    }
}

proof fn lemma_strip_leading_at(s: Seq<char>, c: char, i: int)
    requires
        0 <= i <= s.len(),
        forall|k: int| 0 <= k < i ==> s[k] == c,
        i == s.len() || s[i] != c,
    ensures
        strip_leading_spec(s, c) == s.subrange(i, s.len() as int),
    decreases i,
{
    if i == 0 {
        assert(s.subrange(0, s.len() as int) =~= s);
    } else {
        assert(s.drop_first().subrange(i - 1, s.len() - 1) =~= s.subrange(i, s.len() as int));
        lemma_strip_leading_at(s.drop_first(), c, i - 1);
    }
}

/// `s` without any leading `c` characters.
pub fn strip_leading<'a>(s: &'a str, c: char) -> (r: &'a str)
    ensures
        r@ == strip_leading_spec(s@, c),
{
    let n = s.unicode_len();
    let mut i: usize = 0;
    while i < n && s.get_char(i) == c
        invariant
            n == s@.len(),
            i <= n,
            forall|k: int| 0 <= k < i ==> s@[k] == c,
        decreases n - i,
    {
        i = i + 1;
    }
    proof {
        lemma_strip_leading_at(s@, c, i as int);
    }
    s.substring_char(i, n)
}

/// The characters of an optional string slice.
pub open spec fn opt_str_chars(o: Option<&str>) -> Option<Seq<char>> {
    match o {
        Some(s) => Some(s@),
        None => None,
    }
}

/// The characters of an optional string.
pub open spec fn opt_string_chars(o: Option<String>) -> Option<Seq<char>> {
    match o {
        Some(s) => Some(s@),
        None => None,
    }
}

/// Borrow an optional string as an optional slice (`Option::as_deref`).
pub fn opt_as_str(o: &Option<String>) -> (r: Option<&str>)
    ensures
        opt_str_chars(r) == opt_string_chars(*o),
{
    match o {
        Some(s) => Some(s.as_str()),
        None => None,
    }
}

proof fn lemma_digit_char_value(d: nat)
    requires
        d < 16,
    ensures
        hex_digit_value(digit_char(d)) == Some(d),
        digit_char(d) != '+',
        digit_char(d) != '~',
{
}

/// Hexadecimal text reads back as the number it was written from.
pub proof fn lemma_hex_text_value(v: nat, width: nat)
    ensures
        hex_digits_value(hex_text(v, width)) == Some(v),
        hex_text(v, width).len() > 0,
        hex_text(v, width)[0] != '+',
        hex_text(v, width)[0] != '~',
    decreases v + width,
{
    if v < 16 && width <= 1 {
        lemma_digit_char_value(v);
        let t = hex_text(v, width);
        assert(t.drop_last() =~= Seq::<char>::empty());
        assert(t.last() == digit_char(v));
        assert(hex_digits_value(t.drop_last()) == Some(0nat));
        assert(hex_digits_value(t) == Some(v));
    } else {
        let w = if width > 0 { (width - 1) as nat } else { 0 };
        lemma_hex_text_value(v / 16, w);
        lemma_digit_char_value(v % 16);
        let t = hex_text(v, width);
        assert(t.drop_last() =~= hex_text(v / 16, w));
        assert(t.last() == digit_char(v % 16));
        assert(t[0] == hex_text(v / 16, w)[0]);
        assert((v / 16) * 16 + v % 16 == v) by (nonlinear_arith);
        assert(hex_digits_value(t.drop_last()) == Some(v / 16));
        assert(hex_digit_value(t.last()) == Some(v % 16));
        assert(hex_digits_value(t) == Some(((v / 16) * 16 + v % 16) as nat));
    }
}

/// The hexadecimal text of a `u32` parses back to it.
pub proof fn lemma_hex_text_parses(v: u32, width: nat)
    ensures
        hex_u32_value(hex_text(v as nat, width)) == Some(v),
{
    lemma_hex_text_value(v as nat, width);
}

} // verus!

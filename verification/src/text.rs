use vstd::prelude::*;
use vstd::utf8::{decode_utf8, valid_utf8};

verus! {

/// An ASCII decimal digit, `'0'..='9'`.
pub open spec fn is_digit_char(c: char) -> bool {
    '0' <= c && c <= '9'
}

/// Whether `c` is an ASCII decimal digit.
pub fn is_ascii_digit(c: char) -> (r: bool)
    ensures
        r == is_digit_char(c),
{
    '0' <= c && c <= '9'
}

/// The decimal digits are exactly the ten characters `0` to `9`.
pub proof fn law_decimal_digits(c: char)
    ensures
        is_digit_char(c) <==> (c == '0' || c == '1' || c == '2' || c == '3' || c == '4' || c == '5' || c == '6'
            || c == '7' || c == '8' || c == '9'),
{
}

/// The lower-case hexadecimal digit for a value below 16.
pub open spec fn hex_char(d: nat) -> char {
    if d == 0 { '0' }
    else if d == 1 { '1' }
    else if d == 2 { '2' }
    else if d == 3 { '3' }
    else if d == 4 { '4' }
    else if d == 5 { '5' }
    else if d == 6 { '6' }
    else if d == 7 { '7' }
    else if d == 8 { '8' }
    else if d == 9 { '9' }
    else if d == 10 { 'a' }
    else if d == 11 { 'b' }
    else if d == 12 { 'c' }
    else if d == 13 { 'd' }
    else if d == 14 { 'e' }
    else { 'f' }
}

/// One hexadecimal digit as a one-character string.
pub fn hex_digit_str(d: u8) -> (r: &'static str)
    requires
        d < 16,
    ensures
        r@ == seq![hex_char(d as nat)],
{
    proof {
        reveal_strlit("0"); reveal_strlit("1"); reveal_strlit("2"); reveal_strlit("3");
        reveal_strlit("4"); reveal_strlit("5"); reveal_strlit("6"); reveal_strlit("7");
        reveal_strlit("8"); reveal_strlit("9"); reveal_strlit("a"); reveal_strlit("b");
        reveal_strlit("c"); reveal_strlit("d"); reveal_strlit("e"); reveal_strlit("f");
    }
    if d == 0 { "0" }
    else if d == 1 { "1" }
    else if d == 2 { "2" }
    else if d == 3 { "3" }
    else if d == 4 { "4" }
    else if d == 5 { "5" }
    else if d == 6 { "6" }
    else if d == 7 { "7" }
    else if d == 8 { "8" }
    else if d == 9 { "9" }
    else if d == 10 { "a" }
    else if d == 11 { "b" }
    else if d == 12 { "c" }
    else if d == 13 { "d" }
    else if d == 14 { "e" }
    else { "f" }
}

/// The decimal representation of `n`, most significant digit first, with
/// no leading zeros (`"0"` for zero).
pub open spec fn decimal(n: nat) -> Seq<char>
    decreases n,
{
    if n < 10 {
        seq![hex_char(n)]
    } else {
        decimal(n / 10) + seq![hex_char(n % 10)]
    }
}

/// Renders `n` in decimal.
pub fn decimal_string(n: u64) -> (r: String)
    ensures
        r@ == decimal(n as nat),
    decreases n,
{
    if n < 10 {
        String::from_str(hex_digit_str(n as u8))
    } else {
        let mut s = decimal_string(n / 10);
        s.append(hex_digit_str((n % 10) as u8));
        s
    }
}

/// Two lower-case hexadecimal digits for a byte, high nibble first.
pub open spec fn byte_hex(b: u8) -> Seq<char> {
    seq![hex_char((b / 16) as nat), hex_char((b % 16) as nat)]
}

/// The hexadecimal rendering of a byte sequence, two digits per byte.
pub open spec fn hex_bytes(bs: Seq<u8>) -> Seq<char>
    decreases bs.len(),
{
    if bs.len() == 0 {
        Seq::empty()
    } else {
        hex_bytes(bs.drop_last()) + byte_hex(bs.last())
    }
}

/// Appends the two hexadecimal digits of `b` to `s`.
pub fn push_byte_hex(s: &mut String, b: u8)
    ensures
        final(s)@ == old(s)@ + byte_hex(b),
{
    s.append(hex_digit_str(b / 16));
    s.append(hex_digit_str(b % 16));
}

/// The canonical hyphenated lower-case form of a 16-byte UUID:
/// 8-4-4-4-12 hexadecimal digits.
pub open spec fn hyphenated(bs: Seq<u8>) -> Seq<char> {
    hex_bytes(bs.subrange(0, 4)) + seq!['-'] + hex_bytes(bs.subrange(4, 6)) + seq!['-']
        + hex_bytes(bs.subrange(6, 8)) + seq!['-'] + hex_bytes(bs.subrange(8, 10)) + seq!['-']
        + hex_bytes(bs.subrange(10, 16))
}

fn push_hex_range(s: &mut String, bytes: &[u8; 16], from: usize, to: usize)
    requires
        from <= to <= 16,
    ensures
        final(s)@ == old(s)@ + hex_bytes(bytes@.subrange(from as int, to as int)),
{
    let mut i = from;
    assert(bytes@.subrange(from as int, from as int) =~= Seq::<u8>::empty());
    while i < to
        invariant
            from <= i <= to <= 16,
            bytes@.len() == 16,
            s@ == old(s)@ + hex_bytes(bytes@.subrange(from as int, i as int)),
        decreases to - i,
    {
        push_byte_hex(s, bytes[i]);
        assert(bytes@.subrange(from as int, i + 1).drop_last()
            =~= bytes@.subrange(from as int, i as int));
        i = i + 1;
    }
}

/// Formats 16 bytes as a hyphenated lower-case UUID string.
pub fn hyphenated_string(bytes: &[u8; 16]) -> (r: String)
    ensures
        r@ == hyphenated(bytes@),
{
    let mut s = String::new();
    push_hex_range(&mut s, bytes, 0, 4);
    proof { reveal_strlit("-"); }
    s.append("-");
    push_hex_range(&mut s, bytes, 4, 6);
    s.append("-");
    push_hex_range(&mut s, bytes, 6, 8);
    s.append("-");
    push_hex_range(&mut s, bytes, 8, 10);
    s.append("-");
    push_hex_range(&mut s, bytes, 10, 16);
    assert(s@ =~= hyphenated(bytes@));
    s
}


proof fn lemma_hex_bytes(bs: Seq<u8>)
    ensures
        hex_bytes(bs).len() == 2 * bs.len(),
        forall|i: int|
            0 <= i < bs.len() ==> hex_bytes(bs)[2 * i] == hex_char((bs[i] / 16) as nat) && hex_bytes(
                bs,
            )[2 * i + 1] == hex_char((bs[i] % 16) as nat),
    decreases bs.len(),
{
    if bs.len() > 0 {
        let rest = bs.drop_last();
        lemma_hex_bytes(rest);
        assert forall|i: int| 0 <= i < bs.len() implies hex_bytes(bs)[2 * i] == hex_char(
            (bs[i] / 16) as nat,
        ) && hex_bytes(bs)[2 * i + 1] == hex_char((bs[i] % 16) as nat) by {
            if i < rest.len() {
                assert(rest[i] == bs[i]);
            }
        }
    }
}

/// Every hyphenated UUID is 36 characters, with hyphens at positions 8, 13,
/// 18 and 23, its version digit (the high nibble of byte 6) at position 14,
/// and the high nibble of byte 8, which carries the variant, at position 19.
pub proof fn law_hyphenated_layout(b: Seq<u8>)
    requires
        b.len() == 16,
    ensures
        hyphenated(b).len() == 36,
        hyphenated(b)[8] == '-',
        hyphenated(b)[13] == '-',
        hyphenated(b)[18] == '-',
        hyphenated(b)[23] == '-',
        hyphenated(b)[14] == hex_char((b[6] / 16) as nat),
        hyphenated(b)[19] == hex_char((b[8] / 16) as nat),
{
    let p0 = b.subrange(0, 4);
    let p1 = b.subrange(4, 6);
    let p2 = b.subrange(6, 8);
    let p3 = b.subrange(8, 10);
    let p4 = b.subrange(10, 16);
    lemma_hex_bytes(p0);
    lemma_hex_bytes(p1);
    lemma_hex_bytes(p2);
    lemma_hex_bytes(p3);
    lemma_hex_bytes(p4);
    assert(p2[0] == b[6]);
    assert(p3[0] == b[8]);
    let h = hyphenated(b);
    assert(hex_bytes(p2)[0int] == hex_char((p2[0] / 16) as nat));
    assert(hex_bytes(p3)[0int] == hex_char((p3[0] / 16) as nat));
    assert(h =~= hex_bytes(p0) + seq!['-'] + hex_bytes(p1) + seq!['-'] + hex_bytes(p2) + seq!['-']
        + hex_bytes(p3) + seq!['-'] + hex_bytes(p4));
}

// ── Unicode whitespace and trimming ──────────────────────────────────────────

/// Whether a character has the Unicode `White_Space` property: U+0009 to
/// U+000D, the space, U+0085, U+00A0, U+1680, U+2000 to U+200A, U+2028,
/// U+2029, U+202F, U+205F and U+3000. These are the characters
/// `char::is_whitespace` and `str::trim` treat as whitespace.
pub open spec fn is_unicode_whitespace(c: char) -> bool {
    let u = c as u32;
    ||| 0x09 <= u <= 0x0d
    ||| u == 0x20
    ||| u == 0x85
    ||| u == 0xa0
    ||| u == 0x1680
    ||| 0x2000 <= u <= 0x200a
    ||| u == 0x2028
    ||| u == 0x2029
    ||| u == 0x202f
    ||| u == 0x205f
    ||| u == 0x3000
}

/// Whether `c` is Unicode whitespace.
pub fn char_is_whitespace(c: char) -> (r: bool)
    ensures
        r == is_unicode_whitespace(c),
{
    let u = c as u32;
    (0x09 <= u && u <= 0x0d) || u == 0x20 || u == 0x85 || u == 0xa0 || u == 0x1680
        || (0x2000 <= u && u <= 0x200a) || u == 0x2028 || u == 0x2029 || u == 0x202f || u == 0x205f
        || u == 0x3000
}

/// `t` is `s` without its leading and trailing whitespace.
pub open spec fn is_trim_of(t: Seq<char>, s: Seq<char>) -> bool {
    exists|a: int, b: int|
        {
            &&& 0 <= a <= b <= s.len()
            &&& t == s.subrange(a, b)
            &&& forall|i: int| 0 <= i < a ==> is_unicode_whitespace(#[trigger] s[i])
            &&& forall|i: int| b <= i < s.len() ==> is_unicode_whitespace(#[trigger] s[i])
            &&& a < b ==> !is_unicode_whitespace(s[a]) && !is_unicode_whitespace(s[b - 1])
        }
}

/// `s` without leading and trailing whitespace, as `str::trim` gives it.
pub fn trim(s: &str) -> (r: &str)
    ensures
        is_trim_of(r@, s@),
{
    let n = s.unicode_len();
    let mut a: usize = 0;
    while a < n && char_is_whitespace(s.get_char(a))
        invariant
            a <= n,
            n == s@.len(),
            forall|i: int| 0 <= i < a ==> is_unicode_whitespace(#[trigger] s@[i]),
        decreases n - a,
    {
        a = a + 1;
    }
    let mut b: usize = n;
    while b > a && char_is_whitespace(s.get_char(b - 1))
        invariant
            a <= b <= n,
            n == s@.len(),
            forall|i: int| b <= i < n ==> is_unicode_whitespace(#[trigger] s@[i]),
        decreases b - a,
    {
        b = b - 1;
    }
    let r = s.substring_char(a, b);
    assert(is_trim_of(r@, s@)) by {
        if a < b {
            assert(!is_unicode_whitespace(s@[a as int]));
        }
    }
    r
}

// ── UTF-8 decoding ───────────────────────────────────────────────────────────

/// What `String::from_utf8_lossy` makes of a byte sequence.
pub uninterp spec fn lossy_decoded(bytes: Seq<u8>) -> Seq<char>;

/// Calls `String::from_utf8`: the decoded text when `bytes` is valid UTF-8.
#[verifier::external_body]
pub(crate) fn utf8_string(bytes: Vec<u8>) -> (r: Option<String>)
    ensures
        r is Some <==> valid_utf8(bytes@),
        r matches Some(s) ==> s@ == decode_utf8(bytes@),
{
    String::from_utf8(bytes).ok()
}

/// Calls `String::from_utf8_lossy`, which decodes UTF-8 and replaces each
/// invalid sequence with U+FFFD; valid UTF-8 is decoded unchanged.
#[verifier::external_body]
pub(crate) fn utf8_lossy_string(bytes: &[u8]) -> (r: String)
    ensures
        r@ == lossy_decoded(bytes@),
        valid_utf8(bytes@) ==> r@ == decode_utf8(bytes@),
{
    String::from_utf8_lossy(bytes).into_owned()
}

// ── ASCII case-insensitive comparison ────────────────────────────────────────

/// The code of `c` with an ASCII upper-case letter mapped to lower case.
pub open spec fn ascii_lower(c: char) -> int {
    if 'A' <= c && c <= 'Z' { (c as u32) + 32 } else { c as u32 as int }
}

/// `a` and `b` are equal ignoring ASCII case, as `str::eq_ignore_ascii_case`
/// compares them.
pub open spec fn eq_ignore_ascii_case(a: Seq<char>, b: Seq<char>) -> bool {
    a.len() == b.len() && forall|i: int| 0 <= i < a.len() ==> ascii_lower(#[trigger] a[i]) == ascii_lower(b[i])
}

fn lower_code(c: char) -> (r: u32)
    ensures
        r == ascii_lower(c),
{
    if 'A' <= c && c <= 'Z' {
        (c as u32) + 32
    } else {
        c as u32
    }
}

/// Compares two strings ignoring ASCII case.
pub fn str_eq_ignore_ascii_case(a: &str, b: &str) -> (r: bool)
    ensures
        r == eq_ignore_ascii_case(a@, b@),
{
    let n = a.unicode_len();
    if n != b.unicode_len() {
        return false;
    }
    let mut i: usize = 0;
    while i < n
        invariant
            n == a@.len(),
            n == b@.len(),
            i <= n,
            forall|j: int| 0 <= j < i ==> ascii_lower(#[trigger] a@[j]) == ascii_lower(b@[j]),
        decreases n - i,
    {
        if lower_code(a.get_char(i)) != lower_code(b.get_char(i)) {
            return false;
        }
        i = i + 1;
    }
    true
}

} // verus!

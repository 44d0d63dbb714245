//! Byte-level helpers shared by the drivers: little- and big-endian field
//! reads over byte sequences, and string building.
use vstd::prelude::*;
use vstd::string::StrSliceExecFns;

verus! {

/// Little-endian 16-bit value stored at `off` in `s`.
pub open spec fn le16(s: Seq<u8>, off: int) -> int {
    s[off] as int + s[off + 1] as int * 0x100
}

/// Little-endian 32-bit value stored at `off` in `s`.
pub open spec fn le32(s: Seq<u8>, off: int) -> int {
    le16(s, off) + le16(s, off + 2) * 0x10000
}

/// Little-endian 64-bit value stored at `off` in `s`.
pub open spec fn le64(s: Seq<u8>, off: int) -> int {
    le32(s, off) + le32(s, off + 4) * 0x1_0000_0000
}

/// Big-endian 32-bit value stored at `off` in `s`.
pub open spec fn be32(s: Seq<u8>, off: int) -> int {
    s[off] as int * 0x1000000 + s[off + 1] as int * 0x10000 + s[off + 2] as int * 0x100
        + s[off + 3] as int
}

pub fn read_le16(s: &[u8], off: usize) -> (r: u16)
    requires
        off + 2 <= s.len(),
    ensures
        r as int == le16(s@, off as int),
{
    s[off] as u16 + (s[off + 1] as u16) * 0x100
}

pub fn read_le32(s: &[u8], off: usize) -> (r: u32)
    requires
        off + 4 <= s.len(),
    ensures
        r as int == le32(s@, off as int),
{
    let lo = read_le16(s, off);
    let hi = read_le16(s, off + 2);
    lo as u32 + (hi as u32) * 0x10000
}

pub fn read_le64(s: &[u8], off: usize) -> (r: u64)
    requires
        off + 8 <= s.len(),
    ensures
        r as int == le64(s@, off as int),
{
    let lo = read_le32(s, off);
    let hi = read_le32(s, off + 4);
    lo as u64 + (hi as u64) * 0x1_0000_0000
}

pub fn read_be32(s: &[u8], off: usize) -> (r: u32)
    requires
        off + 4 <= s.len(),
    ensures
        r as int == be32(s@, off as int),
{
    (s[off] as u32) * 0x1000000 + (s[off + 1] as u32) * 0x10000 + (s[off + 2] as u32) * 0x100
        + s[off + 3] as u32
}

/// Appends one character to a string (std's `String::push`).
#[verifier::external_body]
pub(crate) fn push_char(s: &mut String, c: char)
    ensures
        final(s)@ == old(s)@.push(c),
{
    s.push(c);
}

/// Builds a string from a sequence of characters, in order.
pub fn string_from_chars(cs: &Vec<char>) -> (s: String)
    ensures
        s@ == cs@,
{
    let mut s = String::new();
    let mut i: usize = 0;
    while i < cs.len()
        invariant
            i <= cs.len(),
            s@ == cs@.subrange(0, i as int),
        decreases cs.len() - i,
    {
        push_char(&mut s, cs[i]);
        i = i + 1;
        assert(s@ =~= cs@.subrange(0, i as int));
    }
    assert(cs@.subrange(0, cs.len() as int) =~= cs@);
    s
}

/// Whether `c` is Unicode white space, as trimming takes it: tab to
/// carriage return (U+0009..U+000D), space, U+0085, U+00A0, U+1680,
/// U+2000..U+200A, U+2028, U+2029, U+202F, U+205F and U+3000.
pub open spec fn is_white_space(c: char) -> bool {
    let u = c as u32;
    ||| 0x09 <= u <= 0x0D
    ||| u == 0x20 || u == 0x85 || u == 0xA0 || u == 0x1680
    ||| 0x2000 <= u <= 0x200A
    ||| u == 0x2028 || u == 0x2029 || u == 0x202F || u == 0x205F || u == 0x3000
}

/// Index of the first character at or after which no leading white space
/// remains.
pub open spec fn trim_start_index(s: Seq<char>, i: int) -> int
    decreases s.len() - i,
{
    if i >= s.len() {
        s.len() as int
    } else if is_white_space(s[i]) {
        trim_start_index(s, i + 1)
    } else {
        i
    }
}

/// Length of `s` once trailing white space before index `j` is removed.
pub open spec fn trim_end_index(s: Seq<char>, j: int) -> int
    decreases j,
{
    if j <= 0 {
        0
    } else if is_white_space(s[j - 1]) {
        trim_end_index(s, j - 1)
    } else {
        j
    }
}

/// `s` with trailing white space removed.
pub open spec fn trim_end(s: Seq<char>) -> Seq<char> {
    s.subrange(0, trim_end_index(s, s.len() as int))
}

/// `s` with leading and trailing white space removed.
pub open spec fn trim(s: Seq<char>) -> Seq<char> {
    let t = trim_end(s);
    t.subrange(trim_start_index(t, 0), t.len() as int)
}

pub proof fn lemma_trim_end_index_bounds(s: Seq<char>, j: int)
    requires
        0 <= j <= s.len(),
    ensures
        0 <= trim_end_index(s, j) <= j,
    decreases j,
{
    if j > 0 && is_white_space(s[j - 1]) {
        lemma_trim_end_index_bounds(s, j - 1);
    }
}

pub proof fn lemma_trim_start_index_bounds(s: Seq<char>, i: int)
    requires
        0 <= i <= s.len(),
    ensures
        i <= trim_start_index(s, i) <= s.len(),
    decreases s.len() - i,
{
    if i < s.len() && is_white_space(s[i]) {
        lemma_trim_start_index_bounds(s, i + 1);
    }
}

fn is_ws_exec(c: char) -> (b: bool)
    ensures
        b == is_white_space(c),
{
    let u = c as u32;
    (0x09 <= u && u <= 0x0D) || u == 0x20 || u == 0x85 || u == 0xA0 || u == 0x1680 || (0x2000 <= u && u <= 0x200A)
        || u == 0x2028 || u == 0x2029 || u == 0x202F || u == 0x205F || u == 0x3000
}

/// Removes trailing white space.
pub fn trim_end_chars(cs: &Vec<char>) -> (r: Vec<char>)
    ensures
        r@ == trim_end(cs@),
{
    let mut j: usize = cs.len();
    while j > 0 && is_ws_exec(cs[j - 1])
        invariant
            j <= cs.len(),
            trim_end_index(cs@, j as int) == trim_end_index(cs@, cs.len() as int),
        decreases j,
    {
        j = j - 1;
    }
    let mut r: Vec<char> = Vec::new();
    let mut k: usize = 0;
    while k < j
        invariant
            k <= j <= cs.len(),
            trim_end_index(cs@, cs.len() as int) == j,
            r@ == cs@.subrange(0, k as int),
        decreases j - k,
    {
        r.push(cs[k]);
        k = k + 1;
        assert(r@ =~= cs@.subrange(0, k as int));
    }
    r
}

/// Removes leading and trailing white space.
pub fn trim_chars(cs: &Vec<char>) -> (r: Vec<char>)
    ensures
        r@ == trim(cs@),
{
    let t = trim_end_chars(cs);
    let mut i: usize = 0;
    while i < t.len() && is_ws_exec(t[i])
        invariant
            i <= t.len(),
            trim_start_index(t@, i as int) == trim_start_index(t@, 0),
        decreases t.len() - i,
    {
        i = i + 1;
    }
    let mut r: Vec<char> = Vec::new();
    let mut k: usize = i;
    while k < t.len()
        invariant
            i <= k <= t.len(),
            trim_start_index(t@, 0) == i,
            r@ == t@.subrange(i as int, k as int),
        decreases t.len() - k,
    {
        r.push(t[k]);
        k = k + 1;
        assert(r@ =~= t@.subrange(i as int, k as int));
    }
    r
}

} // verus!

verus! {

/// Division rounding toward zero (Rust's integer division), for `b > 0`.
pub open spec fn tdiv(a: int, b: int) -> int {
    if a >= 0 {
        a / b
    } else {
        -((-a) / b)
    }
}

pub fn tdiv_i32(a: i32, b: i32) -> (r: i32)
    requires
        b > 0,
        a > i32::MIN,
    ensures
        r == tdiv(a as int, b as int),
{
    if a >= 0 {
        a / b
    } else {
        -((-a) / b)
    }
}

pub fn tdiv_i64(a: i64, b: i64) -> (r: i64)
    requires
        b > 0,
        a > i64::MIN,
    ensures
        r == tdiv(a as int, b as int),
{
    if a >= 0 {
        a / b
    } else {
        -((-a) / b)
    }
}

pub proof fn lemma_tdiv_bound(a: int, b: int, m: int)
    requires
        b > 0,
        -m <= a <= m,
    ensures
        -m <= tdiv(a, b) <= m,
{
    if a >= 0 {
        assert(a / b <= a) by (nonlinear_arith) requires a >= 0, b > 0;
        assert(a / b >= 0) by (nonlinear_arith) requires a >= 0, b > 0;
    } else {
        assert((-a) / b <= -a) by (nonlinear_arith) requires -a >= 0, b > 0;
        assert((-a) / b >= 0) by (nonlinear_arith) requires -a >= 0, b > 0;
    }
}

} // verus!

verus! {

/// Decimal digits of `n`, most significant first.
pub open spec fn decimal(n: nat) -> Seq<char>
    decreases n,
{
    if n < 10 {
        seq![((n + 48) as u8) as char]
    } else {
        decimal(n / 10).push((((n % 10) + 48) as u8) as char)
    }
}

/// Appends the decimal digits of `n`.
pub fn push_decimal(out: &mut Vec<char>, n: u64)
    ensures
        final(out)@ == old(out)@ + decimal(n as nat),
    decreases n,
{
    if n < 10 {
        out.push(((n as u8) + 48) as char);
        assert(final(out)@ =~= old(out)@ + decimal(n as nat));
    } else {
        push_decimal(out, n / 10);
        let d = ((n % 10) as u8 + 48) as char;
        let ghost mid = out@;
        out.push(d);
        assert(final(out)@ =~= old(out)@ + decimal(n as nat));
    }
}

/// Appends the characters of a string literal.
pub fn push_str(out: &mut Vec<char>, s: &str)
    requires
        s.is_ascii(),
    ensures
        final(out)@ == old(out)@ + s@,
{
    let n = s.unicode_len();
    let ghost start = out@;
    let mut i: usize = 0;
    while i < n
        invariant
            i <= n,
            n == s@.len(),
            s.is_ascii(),
            out@ == start + s@.subrange(0, i as int),
        decreases n - i,
    {
        let c = s.get_char(i);
        out.push(c);
        i = i + 1;
        assert(out@ =~= start + s@.subrange(0, i as int));
    }
    assert(s@.subrange(0, n as int) =~= s@);
}

} // verus!

verus! {

/// Decodes UTF-8 bytes (std's `core::str::from_utf8`): the text whose
/// UTF-8 encoding they are, or `None` when they are not valid UTF-8.
#[verifier::external_body]
pub fn utf8_decode(b: &[u8]) -> (r: Option<String>)
    ensures
        r matches Some(s) ==> vstd::utf8::encode_utf8(s@) == b@,
        r is None ==> forall|cs: Seq<char>| vstd::utf8::encode_utf8(cs) != b@,
{
    match core::str::from_utf8(b) {
        Ok(s) => Some(String::from(s)),
        Err(_) => None,
    }
}

/// The characters of a string.
pub fn string_chars(s: &str) -> (cs: Vec<char>)
    ensures
        cs@ == s@,
{
    let n = s.unicode_len();
    let mut cs: Vec<char> = Vec::new();
    let mut i: usize = 0;
    while i < n
        invariant
            i <= n,
            n == s@.len(),
            cs@ == s@.subrange(0, i as int),
        decreases n - i,
    {
        cs.push(s.get_char(i));
        i = i + 1;
        assert(cs@ =~= s@.subrange(0, i as int));
    }
    assert(s@.subrange(0, n as int) =~= s@);
    cs
}

/// Appends the characters of `s`.
pub fn push_text(out: &mut Vec<char>, s: &str)
    ensures
        final(out)@ == old(out)@ + s@,
{
    let cs = string_chars(s);
    append_chars(out, &cs);
}

/// Appends the characters of `src`.
pub fn append_chars(out: &mut Vec<char>, src: &Vec<char>)
    ensures
        final(out)@ == old(out)@ + src@,
{
    let ghost start = out@;
    let mut i: usize = 0;
    while i < src.len()
        invariant
            i <= src@.len(),
            out@ == start + src@.subrange(0, i as int),
        decreases src@.len() - i,
    {
        out.push(src[i]);
        i = i + 1;
        assert(out@ =~= start + src@.subrange(0, i as int));
    }
    assert(src@.subrange(0, src@.len() as int) =~= src@);
}

/// Upper-case hexadecimal digit for `d` < 16.
pub open spec fn hex_digit_upper(d: nat) -> char {
    if d < 10 {
        ((d + 48) as u8) as char
    } else {
        ((d + 55) as u8) as char
    }
}

/// Upper-case hexadecimal digits of `n`, most significant first.
pub open spec fn hex_upper(n: nat) -> Seq<char>
    decreases n,
{
    if n < 16 {
        seq![hex_digit_upper(n)]
    } else {
        hex_upper(n / 16).push(hex_digit_upper(n % 16))
    }
}

/// Appends the upper-case hexadecimal digits of `n`.
pub fn push_hex_upper(out: &mut Vec<char>, n: u64)
    ensures
        final(out)@ == old(out)@ + hex_upper(n as nat),
    decreases n,
{
    if n < 16 {
        let d = n as u8;
        let c = if d < 10 { (d + 48) as char } else { (d + 55) as char };
        out.push(c);
        assert(final(out)@ =~= old(out)@ + hex_upper(n as nat));
    } else {
        push_hex_upper(out, n / 16);
        let d = (n % 16) as u8;
        let c = if d < 10 { (d + 48) as char } else { (d + 55) as char };
        out.push(c);
        assert(final(out)@ =~= old(out)@ + hex_upper(n as nat));
    }
}

/// The string of the characters in `cs`.
pub fn chars_to_string(cs: Vec<char>) -> (s: String)
    ensures
        s@ == cs@,
{
    string_from_chars(&cs)
}

/// `n` in upper-case hexadecimal, padded with leading zeros to at least
/// `width` digits.
pub open spec fn hex_upper_padded(n: nat, width: nat) -> Seq<char> {
    let h = hex_upper(n);
    if h.len() < width {
        Seq::new((width - h.len()) as nat, |i: int| '0') + h
    } else {
        h
    }
}

/// Appends `n` in upper-case hexadecimal, zero-padded to `width` digits.
pub fn push_hex_upper_padded(out: &mut Vec<char>, n: u64, width: usize)
    ensures
        final(out)@ == old(out)@ + hex_upper_padded(n as nat, width as nat),
{
    let mut digits: Vec<char> = Vec::new();
    push_hex_upper(&mut digits, n);
    assert(digits@ =~= hex_upper(n as nat));
    let ghost start = out@;
    if digits.len() < width {
        let pad = width - digits.len();
        let mut i: usize = 0;
        while i < pad
            invariant
                i <= pad,
                out@ == start + Seq::new(i as nat, |k: int| '0'),
            decreases pad - i,
        {
            out.push('0');
            i = i + 1;
            assert(out@ =~= start + Seq::new(i as nat, |k: int| '0'));
        }
    }
    append_chars(out, &digits);
    assert(final(out)@ =~= old(out)@ + hex_upper_padded(n as nat, width as nat));
}

/// The views of a list of strings.
pub open spec fn views(v: Seq<String>) -> Seq<Seq<char>> {
    v.map_values(|s: String| s@)
}

/// Appends the line made of the characters `out`.
pub fn push_line(lines: &mut Vec<String>, out: Vec<char>)
    ensures
        views(final(lines)@) == views(old(lines)@).push(out@),
{
    let s = chars_to_string(out);
    lines.push(s);
    assert(views(final(lines)@) =~= views(old(lines)@).push(out@));
}

/// `s` followed by spaces up to at least `width` characters.
pub open spec fn pad_right(s: Seq<char>, width: nat) -> Seq<char> {
    if s.len() < width {
        s + Seq::new((width - s.len()) as nat, |i: int| ' ')
    } else {
        s
    }
}

/// Appends `s`, then spaces up to `width` characters.
pub fn push_text_padded(out: &mut Vec<char>, s: &str, width: usize)
    ensures
        final(out)@ == old(out)@ + pad_right(s@, width as nat),
{
    let cs = string_chars(s);
    append_chars(out, &cs);
    let ghost mid = out@;
    if cs.len() < width {
        let pad = width - cs.len();
        let mut i: usize = 0;
        while i < pad
            invariant
                i <= pad,
                out@ == mid + Seq::new(i as nat, |k: int| ' '),
            decreases pad - i,
        {
            out.push(' ');
            i = i + 1;
            assert(out@ =~= mid + Seq::new(i as nat, |k: int| ' '));
        }
    }
    assert(final(out)@ =~= old(out)@ + pad_right(s@, width as nat));
}

/// The text UTF-8 bytes encode: `Some` exactly when they are valid UTF-8,
/// holding their decoding.
pub fn decode_text(b: &[u8]) -> (r: Option<String>)
    ensures
        r is Some <==> vstd::utf8::valid_utf8(b@),
        r is Some ==> r->Some_0@ == vstd::utf8::decode_utf8(b@),
{
    let r = utf8_decode(b);
    proof {
        broadcast use vstd::utf8::encode_utf8_decode_utf8, vstd::utf8::encode_utf8_valid_utf8, vstd::utf8::decode_utf8_encode_utf8;
        if r is None {
            if vstd::utf8::valid_utf8(b@) {
                assert(vstd::utf8::encode_utf8(vstd::utf8::decode_utf8(b@)) == b@);
            }
        }
    }
    r
}

/// Lower-case hexadecimal digit for `d` < 16.
pub open spec fn hex_digit_lower(d: nat) -> char {
    if d < 10 {
        ((d + 48) as u8) as char
    } else {
        ((d + 87) as u8) as char
    }
}

/// Lower-case hexadecimal digits of `n`, most significant first.
pub open spec fn hex_lower(n: nat) -> Seq<char>
    decreases n,
{
    if n < 16 {
        seq![hex_digit_lower(n)]
    } else {
        hex_lower(n / 16).push(hex_digit_lower(n % 16))
    }
}

/// Appends the lower-case hexadecimal digits of `n`.
pub fn push_hex_lower(out: &mut Vec<char>, n: u64)
    ensures
        final(out)@ == old(out)@ + hex_lower(n as nat),
    decreases n,
{
    if n < 16 {
        let d = n as u8;
        let c = if d < 10 { (d + 48) as char } else { (d + 87) as char };
        out.push(c);
        assert(final(out)@ =~= old(out)@ + hex_lower(n as nat));
    } else {
        push_hex_lower(out, n / 16);
        let d = (n % 16) as u8;
        let c = if d < 10 { (d + 48) as char } else { (d + 87) as char };
        out.push(c);
        assert(final(out)@ =~= old(out)@ + hex_lower(n as nat));
    }
}


/// `s` right-aligned in `width` characters (padded with spaces on the left).
pub open spec fn pad_left(s: Seq<char>, width: nat) -> Seq<char> {
    if s.len() < width {
        Seq::new((width - s.len()) as nat, |i: int| ' ') + s
    } else {
        s
    }
}

/// Appends `s` right-aligned in `width` characters.
pub fn push_padded_left(out: &mut Vec<char>, s: &Vec<char>, width: usize)
    ensures
        final(out)@ == old(out)@ + pad_left(s@, width as nat),
{
    let ghost start = out@;
    if s.len() < width {
        let pad = width - s.len();
        let mut i: usize = 0;
        while i < pad
            invariant
                i <= pad,
                out@ == start + Seq::new(i as nat, |k: int| ' '),
            decreases pad - i,
        {
            out.push(' ');
            i = i + 1;
            assert(out@ =~= start + Seq::new(i as nat, |k: int| ' '));
        }
    }
    append_chars(out, s);
    assert(final(out)@ =~= old(out)@ + pad_left(s@, width as nat));
}

/// Whether two texts are equal.
pub fn same_text(a: &str, b: &str) -> (r: bool)
    ensures
        r == (a@ == b@),
{
    let n = a.unicode_len();
    if n != b.unicode_len() {
        return false;
    }
    let mut i: usize = 0;
    while i < n
        invariant
            i <= n,
            n == a@.len() == b@.len(),
            forall|k: int| 0 <= k < i ==> a@[k] == b@[k],
        decreases n - i,
    {
        if a.get_char(i) != b.get_char(i) {
            return false;
        }
        i = i + 1;
    }
    assert(a@ =~= b@);
    true
}

/// `a + b` on a 64-bit counter that wraps past `u64::MAX` to 0.
pub open spec fn wrap_add(a: u64, b: int) -> u64 {
    if a + b > u64::MAX { (a + b - 0x1_0000_0000_0000_0000) as u64 } else { (a + b) as u64 }
}

} // verus!

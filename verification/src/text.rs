//! Character-sequence helpers shared by the formatting and parsing code:
//! building strings, decimal rendering and parsing, Unicode white space,
//! trimming and UTF-8 byte lengths.

use vstd::prelude::*;
use vstd::utf8::*;

verus! {

broadcast use vstd::string::group_string_axioms;

// ---------------------------------------------------------------------------
// Building strings
// ---------------------------------------------------------------------------

/// Appends one character to a string (`String::push`).
#[verifier::external_body]
pub fn push_char(s: &mut String, c: char)
    ensures
        final(s)@ == old(s)@.push(c),
{
    s.push(c);
}

/// Appends a string slice to a string.
pub fn push_str(s: &mut String, t: &str)
    ensures
        final(s)@ == old(s)@ + t@,
{
    s.append(t);
}

/// A new string holding the characters of a literal or slice.
pub fn string_of(t: &str) -> (s: String)
    ensures
        s@ == t@,
{
    String::from_str(t)
}

/// The characters of a string slice, in order.
pub fn chars_of(s: &str) -> (v: Vec<char>)
    ensures
        v@ == s@,
{
    let mut v: Vec<char> = Vec::new();
    for c in it: s.chars()
        invariant
            v@ == it.seq().take(it.index() as int),
            it.seq() == s@,
    {
        v.push(c);
    }
    v
}

/// A string holding the characters `v[lo..hi]`.
pub fn string_from_chars(v: &Vec<char>, lo: usize, hi: usize) -> (s: String)
    requires
        lo <= hi <= v.len(),
    ensures
        s@ == v@.subrange(lo as int, hi as int),
{
    let mut s = String::new();
    let mut i = lo;
    while i < hi
        invariant
            lo <= i <= hi <= v.len(),
            s@ == v@.subrange(lo as int, i as int),
        decreases hi - i,
    {
        push_char(&mut s, v[i]);
        assert(v@.subrange(lo as int, i + 1) == v@.subrange(lo as int, i as int).push(v@[i as int]));
        i += 1;
    }
    s
}

/// Whether two string slices hold the same characters.
pub fn str_eq(a: &str, b: &str) -> (r: bool)
    ensures
        r == (a@ == b@),
{
    let va = chars_of(a);
    let vb = chars_of(b);
    if va.len() != vb.len() {
        return false;
    }
    let mut i: usize = 0;
    while i < va.len()
        invariant
            va@ == a@,
            vb@ == b@,
            va.len() == vb.len(),
            i <= va.len(),
            forall|j: int| 0 <= j < i ==> va@[j] == vb@[j],
        decreases va.len() - i,
    {
        if va[i] != vb[i] {
            return false;
        }
        i += 1;
    }
    assert(va@ =~= vb@);
    true
}

/// Whether `needle` occurs in `hay` as a contiguous run of characters.
pub open spec fn contains_at(hay: Seq<char>, needle: Seq<char>, at: int) -> bool {
    0 <= at && at + needle.len() <= hay.len() && hay.subrange(at, at + needle.len()) == needle
}

/// The first position at or after `at` where `needle` occurs in `hay`, if any.
pub open spec fn occurrence_from(hay: Seq<char>, needle: Seq<char>, at: int) -> Option<int>
    decreases hay.len() + 1 - at,
{
    if at < 0 || at + needle.len() > hay.len() {
        None
    } else if contains_at(hay, needle, at) {
        Some(at)
    } else {
        occurrence_from(hay, needle, at + 1)
    }
}

/// The first position at which `needle` occurs in `hay`, if any (`str::find`).
pub open spec fn first_occurrence(hay: Seq<char>, needle: Seq<char>) -> Option<int> {
    occurrence_from(hay, needle, 0)
}

/// Whether `needle` occurs in `v` starting exactly at `at`.
pub fn matches_at(v: &Vec<char>, needle: &Vec<char>, at: usize) -> (r: bool)
    ensures
        r == contains_at(v@, needle@, at as int),
{
    if at > v.len() || needle.len() > v.len() - at {
        return false;
    }
    let mut k: usize = 0;
    while k < needle.len()
        invariant
            at + needle.len() <= v.len(),
            k <= needle.len(),
            forall|j: int| 0 <= j < k ==> v@[at + j] == needle@[j],
        decreases needle.len() - k,
    {
        if v[at + k] != needle[k] {
            assert(v@.subrange(at as int, at + needle.len())[k as int] != needle@[k as int]);
            return false;
        }
        k += 1;
    }
    assert(v@.subrange(at as int, at + needle.len()) =~= needle@);
    true
}

/// The first position at which `needle` occurs in `v`, if any.
pub fn find_in(v: &Vec<char>, needle: &Vec<char>) -> (r: Option<usize>)
    ensures
        match r {
            Some(at) => first_occurrence(v@, needle@) == Some(at as int) && contains_at(v@, needle@, at as int),
            None => first_occurrence(v@, needle@) is None,
        },
{
    if needle.len() > v.len() {
        return None;
    }
    let last = v.len() - needle.len();
    let mut at: usize = 0;
    loop
        invariant
            at <= last,
            last + needle.len() == v.len(),
            first_occurrence(v@, needle@) == occurrence_from(v@, needle@, at as int),
        decreases last - at,
    {
        if matches_at(v, needle, at) {
            return Some(at);
        }
        if at == last {
            assert(occurrence_from(v@, needle@, at + 1) is None);
            return None;
        }
        at += 1;
    }
}

// ---------------------------------------------------------------------------
// Decimal numbers
// ---------------------------------------------------------------------------

/// The ASCII digit for a value below ten.
pub open spec fn digit_char(d: nat) -> char {
    if d == 0 { '0' }
    else if d == 1 { '1' }
    else if d == 2 { '2' }
    else if d == 3 { '3' }
    else if d == 4 { '4' }
    else if d == 5 { '5' }
    else if d == 6 { '6' }
    else if d == 7 { '7' }
    else if d == 8 { '8' }
    else { '9' }
}

/// Whether a character is an ASCII decimal digit.
pub open spec fn is_digit(c: char) -> bool {
    '0' <= c && c <= '9'
}

/// The value of an ASCII decimal digit.
pub open spec fn digit_value(c: char) -> nat {
    (c as u32 - '0' as u32) as nat
}

/// The decimal representation of `n`, without leading zeros.
pub open spec fn decimal(n: nat) -> Seq<char>
    decreases n,
{
    if n < 10 {
        seq![digit_char(n)]
    } else {
        decimal(n / 10).push(digit_char(n % 10))
    }
}

/// The decimal representation of `n`, left-padded with `'0'` to `width` characters.
pub open spec fn zero_padded(n: nat, width: nat) -> Seq<char> {
    let d = decimal(n);
    if d.len() < width {
        Seq::new((width - d.len()) as nat, |i: int| '0') + d
    } else {
        d
    }
}

fn digit_of(d: u64) -> (c: char)
    requires
        d < 10,
    ensures
        c == digit_char(d as nat),
{
    if d == 0 { '0' }
    else if d == 1 { '1' }
    else if d == 2 { '2' }
    else if d == 3 { '3' }
    else if d == 4 { '4' }
    else if d == 5 { '5' }
    else if d == 6 { '6' }
    else if d == 7 { '7' }
    else if d == 8 { '8' }
    else { '9' }
}

/// Appends the decimal representation of `n` (what `{}` formatting writes).
pub fn push_decimal(s: &mut String, n: u64)
    ensures
        final(s)@ == old(s)@ + decimal(n as nat),
    decreases n,
{
    if n < 10 {
        push_char(s, digit_of(n));
        assert(old(s)@.push(digit_char(n as nat)) =~= old(s)@ + decimal(n as nat));
    } else {
        push_decimal(s, n / 10);
        push_char(s, digit_of(n % 10));
        assert((old(s)@ + decimal((n / 10) as nat)).push(digit_char((n % 10) as nat))
            =~= old(s)@ + decimal(n as nat));
    }
}

/// The decimal representation of `n`.
pub fn format_decimal(n: u64) -> (s: String)
    ensures
        s@ == decimal(n as nat),
{
    let mut s = String::new();
    push_decimal(&mut s, n);
    assert(Seq::<char>::empty() + decimal(n as nat) =~= decimal(n as nat));
    s
}

/// The number of characters of `decimal(n)`.
pub proof fn lemma_decimal_len(n: nat)
    ensures
        decimal(n).len() >= 1,
        n < 10 ==> decimal(n).len() == 1,
        n >= 10 ==> decimal(n).len() == decimal(n / 10).len() + 1,
        n < 10 ==> decimal(n).len() <= 1,
        n < 100 ==> decimal(n).len() <= 2,
        n < 1000 ==> decimal(n).len() <= 3,
    decreases n,
{
    if n >= 10 {
        lemma_decimal_len(n / 10);
    }
}

/// Appends `decimal(n)` left-padded with zeros to `width` characters
/// (what `{:0width$}` formatting writes).
pub fn push_zero_padded(s: &mut String, n: u64, width: usize)
    ensures
        final(s)@ == old(s)@ + zero_padded(n as nat, width as nat),
{
    let d = format_decimal(n);
    let dv = chars_of(d.as_str());
    let len = dv.len();
    let mut i: usize = len;
    let ghost start = s@;
    while i < width
        invariant
            len == decimal(n as nat).len(),
            len <= i,
            len >= width ==> i == len,
            len < width ==> i <= width,
            s@ == start + Seq::new((i - len) as nat, |k: int| '0'),
        decreases width - i,
    {
        push_char(s, '0');
        assert(Seq::new((i - len) as nat, |k: int| '0').push('0') =~= Seq::new((i + 1 - len) as nat, |k: int| '0'));
        i += 1;
    }
    push_str(s, d.as_str());
    proof {
        if len < width {
            assert(start + Seq::new((i - len) as nat, |k: int| '0') + decimal(n as nat)
                =~= start + zero_padded(n as nat, width as nat));
        } else {
            assert(Seq::new((i - len) as nat, |k: int| '0') =~= Seq::<char>::empty());
            assert(s@ =~= start + zero_padded(n as nat, width as nat));
        }
    }
}

/// Whether every character of `s` is an ASCII digit.
pub open spec fn all_digits(s: Seq<char>) -> bool {
    forall|i: int| 0 <= i < s.len() ==> is_digit(#[trigger] s[i])
}

/// The value of a run of ASCII digits read as a decimal number.
pub open spec fn digits_value(s: Seq<char>) -> nat
    decreases s.len(),
{
    if s.len() == 0 {
        0
    } else {
        digits_value(s.drop_last()) * 10 + digit_value(s.last())
    }
}

/// The digits after an optional leading `'+'`.
pub open spec fn unsigned_body(s: Seq<char>) -> Seq<char> {
    if s.len() > 0 && s[0] == '+' { s.drop_first() } else { s }
}

/// What `str::parse` gives for an unsigned integer type whose largest value
/// is `max`: an optional `'+'`, then one or more ASCII digits whose value is
/// at most `max`; anything else is an error.
pub open spec fn parse_unsigned(s: Seq<char>, max: nat) -> Option<nat> {
    let body = unsigned_body(s);
    if body.len() > 0 && all_digits(body) && digits_value(body) <= max {
        Some(digits_value(body))
    } else {
        None
    }
}

proof fn lemma_digit_char_value(d: nat)
    requires
        d < 10,
    ensures
        is_digit(digit_char(d)),
        digit_value(digit_char(d)) == d,
{
}

/// `decimal(n)` is a non-empty run of digits whose value is `n`.
pub proof fn lemma_decimal_digits(n: nat)
    ensures
        decimal(n).len() > 0,
        all_digits(decimal(n)),
        digits_value(decimal(n)) == n,
    decreases n,
{
    if n < 10 {
        lemma_digit_char_value(n);
        assert(decimal(n).drop_last() =~= Seq::<char>::empty());
        assert(digits_value(decimal(n)) == digits_value(decimal(n).drop_last()) * 10 + digit_value(decimal(n).last()));
    } else {
        lemma_decimal_digits(n / 10);
        lemma_digit_char_value(n % 10);
        let d = decimal(n);
        assert(d.drop_last() =~= decimal(n / 10));
        assert(d.last() == digit_char(n % 10));
        assert(digits_value(d) == digits_value(d.drop_last()) * 10 + digit_value(d.last()));
        assert((n / 10) * 10 + n % 10 == n);
        assert forall|i: int| 0 <= i < d.len() implies is_digit(#[trigger] d[i]) by {
            if i < d.len() - 1 {
                assert(d[i] == decimal(n / 10)[i]);
            }
        }
    }
}

proof fn lemma_leading_zeros_value(k: nat, d: Seq<char>)
    ensures
        digits_value(Seq::new(k, |i: int| '0') + d) == digits_value(d),
    decreases d.len(), k,
{
    let z = Seq::new(k, |i: int| '0');
    if d.len() == 0 {
        assert(z + d =~= z);
        if k > 0 {
            assert(z.drop_last() =~= Seq::new((k - 1) as nat, |i: int| '0'));
            lemma_leading_zeros_value((k - 1) as nat, d);
            assert(Seq::new((k - 1) as nat, |i: int| '0') + d =~= Seq::new((k - 1) as nat, |i: int| '0'));
        }
    } else {
        assert((z + d).drop_last() =~= z + d.drop_last());
        lemma_leading_zeros_value(k, d.drop_last());
    }
}

/// A number with at most `width` digits, zero-padded to `width`, is exactly
/// `width` ASCII digits whose value is the number.
pub proof fn lemma_zero_padded_digits(n: nat, width: nat)
    requires
        decimal(n).len() <= width,
    ensures
        zero_padded(n, width).len() == width,
        all_digits(zero_padded(n, width)),
        digits_value(zero_padded(n, width)) == n,
{
    lemma_decimal_digits(n);
    let d = decimal(n);
    if d.len() < width {
        let k = (width - d.len()) as nat;
        let z = Seq::new(k, |i: int| '0');
        lemma_leading_zeros_value(k, d);
        let p = z + d;
        assert forall|i: int| 0 <= i < p.len() implies is_digit(#[trigger] p[i]) by {
            if i >= k {
                assert(p[i] == d[i - k]);
            }
        }
    }
}

/// Reading the decimal representation of a number back gives the number.
pub proof fn lemma_parse_decimal(n: nat, max: nat)
    requires
        n <= max,
    ensures
        parse_unsigned(decimal(n), max) == Some(n),
{
    lemma_decimal_digits(n);
    assert(is_digit(decimal(n)[0]));
    assert(unsigned_body(decimal(n)) == decimal(n));
}

proof fn lemma_digits_value_prefix_bound(s: Seq<char>, i: int)
    requires
        0 <= i <= s.len(),
        all_digits(s),
    ensures
        digits_value(s.subrange(0, i)) <= digits_value(s),
    decreases s.len() - i,
{
    if i < s.len() {
        lemma_digits_value_prefix_bound(s, i + 1);
        let t = s.subrange(0, i + 1);
        assert(t.drop_last() =~= s.subrange(0, i));
    } else {
        assert(s.subrange(0, i) =~= s);
    }
}

/// Parses a decimal unsigned integer no larger than `max` from the
/// characters of `v`, as `str::parse` does for unsigned integer types.
pub fn parse_unsigned_chars(v: &Vec<char>, max: u64) -> (r: Option<u64>)
    ensures
        match parse_unsigned(v@, max as nat) {
            Some(n) => r == Some(n as u64),
            None => r is None,
        },
{
    let start: usize = if v.len() > 0 && v[0] == '+' { 1 } else { 0 };
    let ghost body = unsigned_body(v@);
    assert(body =~= v@.subrange(start as int, v.len() as int));
    if start >= v.len() {
        return None;
    }
    let mut acc: u64 = 0;
    let mut i: usize = start;
    while i < v.len()
        invariant
            start <= i <= v.len(),
            body == unsigned_body(v@),
            body == v@.subrange(start as int, v.len() as int),
            all_digits(body.subrange(0, i - start)),
            acc as nat == digits_value(body.subrange(0, i - start)),
            acc <= max,
        decreases v.len() - i,
    {
        let c = v[i];
        if !('0' <= c && c <= '9') {
            assert(!is_digit(body[i - start]));
            return None;
        }
        let d: u64 = (c as u32 - '0' as u32) as u64;
        assert(body.subrange(0, i + 1 - start).drop_last() =~= body.subrange(0, i - start));
        let next: u128 = acc as u128 * 10 + d as u128;
        if next > max as u128 {
            proof {
                if all_digits(body) {
                    lemma_digits_value_prefix_bound(body, i + 1 - start);
                }
            }
            return None;
        }
        acc = next as u64;
        proof {
            assert forall|j: int| 0 <= j < i + 1 - start implies is_digit(#[trigger] body.subrange(0, i + 1 - start)[j]) by {
                if j < i - start {
                    assert(body.subrange(0, i + 1 - start)[j] == body.subrange(0, i - start)[j]);
                }
            }
        }
        i += 1;
    }
    assert(body.subrange(0, i - start) =~= body);
    Some(acc)
}

// ---------------------------------------------------------------------------
// White space and trimming
// ---------------------------------------------------------------------------

/// The Unicode `White_Space` property, which `char::is_whitespace`,
/// `str::trim` and `str::split_whitespace` use.
pub open spec fn is_white_space(c: char) -> bool {
    let u = c as u32;
    (0x9 <= u && u <= 0xd) || u == 0x20 || u == 0x85 || u == 0xa0 || u == 0x1680
        || (0x2000 <= u && u <= 0x200a) || u == 0x2028 || u == 0x2029 || u == 0x202f
        || u == 0x205f || u == 0x3000
}

/// Whether a character has the Unicode `White_Space` property.
pub fn is_whitespace(c: char) -> (r: bool)
    ensures
        r == is_white_space(c),
{
    let u = c as u32;
    (0x9 <= u && u <= 0xd) || u == 0x20 || u == 0x85 || u == 0xa0 || u == 0x1680
        || (0x2000 <= u && u <= 0x200a) || u == 0x2028 || u == 0x2029 || u == 0x202f
        || u == 0x205f || u == 0x3000
}

/// `s` without its leading white space.
pub open spec fn trim_start(s: Seq<char>) -> Seq<char>
    decreases s.len(),
{
    if s.len() > 0 && is_white_space(s[0]) {
        trim_start(s.drop_first())
    } else {
        s
    }
}

/// `s` without its trailing white space.
pub open spec fn trim_end(s: Seq<char>) -> Seq<char>
    decreases s.len(),
{
    if s.len() > 0 && is_white_space(s.last()) {
        trim_end(s.drop_last())
    } else {
        s
    }
}

/// `s` without leading and trailing white space (`str::trim`).
pub open spec fn trim(s: Seq<char>) -> Seq<char> {
    trim_end(trim_start(s))
}

/// `str::trim` on the characters `v`, as a new string.
pub fn trim_chars(v: &Vec<char>) -> (s: String)
    ensures
        s@ == trim(v@),
{
    let n = v.len();
    let mut lo: usize = 0;
    assert(v@.subrange(0, n as int) =~= v@);
    while lo < n && is_whitespace(v[lo])
        invariant
            lo <= n == v.len(),
            trim_start(v@) == trim_start(v@.subrange(lo as int, n as int)),
        decreases n - lo,
    {
        assert(v@.subrange(lo as int, n as int).drop_first() =~= v@.subrange(lo + 1, n as int));
        lo += 1;
    }
    let ghost mid = v@.subrange(lo as int, n as int);
    assert(trim_start(v@) == mid);
    let mut hi: usize = n;
    while hi > lo && is_whitespace(v[hi - 1])
        invariant
            lo <= hi <= n == v.len(),
            mid == v@.subrange(lo as int, n as int),
            trim_end(mid) == trim_end(v@.subrange(lo as int, hi as int)),
        decreases hi,
    {
        assert(v@.subrange(lo as int, hi as int).drop_last() =~= v@.subrange(lo as int, hi - 1));
        hi -= 1;
    }
    string_from_chars(v, lo, hi)
}

/// `str::trim`, as a new string.
pub fn trim_str(t: &str) -> (s: String)
    ensures
        s@ == trim(t@),
{
    let v = chars_of(t);
    trim_chars(&v)
}

// ---------------------------------------------------------------------------
// UTF-8 byte lengths
// ---------------------------------------------------------------------------

/// The number of bytes of the UTF-8 encoding of `s` (what `str::len` counts).
pub open spec fn byte_len(s: Seq<char>) -> nat {
    encode_utf8(s).len()
}

/// Byte lengths add up over concatenation.
pub proof fn lemma_byte_len_concat(a: Seq<char>, b: Seq<char>)
    ensures
        byte_len(a + b) == byte_len(a) + byte_len(b),
    decreases a.len(),
{
    if a.len() == 0 {
        assert(a + b =~= b);
    } else {
        lemma_byte_len_concat(a.drop_first(), b);
        assert((a + b).drop_first() =~= a.drop_first() + b);
        assert((a + b)[0] == a[0]);
    }
}

/// A space is one byte long.
pub proof fn lemma_byte_len_space()
    ensures
        byte_len(seq![' ']) == 1,
{
    let sp = seq![' '];
    assert(sp.drop_first() =~= Seq::<char>::empty());
    assert(sp[0] as u32 == 32);
    assert(vstd::utf8::has_width_1_encoding(32u32));
    assert(vstd::utf8::encode_scalar(32u32).len() == 1);
    assert(encode_utf8(sp) == vstd::utf8::encode_scalar(sp[0] as u32) + encode_utf8(sp.drop_first()));
    assert(encode_utf8(Seq::<char>::empty()).len() == 0);
}

/// The number of bytes of the UTF-8 encoding of a string slice.
pub fn str_byte_len(s: &str) -> (n: usize)
    ensures
        n as nat == byte_len(s@),
{
    s.as_bytes().len()
}

} // verus!

verus! {

// ---------------------------------------------------------------------------
// Unicode case and classes
// ---------------------------------------------------------------------------

/// What `str::to_lowercase` gives for a character sequence (Unicode lower
/// case mapping, with the final-sigma rule).
pub uninterp spec fn lowercase(s: Seq<char>) -> Seq<char>;

/// Whether `char::is_alphanumeric` holds of a character (Unicode
/// `Alphabetic` or `Numeric`).
pub uninterp spec fn is_alphanumeric(c: char) -> bool;

/// `str::to_lowercase`. Its result is named `lowercase`, a function of the
/// text alone; the Unicode case tables are not restated here.
#[verifier::external_body]
pub fn to_lowercase(s: &str) -> (r: String)
    ensures
        r@ == lowercase(s@),
{
    s.to_lowercase()
}

/// `char::is_alphanumeric`. Its result is named `is_alphanumeric`, a
/// function of the character alone; the Unicode tables are not restated.
#[verifier::external_body]
pub fn char_is_alphanumeric(c: char) -> (r: bool)
    ensures
        r == is_alphanumeric(c),
{
    c.is_alphanumeric()
}

// ---------------------------------------------------------------------------
// Words
// ---------------------------------------------------------------------------

/// The finished words and the word in progress after reading the first `n`
/// characters of `s`, words being maximal runs of non-white-space characters.
pub open spec fn words_upto(s: Seq<char>, n: nat) -> (Seq<Seq<char>>, Seq<char>)
    decreases n,
{
    if n == 0 {
        (Seq::empty(), Seq::empty())
    } else {
        let (ws, cur) = words_upto(s, (n - 1) as nat);
        let c = s[n - 1];
        if is_white_space(c) {
            if cur.len() > 0 { (ws.push(cur), Seq::empty()) } else { (ws, Seq::empty()) }
        } else {
            (ws, cur.push(c))
        }
    }
}

/// The words of `s`, as `str::split_whitespace` yields them.
pub open spec fn words(s: Seq<char>) -> Seq<Seq<char>> {
    let (ws, cur) = words_upto(s, s.len());
    if cur.len() > 0 { ws.push(cur) } else { ws }
}

/// The words joined by single spaces (`join(" ")`).
pub open spec fn join_words(ws: Seq<Seq<char>>) -> Seq<char>
    decreases ws.len(),
{
    if ws.len() == 0 {
        Seq::empty()
    } else if ws.len() == 1 {
        ws[0]
    } else {
        join_words(ws.drop_last()) + seq![' '] + ws.last()
    }
}

/// The words of a character sequence (`str::split_whitespace`), each as a
/// vector of characters.
pub fn split_words(v: &Vec<char>) -> (r: Vec<Vec<char>>)
    ensures
        r@.len() == words(v@).len(),
        forall|i: int| 0 <= i < r@.len() ==> #[trigger] r@[i]@ == words(v@)[i],
{
    let mut ws: Vec<Vec<char>> = Vec::new();
    let mut cur: Vec<char> = Vec::new();
    let mut i: usize = 0;
    while i < v.len()
        invariant
            i <= v.len(),
            ws@.len() == words_upto(v@, i as nat).0.len(),
            forall|k: int| 0 <= k < ws@.len() ==> #[trigger] ws@[k]@ == words_upto(v@, i as nat).0[k],
            cur@ == words_upto(v@, i as nat).1,
        decreases v.len() - i,
    {
        let c = v[i];
        if is_whitespace(c) {
            if cur.len() > 0 {
                let ghost before = ws@;
                ws.push(cur);
                cur = Vec::new();
                proof {
                    let prev = words_upto(v@, i as nat);
                    assert forall|k: int| 0 <= k < ws@.len() implies #[trigger] ws@[k]@ == words_upto(v@, (i + 1) as nat).0[k] by {
                        if k < before.len() {
                            assert(ws@[k] == before[k]);
                        }
                    }
                }
            } else {
                cur = Vec::new();
            }
            assert(cur@ =~= words_upto(v@, (i + 1) as nat).1);
        } else {
            cur.push(c);
        }
        i += 1;
    }
    if cur.len() > 0 {
        let ghost before = ws@;
        ws.push(cur);
        proof {
            assert forall|k: int| 0 <= k < ws@.len() implies #[trigger] ws@[k]@ == words(v@)[k] by {
                if k < before.len() {
                    assert(ws@[k] == before[k]);
                }
            }
        }
    }
    ws
}

/// The words joined by single spaces, as a string.
pub(crate) fn join_words_exec(ws: &Vec<Vec<char>>, Ghost(spec_ws): Ghost<Seq<Seq<char>>>) -> (s: String)
    requires
        ws@.len() == spec_ws.len(),
        forall|i: int| 0 <= i < ws@.len() ==> #[trigger] ws@[i]@ == spec_ws[i],
    ensures
        s@ == join_words(spec_ws),
{
    let mut s = String::new();
    let mut i: usize = 0;
    while i < ws.len()
        invariant
            i <= ws.len(),
            ws@.len() == spec_ws.len(),
            forall|k: int| 0 <= k < ws@.len() ==> #[trigger] ws@[k]@ == spec_ws[k],
            s@ == join_words(spec_ws.take(i as int)),
        decreases ws.len() - i,
    {
        if i > 0 {
            push_char(&mut s, ' ');
        }
        let w = &ws[i];
        let ghost before = s@;
        let mut k: usize = 0;
        while k < w.len()
            invariant
                k <= w.len(),
                s@ == before + w@.take(k as int),
            decreases w.len() - k,
        {
            push_char(&mut s, w[k]);
            assert(w@.take(k as int).push(w@[k as int]) =~= w@.take(k + 1));
            k += 1;
        }
        proof {
            assert(w@.take(k as int) =~= w@);
            let t = spec_ws.take(i + 1);
            assert(t.drop_last() =~= spec_ws.take(i as int));
            if i == 0 {
                assert(s@ =~= join_words(t));
            } else {
                assert(s@ =~= join_words(t));
            }
        }
        i += 1;
    }
    assert(spec_ws.take(i as int) =~= spec_ws);
    s
}

/// A character that can stand in a normalised word: alphanumeric and not
/// white space.
pub open spec fn word_char(c: char) -> bool {
    !is_white_space(c) && is_alphanumeric(c)
}

/// Whether `s` is words joined by single spaces: every character is a
/// space or a word character, and no space stands first, last or next to
/// another.
pub open spec fn is_spaced_words(s: Seq<char>) -> bool {
    &&& forall|i: int| 0 <= i < s.len() ==> #[trigger] s[i] == ' ' || word_char(s[i])
    &&& s.len() > 0 ==> s[0] != ' ' && s.last() != ' '
    &&& forall|i: int| 0 <= i < s.len() - 1 && #[trigger] s[i] == ' ' ==> s[i + 1] != ' '
}

/// Whether every word is non-empty and made of word characters.
pub open spec fn all_words_of_word_chars(ws: Seq<Seq<char>>) -> bool {
    forall|k: int| 0 <= k < ws.len() ==> (#[trigger] ws[k]).len() > 0
        && forall|j: int| 0 <= j < ws[k].len() ==> word_char(#[trigger] ws[k][j])
}

/// Non-empty words of word characters, joined by single spaces, are spaced
/// words.
pub proof fn lemma_join_spaced(ws: Seq<Seq<char>>)
    requires
        all_words_of_word_chars(ws),
    ensures
        is_spaced_words(join_words(ws)),
        ws.len() > 0 ==> join_words(ws).len() > 0,
    decreases ws.len(),
{
    if ws.len() == 1 {
        assert(ws[0].len() > 0);
        assert forall|j: int| 0 <= j < ws[0].len() implies word_char(#[trigger] ws[0][j]) by {}
    } else if ws.len() > 1 {
        let init = ws.drop_last();
        assert forall|k: int| 0 <= k < init.len() implies (#[trigger] init[k]).len() > 0
            && forall|j: int| 0 <= j < init[k].len() ==> word_char(#[trigger] init[k][j]) by {
            assert(init[k] == ws[k]);
        }
        lemma_join_spaced(init);
        let a = join_words(init);
        let w = ws.last();
        assert(w == ws[ws.len() - 1]);
        assert(w.len() > 0);
        let j = join_words(ws);
        assert(j == a + seq![' '] + w);
        assert forall|i: int| 0 <= i < j.len() implies #[trigger] j[i] == ' ' || word_char(j[i]) by {
            if i < a.len() {
                assert(j[i] == a[i]);
            } else if i > a.len() {
                assert(j[i] == w[i - a.len() - 1]);
            }
        }
        assert(j[0] == a[0]);
        assert(j.last() == w[w.len() - 1]);
        assert(word_char(w[w.len() - 1]));
        assert forall|i: int| 0 <= i < j.len() - 1 && #[trigger] j[i] == ' ' implies j[i + 1] != ' ' by {
            if i < a.len() - 1 {
                assert(j[i] == a[i] && j[i + 1] == a[i + 1]);
            } else if i == a.len() - 1 {
                assert(j[i] == a.last());
            } else if i == a.len() {
                assert(j[i + 1] == w[0]);
                assert(word_char(w[0]));
            } else {
                assert(j[i] == w[i - a.len() - 1]);
                assert(word_char(w[i - a.len() - 1]));
            }
        }
    }
}

proof fn lemma_words_upto_chars(s: Seq<char>, n: nat)
    requires
        n <= s.len(),
        forall|i: int| 0 <= i < s.len() && !is_white_space(#[trigger] s[i]) ==> is_alphanumeric(s[i]),
    ensures
        all_words_of_word_chars(words_upto(s, n).0),
        forall|j: int| 0 <= j < words_upto(s, n).1.len() ==> word_char(#[trigger] words_upto(s, n).1[j]),
    decreases n,
{
    if n > 0 {
        lemma_words_upto_chars(s, (n - 1) as nat);
        let (ws, cur) = words_upto(s, (n - 1) as nat);
        let c = s[n - 1];
        if is_white_space(c) {
            if cur.len() > 0 {
                let ws2 = ws.push(cur);
                assert forall|k: int| 0 <= k < ws2.len() implies (#[trigger] ws2[k]).len() > 0
                    && forall|j: int| 0 <= j < ws2[k].len() ==> word_char(#[trigger] ws2[k][j]) by {
                    if k < ws.len() {
                        assert(ws2[k] == ws[k]);
                    }
                }
            }
        } else {
            let cur2 = cur.push(c);
            assert forall|j: int| 0 <= j < cur2.len() implies word_char(#[trigger] cur2[j]) by {
                if j < cur.len() {
                    assert(cur2[j] == cur[j]);
                }
            }
        }
    }
}

/// The words of text whose non-white-space characters are all
/// alphanumeric are non-empty runs of word characters.
pub proof fn lemma_words_of_word_chars(s: Seq<char>)
    requires
        forall|i: int| 0 <= i < s.len() && !is_white_space(#[trigger] s[i]) ==> is_alphanumeric(s[i]),
    ensures
        all_words_of_word_chars(words(s)),
{
    lemma_words_upto_chars(s, s.len());
    let (ws, cur) = words_upto(s, s.len());
    if cur.len() > 0 {
        let ws2 = ws.push(cur);
        assert forall|k: int| 0 <= k < ws2.len() implies (#[trigger] ws2[k]).len() > 0
            && forall|j: int| 0 <= j < ws2[k].len() ==> word_char(#[trigger] ws2[k][j]) by {
            if k < ws.len() {
                assert(ws2[k] == ws[k]);
            }
        }
    }
}

/// Spaced words have nothing to trim.
pub proof fn lemma_spaced_words_trimmed(s: Seq<char>)
    requires
        is_spaced_words(s),
    ensures
        trim(s) == s,
{
    if s.len() > 0 {
        assert(s[0] == ' ' || word_char(s[0]));
        assert(s[s.len() - 1] == ' ' || word_char(s[s.len() - 1]));
        assert(!is_white_space(s[0]));
        assert(trim_start(s) == s);
        assert(!is_white_space(s.last()));
    }
}

// ---------------------------------------------------------------------------
// Lines
// ---------------------------------------------------------------------------

/// A line without the carriage return of a `"\r\n"` ending.
pub open spec fn strip_cr(line: Seq<char>) -> Seq<char> {
    if line.len() > 0 && line.last() == '\r' { line.drop_last() } else { line }
}

/// The finished lines and the line in progress after reading the first `n`
/// characters of `s`.
pub open spec fn lines_upto(s: Seq<char>, n: nat) -> (Seq<Seq<char>>, Seq<char>)
    decreases n,
{
    if n == 0 {
        (Seq::empty(), Seq::empty())
    } else {
        let (ls, cur) = lines_upto(s, (n - 1) as nat);
        if s[n - 1] == '\n' { (ls.push(strip_cr(cur)), Seq::empty()) } else { (ls, cur.push(s[n - 1])) }
    }
}

/// The lines of `s` as `str::lines` yields them: split at `"\n"` or
/// `"\r\n"`, with no empty line after a final line ending.
pub open spec fn lines_of(s: Seq<char>) -> Seq<Seq<char>> {
    let (ls, cur) = lines_upto(s, s.len());
    if cur.len() > 0 { ls.push(cur) } else { ls }
}

/// The lines of a text (`str::lines`), each as a vector of characters.
pub fn split_lines(v: &Vec<char>) -> (r: Vec<Vec<char>>)
    ensures
        r@.len() == lines_of(v@).len(),
        forall|i: int| 0 <= i < r@.len() ==> #[trigger] r@[i]@ == lines_of(v@)[i],
{
    let mut ls: Vec<Vec<char>> = Vec::new();
    let mut cur: Vec<char> = Vec::new();
    let mut i: usize = 0;
    while i < v.len()
        invariant
            i <= v.len(),
            ls@.len() == lines_upto(v@, i as nat).0.len(),
            forall|k: int| 0 <= k < ls@.len() ==> #[trigger] ls@[k]@ == lines_upto(v@, i as nat).0[k],
            cur@ == lines_upto(v@, i as nat).1,
        decreases v.len() - i,
    {
        let c = v[i];
        if c == '\n' {
            if cur.len() > 0 && cur[cur.len() - 1] == '\r' {
                cur.pop();
            }
            let ghost before = ls@;
            ls.push(cur);
            cur = Vec::new();
            proof {
                assert forall|k: int| 0 <= k < ls@.len() implies #[trigger] ls@[k]@ == lines_upto(v@, (i + 1) as nat).0[k] by {
                    if k < before.len() {
                        assert(ls@[k] == before[k]);
                    }
                }
            }
            assert(cur@ =~= lines_upto(v@, (i + 1) as nat).1);
        } else {
            cur.push(c);
        }
        i += 1;
    }
    if cur.len() > 0 {
        let ghost before = ls@;
        ls.push(cur);
        proof {
            assert forall|k: int| 0 <= k < ls@.len() implies #[trigger] ls@[k]@ == lines_of(v@)[k] by {
                if k < before.len() {
                    assert(ls@[k] == before[k]);
                }
            }
        }
    }
    ls
}

/// Whether `s` starts with `prefix`.
pub open spec fn starts_with(s: Seq<char>, prefix: Seq<char>) -> bool {
    prefix.len() <= s.len() && s.take(prefix.len() as int) == prefix
}

/// A concatenation starts with its first part.
pub proof fn lemma_starts_with_concat(prefix: Seq<char>, rest: Seq<char>)
    ensures
        starts_with(prefix + rest, prefix),
{
    assert((prefix + rest).take(prefix.len() as int) =~= prefix);
}

/// The characters of `s` before its first `sep` (all of them when there is
/// none): the first piece of `split(sep)`.
pub open spec fn before_first(s: Seq<char>, sep: char) -> Seq<char>
    decreases s.len(),
{
    if s.len() == 0 {
        s
    } else if s[0] == sep {
        Seq::empty()
    } else {
        seq![s[0]] + before_first(s.drop_first(), sep)
    }
}

/// The first piece of `split(sep)`, as characters.
pub fn before_first_exec(v: &Vec<char>, sep: char) -> (r: Vec<char>)
    ensures
        r@ == before_first(v@, sep),
{
    let mut r: Vec<char> = Vec::new();
    let mut i: usize = 0;
    assert(v@.skip(0) =~= v@);
    assert(v@.take(0) + before_first(v@.skip(0), sep) =~= before_first(v@, sep));
    while i < v.len() && v[i] != sep
        invariant
            i <= v.len(),
            r@ == v@.take(i as int),
            forall|k: int| 0 <= k < i ==> v@[k] != sep,
            before_first(v@, sep) == v@.take(i as int) + before_first(v@.skip(i as int), sep),
        decreases v.len() - i,
    {
        r.push(v[i]);
        proof {
            let t = v@.skip(i as int);
            assert(t.drop_first() =~= v@.skip(i + 1));
            assert(v@.take(i as int) + seq![v@[i as int]] =~= v@.take(i + 1));
            assert(v@.take(i as int) + (seq![t[0]] + before_first(t.drop_first(), sep))
                =~= v@.take(i + 1) + before_first(v@.skip(i + 1), sep));
        }
        i += 1;
    }
    proof {
        let t = v@.skip(i as int);
        if i < v.len() {
            assert(t[0] == sep);
        } else {
            assert(t.len() == 0);
        }
        assert(before_first(v@, sep) =~= v@.take(i as int));
    }
    r
}

/// `v[lo..]` as a vector.
pub fn chars_from(v: &Vec<char>, lo: usize) -> (r: Vec<char>)
    requires
        lo <= v.len(),
    ensures
        r@ == v@.skip(lo as int),
{
    let mut r: Vec<char> = Vec::new();
    let mut i = lo;
    while i < v.len()
        invariant
            lo <= i <= v.len(),
            r@ == v@.subrange(lo as int, i as int),
        decreases v.len() - i,
    {
        r.push(v[i]);
        assert(v@.subrange(lo as int, i + 1) =~= v@.subrange(lo as int, i as int).push(v@[i as int]));
        i += 1;
    }
    assert(v@.subrange(lo as int, i as int) =~= v@.skip(lo as int));
    r
}

/// `str::trim` on characters, as characters.
pub fn trim_vec(v: &Vec<char>) -> (r: Vec<char>)
    ensures
        r@ == trim(v@),
{
    let s = trim_chars(v);
    chars_of(s.as_str())
}

} // verus!

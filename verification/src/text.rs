//! Character- and string-level helpers shared by the renderers and the
//! controller state machines: ASCII case folding, whitespace trimming,
//! prefix / substring tests, decimal formatting and parsing, and HTML
//! escaping.
use vstd::prelude::*;

verus! {

// ---------------------------------------------------------------------------
// Building strings
// ---------------------------------------------------------------------------

/// Appends one character to a `String` (std `String::push`): the new
/// contents are the old contents followed by `c`.
#[verifier::external_body]
pub(crate) fn push_char(s: &mut String, c: char)
    ensures
        final(s)@ == old(s)@.push(c),
{
    s.push(c);
}

/// The characters of `s`, in order.
pub fn chars_of(s: &str) -> (v: Vec<char>)
    ensures
        v@ == s@,
{
    let mut v: Vec<char> = Vec::new();
    let n = s.unicode_len();
    let mut i: usize = 0;
    while i < n
        invariant
            n == s@.len(),
            i <= n,
            v@ == s@.take(i as int),
        decreases n - i,
    {
        let c = s.get_char(i);
        v.push(c);
        assert(s@.take(i + 1) =~= s@.take(i as int).push(c));
        i = i + 1;
    }
    assert(s@.take(n as int) =~= s@);
    v
}

/// Appends the characters `v[from..to]` to `s`.
pub fn push_chars(s: &mut String, v: &Vec<char>, from: usize, to: usize)
    requires
        from <= to <= v.len(),
    ensures
        final(s)@ == old(s)@ + v@.subrange(from as int, to as int),
{
    let ghost start = s@;
    let mut i: usize = from;
    while i < to
        invariant
            from <= i <= to <= v.len(),
            s@ == start + v@.subrange(from as int, i as int),
        decreases to - i,
    {
        push_char(s, v[i]);
        assert(v@.subrange(from as int, i + 1) =~= v@.subrange(from as int, i as int).push(
            v@[i as int],
        ));
        i = i + 1;
    }
}

/// A `String` holding the characters of `v`.
pub fn string_of(v: &Vec<char>) -> (s: String)
    ensures
        s@ == v@,
{
    let mut s = String::new();
    push_chars(&mut s, v, 0, v.len());
    assert(v@.subrange(0, v.len() as int) =~= v@);
    s
}

/// `a` and `b` hold the same characters.
pub fn str_eq(a: &str, b: &str) -> (r: bool)
    ensures
        r == (a@ == b@),
{
    let n = a.unicode_len();
    let m = b.unicode_len();
    if n != m {
        return false;
    }
    let mut i: usize = 0;
    while i < n
        invariant
            n == a@.len(),
            m == b@.len(),
            n == m,
            i <= n,
            a@.take(i as int) == b@.take(i as int),
        decreases n - i,
    {
        if a.get_char(i) != b.get_char(i) {
            assert(a@[i as int] != b@[i as int]);
            return false;
        }
        assert(a@.take(i + 1) =~= a@.take(i as int).push(a@[i as int]));
        assert(b@.take(i + 1) =~= b@.take(i as int).push(b@[i as int]));
        i = i + 1;
    }
    assert(a@ =~= a@.take(n as int));
    assert(b@ =~= b@.take(n as int));
    true
}

/// An optional attribute value that is present and equal to `lit`.
pub open spec fn attr_is(a: Option<String>, lit: Seq<char>) -> bool {
    a is Some && a->0@ == lit
}

/// Whether the attribute value `a` is present and equal to `lit`.
pub fn attr_equals(a: &Option<String>, lit: &str) -> (r: bool)
    ensures
        r == attr_is(*a, lit@),
{
    match a {
        Some(v) => str_eq(v.as_str(), lit),
        None => false,
    }
}

// ---------------------------------------------------------------------------
// ASCII case folding
// ---------------------------------------------------------------------------

/// `c` with the ASCII upper-case letters `A`..`Z` mapped to `a`..`z`.
pub open spec fn ascii_lower_char(c: char) -> char {
    if 'A' <= c && c <= 'Z' {
        ((c as u32) + 32) as char
    } else {
        c
    }
}

/// Every character of `s` folded with [`ascii_lower_char`].
pub open spec fn ascii_lower(s: Seq<char>) -> Seq<char> {
    s.map_values(|c: char| ascii_lower_char(c))
}

/// `char::to_ascii_lowercase`.
pub fn to_ascii_lower_char(c: char) -> (r: char)
    ensures
        r == ascii_lower_char(c),
{
    let b = c as u32;
    if 65 <= b && b <= 90 {
        ((b + 32) as u8) as char
    } else {
        c
    }
}

/// `str::to_ascii_lowercase`.
pub fn to_ascii_lowercase(s: &str) -> (r: String)
    ensures
        r@ == ascii_lower(s@),
{
    let v = chars_of(s);
    let mut out = String::new();
    let mut i: usize = 0;
    while i < v.len()
        invariant
            v@ == s@,
            i <= v.len(),
            out@ == ascii_lower(s@.take(i as int)),
        decreases v.len() - i,
    {
        push_char(&mut out, to_ascii_lower_char(v[i]));
        assert(ascii_lower(s@.take(i + 1)) =~= ascii_lower(s@.take(i as int)).push(
            ascii_lower_char(s@[i as int]),
        ));
        i = i + 1;
    }
    assert(s@.take(v.len() as int) =~= s@);
    out
}

// ---------------------------------------------------------------------------
// Control characters and whitespace
// ---------------------------------------------------------------------------

/// The Unicode general category `Cc`: U+0000..=U+001F and U+007F..=U+009F.
pub open spec fn is_control_char(c: char) -> bool {
    (c as u32) <= 0x1f || (0x7f <= (c as u32) && (c as u32) <= 0x9f)
}

/// `char::is_control`.
pub fn is_control(c: char) -> (r: bool)
    ensures
        r == is_control_char(c),
{
    let b = c as u32;
    b <= 0x1f || (0x7f <= b && b <= 0x9f)
}

/// Whether `c` has the Unicode `White_Space` property (PropList.txt):
/// U+0009..=U+000D, U+0020, U+0085, U+00A0, U+1680, U+2000..=U+200A,
/// U+2028, U+2029, U+202F, U+205F and U+3000.
pub open spec fn char_is_whitespace(c: char) -> bool {
    let u = c as u32;
    (0x9 <= u && u <= 0xd) || u == 0x20 || u == 0x85 || u == 0xa0 || u == 0x1680 || (0x2000 <= u
        && u <= 0x200a) || u == 0x2028 || u == 0x2029 || u == 0x202f || u == 0x205f || u == 0x3000
}

/// `char::is_whitespace`.
pub fn is_whitespace(c: char) -> (r: bool)
    ensures
        r == char_is_whitespace(c),
{
    let u = c as u32;
    (0x9 <= u && u <= 0xd) || u == 0x20 || u == 0x85 || u == 0xa0 || u == 0x1680 || (0x2000 <= u
        && u <= 0x200a) || u == 0x2028 || u == 0x2029 || u == 0x202f || u == 0x205f || u == 0x3000
}

/// `s` without its leading whitespace.
pub open spec fn trim_start(s: Seq<char>) -> Seq<char>
    decreases s.len(),
{
    if s.len() > 0 && char_is_whitespace(s[0]) {
        trim_start(s.drop_first())
    } else {
        s
    }
}

/// `s` without its trailing whitespace.
pub open spec fn trim_end(s: Seq<char>) -> Seq<char>
    decreases s.len(),
{
    if s.len() > 0 && char_is_whitespace(s.last()) {
        trim_end(s.drop_last())
    } else {
        s
    }
}

/// `s` without leading and trailing whitespace (`str::trim`).
pub open spec fn trim(s: Seq<char>) -> Seq<char> {
    trim_end(trim_start(s))
}

proof fn lemma_trim_start_skip(s: Seq<char>, a: int)
    requires
        0 <= a <= s.len(),
        forall|k: int| 0 <= k < a ==> char_is_whitespace(#[trigger] s[k]),
        a == s.len() || !char_is_whitespace(s[a]),
    ensures
        trim_start(s) == s.subrange(a, s.len() as int),
    decreases a,
{
    if a == 0 {
        if s.len() > 0 {
            assert(!char_is_whitespace(s[0]));
        }
        assert(s.subrange(0, s.len() as int) =~= s);
    } else {
        let t = s.drop_first();
        assert forall|k: int| 0 <= k < a - 1 implies char_is_whitespace(#[trigger] t[k]) by {
            assert(t[k] == s[k + 1]);
        }
        if a - 1 < t.len() {
            assert(t[a - 1] == s[a]);
        }
        lemma_trim_start_skip(t, a - 1);
        assert(s[0] == s[0]);
        assert(t.subrange(a - 1, t.len() as int) =~= s.subrange(a, s.len() as int));
    }
}

proof fn lemma_trim_end_take(s: Seq<char>, b: int)
    requires
        0 <= b <= s.len(),
        forall|k: int| b <= k < s.len() ==> char_is_whitespace(#[trigger] s[k]),
        b == 0 || !char_is_whitespace(s[b - 1]),
    ensures
        trim_end(s) == s.subrange(0, b),
    decreases s.len() - b,
{
    if b == s.len() {
        if s.len() > 0 {
            assert(!char_is_whitespace(s.last()));
        }
        assert(s.subrange(0, b) =~= s);
    } else {
        let t = s.drop_last();
        assert(char_is_whitespace(s[s.len() - 1]));
        assert forall|k: int| b <= k < t.len() implies char_is_whitespace(#[trigger] t[k]) by {
            assert(t[k] == s[k]);
        }
        if b > 0 {
            assert(t[b - 1] == s[b - 1]);
        }
        lemma_trim_end_take(t, b);
        assert(t.subrange(0, b) =~= s.subrange(0, b));
    }
}

/// `str::trim`: `s` without leading and trailing whitespace.
pub fn trim_str(s: &str) -> (r: String)
    ensures
        r@ == trim(s@),
{
    let v = chars_of(s);
    let n = v.len();
    let mut a: usize = 0;
    while a < n && is_whitespace(v[a])
        invariant
            v@ == s@,
            n == v.len(),
            a <= n,
            forall|k: int| 0 <= k < a ==> char_is_whitespace(#[trigger] v@[k]),
        decreases n - a,
    {
        a = a + 1;
    }
    proof {
        lemma_trim_start_skip(s@, a as int);
    }
    let mut b: usize = n;
    while b > a && is_whitespace(v[b - 1])
        invariant
            v@ == s@,
            n == v.len(),
            a <= b <= n,
            forall|k: int| b <= k < n ==> char_is_whitespace(#[trigger] v@[k]),
        decreases b,
    {
        b = b - 1;
    }
    proof {
        let t = s@.subrange(a as int, n as int);
        assert forall|k: int| b - a <= k < t.len() implies char_is_whitespace(#[trigger] t[k]) by {
            assert(t[k] == s@[k + a]);
        }
        if b > a {
            assert(t[b - a - 1] == s@[b - 1]);
        }
        lemma_trim_end_take(t, b - a);
        assert(t.subrange(0, b - a) =~= s@.subrange(a as int, b as int));
    }
    let mut out = String::new();
    push_chars(&mut out, &v, a, b);
    out
}

// ---------------------------------------------------------------------------
// Prefix and substring tests
// ---------------------------------------------------------------------------

/// `s` begins with `prefix`.
pub open spec fn has_prefix(s: Seq<char>, prefix: Seq<char>) -> bool {
    prefix.len() <= s.len() && s.take(prefix.len() as int) == prefix
}

/// `needle` occurs in `hay` starting at position `i`.
pub open spec fn occurs_at(hay: Seq<char>, needle: Seq<char>, i: int) -> bool {
    0 <= i && i + needle.len() <= hay.len() && hay.subrange(i, i + needle.len()) == needle
}

/// `needle` occurs somewhere in `hay` (`str::contains`).
pub open spec fn has_substring(hay: Seq<char>, needle: Seq<char>) -> bool {
    exists|i: int| occurs_at(hay, needle, i)
}

/// Whether `v[at..]` begins with `prefix`.
fn matches_at(v: &Vec<char>, prefix: &Vec<char>, at: usize) -> (r: bool)
    requires
        at <= v.len(),
    ensures
        r == occurs_at(v@, prefix@, at as int),
{
    if prefix.len() > v.len() - at {
        return false;
    }
    let mut k: usize = 0;
    while k < prefix.len()
        invariant
            at + prefix.len() <= v.len(),
            k <= prefix.len(),
            forall|j: int| 0 <= j < k ==> v@[at + j] == prefix@[j],
        decreases prefix.len() - k,
    {
        if v[at + k] != prefix[k] {
            assert(v@.subrange(at as int, at + prefix.len())[k as int] != prefix@[k as int]);
            return false;
        }
        k = k + 1;
    }
    assert(v@.subrange(at as int, at + prefix.len()) =~= prefix@);
    true
}

/// `str::starts_with`.
pub fn starts_with(s: &str, prefix: &str) -> (r: bool)
    ensures
        r == has_prefix(s@, prefix@),
{
    let v = chars_of(s);
    let p = chars_of(prefix);
    let r = matches_at(&v, &p, 0);
    assert(s@.subrange(0, p.len() as int) == s@.take(p.len() as int));
    r
}

/// `str::contains` with a string pattern.
pub fn contains(hay: &str, needle: &str) -> (r: bool)
    ensures
        r == has_substring(hay@, needle@),
{
    let v = chars_of(hay);
    let p = chars_of(needle);
    if p.len() > v.len() {
        assert forall|i: int| !occurs_at(hay@, needle@, i) by {}
        return false;
    }
    let last = v.len() - p.len();
    let mut i: usize = 0;
    loop
        invariant
            v@ == hay@,
            p@ == needle@,
            last == v.len() - p.len(),
            i <= last,
            forall|j: int| 0 <= j < i ==> !occurs_at(hay@, needle@, j),
        ensures
            forall|j: int| 0 <= j <= last ==> !occurs_at(hay@, needle@, j),
        decreases last - i,
    {
        if matches_at(&v, &p, i) {
            return true;
        }
        if i == last {
            break;
        }
        i = i + 1;
    }
    assert forall|j: int| !occurs_at(hay@, needle@, j) by {
        if 0 <= j && j <= last {
        }
    }
    false
}

// ---------------------------------------------------------------------------
// Decimal numbers
// ---------------------------------------------------------------------------

/// The ASCII digit for `d` (`0 <= d < 10`).
pub open spec fn digit_char(d: nat) -> char {
    ((d + 48) as u32) as char
}

/// The decimal representation of `n` (no sign, no leading zeros).
pub open spec fn dec(n: nat) -> Seq<char>
    decreases n,
{
    if n < 10 {
        seq![digit_char(n)]
    } else {
        dec(n / 10).push(digit_char(n % 10))
    }
}

/// The decimal representation of a signed integer, `-` before negatives.
pub open spec fn dec_signed(n: int) -> Seq<char> {
    if n < 0 {
        seq!['-'] + dec((-n) as nat)
    } else {
        dec(n as nat)
    }
}

/// Whether `c` is an ASCII digit.
pub open spec fn is_digit(c: char) -> bool {
    '0' <= c && c <= '9'
}

/// The value of the decimal digit string `s`.
pub open spec fn digits_value(s: Seq<char>) -> nat
    decreases s.len(),
{
    if s.len() == 0 {
        0
    } else {
        digits_value(s.drop_last()) * 10 + ((s.last() as u32) - 48) as nat
    }
}

/// Every character of `s` is an ASCII digit.
pub open spec fn all_digits(s: Seq<char>) -> bool {
    forall|k: int| 0 <= k < s.len() ==> is_digit(#[trigger] s[k])
}

/// `s` without one leading `+`, if it has one.
pub open spec fn unsigned_body(s: Seq<char>) -> Seq<char> {
    if s.len() > 0 && s[0] == '+' {
        s.drop_first()
    } else {
        s
    }
}

/// What `str::parse::<u32>` returns: an optional `+` followed by one or more
/// ASCII digits whose value fits in a `u32`.
pub open spec fn parse_u32_spec(s: Seq<char>) -> Option<u32> {
    let body = unsigned_body(s);
    if body.len() > 0 && all_digits(body) && digits_value(body) <= u32::MAX {
        Some(digits_value(body) as u32)
    } else {
        None
    }
}

/// The decimal representation of `n` (`u64::to_string`).
pub fn format_u64(n: u64) -> (r: String)
    ensures
        r@ == dec(n as nat),
{
    // Collect digits least-significant first, then reverse.
    let mut rev: Vec<char> = Vec::new();
    rev.push(((n % 10 + 48) as u8) as char);
    let mut m: u64 = n / 10;
    proof {
        assert(rev@.reverse() =~= seq![digit_char((n % 10) as nat)]);
    }
    while m > 0
        invariant
            m > 0 ==> dec(n as nat) == dec(m as nat) + rev@.reverse(),
            m == 0 ==> dec(n as nat) == rev@.reverse(),
        decreases m,
    {
        let d = m % 10;
        let c = ((d + 48) as u8) as char;
        let ghost old_rev = rev@;
        rev.push(c);
        proof {
            assert(rev@.reverse() =~= seq![c] + old_rev.reverse());
            if m >= 10 {
                assert(dec(m as nat) == dec((m / 10) as nat).push(digit_char((m % 10) as nat)));
                assert(dec((m / 10) as nat).push(c) + old_rev.reverse() =~= dec((m / 10) as nat)
                    + (seq![c] + old_rev.reverse()));
            } else {
                assert(dec(m as nat) == seq![digit_char(m as nat)]);
            }
        }
        m = m / 10;
    }
    let mut out = String::new();
    let mut i: usize = rev.len();
    while i > 0
        invariant
            i <= rev.len(),
            out@ == rev@.reverse().take((rev.len() - i) as int),
        decreases i,
    {
        i = i - 1;
        push_char(&mut out, rev[i]);
        assert(rev@.reverse().take((rev.len() - i) as int) =~= rev@.reverse().take(
            (rev.len() - i - 1) as int,
        ).push(rev@[i as int]));
    }
    assert(rev@.reverse().take(rev.len() as int) =~= rev@.reverse());
    out
}

} // verus!

verus! {

/// The decimal representation of `n`, with a leading `-` for negatives
/// (`i64::to_string`).
pub fn format_i64(n: i64) -> (r: String)
    ensures
        r@ == dec_signed(n as int),
{
    if n < 0 {
        let mag: u64 = if n == i64::MIN {
            9223372036854775808u64
        } else {
            (-n) as u64
        };
        let digits = format_u64(mag);
        let mut out = String::new();
        push_char(&mut out, '-');
        out.append(digits.as_str());
        out
    } else {
        format_u64(n as u64)
    }
}

proof fn lemma_digit_char_value(d: nat)
    requires
        d < 10,
    ensures
        is_digit(digit_char(d)),
        ((digit_char(d) as u32) - 48) as nat == d,
        digit_char(d) != '+',
{
}

/// The digits of `dec(n)` are ASCII digits and read back as `n`.
pub proof fn lemma_dec_value(n: nat)
    ensures
        dec(n).len() > 0,
        forall|k: int| 0 <= k < dec(n).len() ==> is_digit(#[trigger] dec(n)[k]),
        digits_value(dec(n)) == n,
    decreases n,
{
    if n < 10 {
        lemma_digit_char_value(n);
        let s = dec(n);
        assert(s.drop_last() =~= Seq::<char>::empty());
        assert(s.last() == digit_char(n));
        assert(digits_value(Seq::<char>::empty()) == 0);
    } else {
        lemma_dec_value(n / 10);
        lemma_digit_char_value(n % 10);
        let s = dec(n);
        assert(s.drop_last() =~= dec(n / 10));
        assert(s.last() == digit_char(n % 10));
        assert(digits_value(s) == digits_value(dec(n / 10)) * 10 + n % 10);
        assert(n == (n / 10) * 10 + n % 10) by (nonlinear_arith);
        assert forall|k: int| 0 <= k < s.len() implies is_digit(#[trigger] s[k]) by {
            if k < s.len() - 1 {
                assert(s[k] == dec(n / 10)[k]);
            }
        }
    }
}

proof fn lemma_digits_value_mono(s: Seq<char>, k: int)
    requires
        0 <= k <= s.len(),
    ensures
        digits_value(s.take(k)) <= digits_value(s),
    decreases s.len() - k,
{
    if k < s.len() {
        lemma_digits_value_mono(s, k + 1);
        assert(s.take(k + 1).drop_last() =~= s.take(k));
    } else {
        assert(s.take(k) =~= s);
    }
}

/// `str::parse::<u32>`.
pub fn parse_u32(s: &str) -> (r: Option<u32>)
    ensures
        r == parse_u32_spec(s@),
{
    let v = chars_of(s);
    let start: usize = if v.len() > 0 && v[0] == '+' {
        1
    } else {
        0
    };
    let ghost body = unsigned_body(s@);
    assert(body =~= s@.subrange(start as int, s@.len() as int));
    if start == v.len() {
        return None;
    }
    let mut i: usize = start;
    let mut acc: u64 = 0;
    while i < v.len()
        invariant
            v@ == s@,
            start <= i <= v.len(),
            body == s@.subrange(start as int, s@.len() as int),
            body == unsigned_body(s@),
            forall|k: int| 0 <= k < i - start ==> is_digit(#[trigger] body[k]),
            acc == digits_value(body.take(i - start)),
            acc <= u32::MAX,
        decreases v.len() - i,
    {
        let c = v[i];
        if !('0' <= c && c <= '9') {
            assert(!is_digit(body[i - start]));
            return None;
        }
        let d = (c as u32 - 48) as u64;
        assert(body.take(i - start + 1).drop_last() =~= body.take(i - start));
        assert(body.take(i - start + 1).last() == c);
        let next = acc * 10 + d;
        assert(digits_value(body.take(i - start + 1)) == next);
        if next > 4294967295u64 {
            proof {
                lemma_digits_value_mono(body, i - start + 1);
            }
            // The remaining characters may still be non-digits; either way
            // the result is `None`.
            return None;
        }
        acc = next;
        i = i + 1;
    }
    assert(body.take(body.len() as int) =~= body);
    Some(acc as u32)
}

/// Reading back a formatted number: `parse_u32(format(n)) == Some(n)`.
pub proof fn lemma_parse_format_u32(n: u32)
    ensures
        parse_u32_spec(dec(n as nat)) == Some(n),
{
    lemma_dec_value(n as nat);
    let s = dec(n as nat);
    assert(s[0] != '+') by {
        assert(is_digit(s[0]));
    }
}

// ---------------------------------------------------------------------------
// Unicode lower case
// ---------------------------------------------------------------------------

/// What `str::to_lowercase` returns for `s` (full Unicode case mapping).
pub uninterp spec fn unicode_lower(s: Seq<char>) -> Seq<char>;

/// `str::to_lowercase`: the Unicode lower-case mapping of `s`, named
/// [`unicode_lower`]; its table is not restated here. Every character maps
/// to at least one character, so the result is empty exactly when `s` is.
#[verifier::external_body]
pub(crate) fn to_lowercase(s: &str) -> (r: String)
    ensures
        r@ == unicode_lower(s@),
        r@.len() == 0 <==> s@.len() == 0,
{
    s.to_lowercase()
}

// ---------------------------------------------------------------------------
// HTML escaping
// ---------------------------------------------------------------------------

/// Replacement text of one character in element content: `&`, `<`, `>`
/// and `"` become entities, everything else stays.
pub open spec fn html_escape_char(c: char) -> Seq<char> {
    if c == '&' {
        "&amp;"@
    } else if c == '<' {
        "&lt;"@
    } else if c == '>' {
        "&gt;"@
    } else if c == '"' {
        "&quot;"@
    } else {
        seq![c]
    }
}

/// `s` with every character replaced by [`html_escape_char`].
pub open spec fn html_escaped(s: Seq<char>) -> Seq<char>
    decreases s.len(),
{
    if s.len() == 0 {
        Seq::empty()
    } else {
        html_escaped(s.drop_last()) + html_escape_char(s.last())
    }
}

/// Replacement text of one character inside a quoted attribute value: the
/// characters of [`html_escape_char`] and, in addition, `'`.
pub open spec fn attr_escape_char(c: char) -> Seq<char> {
    if c == '\'' {
        "&#39;"@
    } else {
        html_escape_char(c)
    }
}

/// `s` with every character replaced by [`attr_escape_char`].
pub open spec fn attr_escaped(s: Seq<char>) -> Seq<char>
    decreases s.len(),
{
    if s.len() == 0 {
        Seq::empty()
    } else {
        attr_escaped(s.drop_last()) + attr_escape_char(s.last())
    }
}

/// Escapes `&`, `<`, `>` and `"` for use in element content.
pub fn html_escape(s: &str) -> (r: String)
    ensures
        r@ == html_escaped(s@),
{
    let v = chars_of(s);
    let mut out = String::new();
    let mut i: usize = 0;
    while i < v.len()
        invariant
            v@ == s@,
            i <= v.len(),
            out@ == html_escaped(s@.take(i as int)),
        decreases v.len() - i,
    {
        let c = v[i];
        if c == '&' {
            out.append("&amp;");
        } else if c == '<' {
            out.append("&lt;");
        } else if c == '>' {
            out.append("&gt;");
        } else if c == '"' {
            out.append("&quot;");
        } else {
            push_char(&mut out, c);
        }
        assert(s@.take(i + 1).drop_last() =~= s@.take(i as int));
        i = i + 1;
    }
    assert(s@.take(v.len() as int) =~= s@);
    out
}

/// Escapes `&`, `<`, `>`, `"` and `'` for use inside a quoted attribute
/// value (also safe in element content).
pub fn escape_attr(s: &str) -> (r: String)
    ensures
        r@ == attr_escaped(s@),
{
    let v = chars_of(s);
    let mut out = String::new();
    let mut i: usize = 0;
    while i < v.len()
        invariant
            v@ == s@,
            i <= v.len(),
            out@ == attr_escaped(s@.take(i as int)),
        decreases v.len() - i,
    {
        let c = v[i];
        if c == '\'' {
            out.append("&#39;");
        } else if c == '&' {
            out.append("&amp;");
        } else if c == '<' {
            out.append("&lt;");
        } else if c == '>' {
            out.append("&gt;");
        } else if c == '"' {
            out.append("&quot;");
        } else {
            push_char(&mut out, c);
        }
        assert(s@.take(i + 1).drop_last() =~= s@.take(i as int));
        i = i + 1;
    }
    assert(s@.take(v.len() as int) =~= s@);
    out
}

} // verus!

verus! {

// ---------------------------------------------------------------------------
// Splitting
// ---------------------------------------------------------------------------

/// Index of the last `c` in `s`, or -1.
pub open spec fn last_index_of(s: Seq<char>, c: char) -> int
    decreases s.len(),
{
    if s.len() == 0 {
        -1
    } else if s.last() == c {
        s.len() - 1
    } else {
        last_index_of(s.drop_last(), c)
    }
}

/// Index of the first `c` in `s`, or -1.
pub open spec fn first_index_of(s: Seq<char>, c: char) -> int
    decreases s.len(),
{
    if s.len() == 0 {
        -1
    } else if s[0] == c {
        0
    } else {
        let r = first_index_of(s.drop_first(), c);
        if r < 0 {
            -1
        } else {
            r + 1
        }
    }
}

pub proof fn lemma_last_index_of_bounds(s: Seq<char>, c: char)
    ensures
        -1 <= last_index_of(s, c) < s.len(),
        last_index_of(s, c) >= 0 ==> s[last_index_of(s, c)] == c,
        forall|k: int| last_index_of(s, c) < k < s.len() ==> s[k] != c,
    decreases s.len(),
{
    if s.len() > 0 && s.last() != c {
        lemma_last_index_of_bounds(s.drop_last(), c);
        assert forall|k: int| last_index_of(s, c) < k < s.len() implies s[k] != c by {
            if k < s.len() - 1 {
                assert(s[k] == s.drop_last()[k]);
            }
        }
    }
}

/// The pieces of `s` between occurrences of `c` (`str::split` with a
/// character pattern): always at least one piece, empty pieces included.
pub open spec fn split_on(s: Seq<char>, c: char) -> Seq<Seq<char>>
    decreases s.len(),
{
    let j = last_index_of(s, c);
    if j < 0 {
        seq![s]
    } else {
        proof {
            lemma_last_index_of_bounds(s, c);
        }
        split_on(s.take(j), c).push(s.skip(j + 1))
    }
}

/// `last_index_of` of a prefix whose last `c` is at `start - 1`.
pub proof fn lemma_last_index_of_prefix(s: Seq<char>, c: char, start: int, i: int)
    requires
        0 <= start <= i <= s.len(),
        start == 0 || s[start - 1] == c,
        forall|k: int| start <= k < i ==> s[k] != c,
        start == 0 ==> forall|k: int| 0 <= k < i ==> s[k] != c,
    ensures
        last_index_of(s.take(i), c) == start - 1,
    decreases i,
{
    let t = s.take(i);
    if i == 0 {
    } else if i == start {
        assert(t.last() == c);
    } else {
        assert(t.last() != c);
        assert(t.drop_last() =~= s.take(i - 1));
        lemma_last_index_of_prefix(s, c, start, i - 1);
    }
}

/// Splitting a prefix that ends just before a piece: the pieces of the
/// prefix up to the previous separator, then the piece.
pub proof fn lemma_split_prefix(s: Seq<char>, c: char, start: int, i: int)
    requires
        0 <= start <= i <= s.len(),
        start == 0 || s[start - 1] == c,
        forall|k: int| start <= k < i ==> s[k] != c,
        start == 0 ==> forall|k: int| 0 <= k < i ==> s[k] != c,
    ensures
        split_on(s.take(i), c) == (if start == 0 {
            Seq::<Seq<char>>::empty()
        } else {
            split_on(s.take(start - 1), c)
        }).push(s.subrange(start, i)),
{
    lemma_last_index_of_prefix(s, c, start, i);
    let t = s.take(i);
    if start == 0 {
        assert(t =~= s.subrange(0, i));
        assert(seq![t] =~= Seq::<Seq<char>>::empty().push(t));
    } else {
        assert(t.take(start - 1) =~= s.take(start - 1));
        assert(t.skip(start) =~= s.subrange(start, i));
    }
}

/// Trims the range `v[a..b]`: the returned bounds delimit `trim(v[a..b])`.
pub fn trim_range(v: &Vec<char>, a: usize, b: usize) -> (r: (usize, usize))
    requires
        a <= b <= v.len(),
    ensures
        a <= r.0 <= r.1 <= b,
        v@.subrange(r.0 as int, r.1 as int) == trim(v@.subrange(a as int, b as int)),
{
    let ghost s = v@.subrange(a as int, b as int);
    let mut x: usize = a;
    while x < b && crate::text::is_whitespace(v[x])
        invariant
            a <= x <= b <= v.len(),
            s == v@.subrange(a as int, b as int),
            forall|k: int| a <= k < x ==> char_is_whitespace(#[trigger] v@[k]),
        decreases b - x,
    {
        x = x + 1;
    }
    proof {
        assert forall|k: int| 0 <= k < x - a implies char_is_whitespace(#[trigger] s[k]) by {
            assert(s[k] == v@[k + a]);
        }
        if x < b {
            assert(s[x - a] == v@[x as int]);
        }
        lemma_trim_start_skip(s, x - a);
        assert(s.subrange(x - a, s.len() as int) =~= v@.subrange(x as int, b as int));
    }
    let mut y: usize = b;
    while y > x && crate::text::is_whitespace(v[y - 1])
        invariant
            a <= x <= y <= b <= v.len(),
            forall|k: int| y <= k < b ==> char_is_whitespace(#[trigger] v@[k]),
        decreases y,
    {
        y = y - 1;
    }
    proof {
        let t = v@.subrange(x as int, b as int);
        assert forall|k: int| y - x <= k < t.len() implies char_is_whitespace(#[trigger] t[k]) by {
            assert(t[k] == v@[k + x]);
        }
        if y > x {
            assert(t[y - x - 1] == v@[y - 1]);
        }
        lemma_trim_end_take(t, y - x);
        assert(t.subrange(0, y - x) =~= v@.subrange(x as int, y as int));
    }
    (x, y)
}

/// Position of the first `c` in `v[a..b]`, or `b` when there is none.
pub fn find_char(v: &Vec<char>, a: usize, b: usize, c: char) -> (r: usize)
    requires
        a <= b <= v.len(),
    ensures
        a <= r <= b,
        forall|k: int| a <= k < r ==> v@[k] != c,
        r < b ==> v@[r as int] == c,
{
    let mut i = a;
    while i < b && v[i] != c
        invariant
            a <= i <= b <= v.len(),
            forall|k: int| a <= k < i ==> v@[k] != c,
        decreases b - i,
    {
        i = i + 1;
    }
    i
}

} // verus!

verus! {

/// `first_index_of` is the position of the first `c`.
pub proof fn lemma_first_index_of(s: Seq<char>, c: char, r: int)
    requires
        0 <= r <= s.len(),
        forall|k: int| 0 <= k < r ==> s[k] != c,
        r == s.len() || s[r] == c,
    ensures
        first_index_of(s, c) == (if r == s.len() {
            -1
        } else {
            r
        }),
    decreases s.len(),
{
    if s.len() > 0 && s[0] != c {
        let t = s.drop_first();
        assert forall|k: int| 0 <= k < r - 1 implies t[k] != c by {
            assert(t[k] == s[k + 1]);
        }
        if r - 1 < t.len() {
            assert(t[r - 1] == s[r]);
        }
        lemma_first_index_of(t, c, r - 1);
    }
}

} // verus!

verus! {

// ---------------------------------------------------------------------------
// Lexicographic order (what `Ord` on `String` compares by)
// ---------------------------------------------------------------------------

/// `a` sorts strictly before `b`: at the first differing position `a` has
/// the smaller character, or `a` is a proper prefix of `b`.
pub open spec fn lex_lt(a: Seq<char>, b: Seq<char>) -> bool
    decreases a.len(),
{
    if a.len() == 0 {
        b.len() > 0
    } else if b.len() == 0 {
        false
    } else if a[0] != b[0] {
        (a[0] as u32) < (b[0] as u32)
    } else {
        lex_lt(a.drop_first(), b.drop_first())
    }
}

pub proof fn lemma_lex_irreflexive(a: Seq<char>)
    ensures
        !lex_lt(a, a),
    decreases a.len(),
{
    if a.len() > 0 {
        lemma_lex_irreflexive(a.drop_first());
    }
}

pub proof fn lemma_lex_trichotomy(a: Seq<char>, b: Seq<char>)
    ensures
        lex_lt(a, b) || lex_lt(b, a) || a == b,
        !(lex_lt(a, b) && lex_lt(b, a)),
    decreases a.len(),
{
    if a.len() > 0 && b.len() > 0 {
        if a[0] == b[0] {
            lemma_lex_trichotomy(a.drop_first(), b.drop_first());
            if a.drop_first() == b.drop_first() {
                assert(a =~= seq![a[0]] + a.drop_first());
                assert(b =~= seq![b[0]] + b.drop_first());
            }
        } else {
            vstd::utf8::char_u32_cast(a[0], a[0] as u32);
            vstd::utf8::char_u32_cast(b[0], b[0] as u32);
            assert((a[0] as u32) != (b[0] as u32));
        }
    } else if a.len() == 0 && b.len() == 0 {
        assert(a =~= b);
    }
}

pub proof fn lemma_lex_transitive(a: Seq<char>, b: Seq<char>, c: Seq<char>)
    requires
        lex_lt(a, b),
        lex_lt(b, c),
    ensures
        lex_lt(a, c),
    decreases a.len(),
{
    if a.len() > 0 && b.len() > 0 && c.len() > 0 {
        if a[0] == b[0] && b[0] == c[0] {
            lemma_lex_transitive(a.drop_first(), b.drop_first(), c.drop_first());
        }
    }
}

/// Whether `a` sorts strictly before `b`.
pub fn lex_less(a: &str, b: &str) -> (r: bool)
    ensures
        r == lex_lt(a@, b@),
{
    let va = chars_of(a);
    let vb = chars_of(b);
    let mut i: usize = 0;
    assert(a@.skip(0) =~= a@);
    assert(b@.skip(0) =~= b@);
    while i < va.len() && i < vb.len() && va[i] == vb[i]
        invariant
            va@ == a@,
            vb@ == b@,
            i <= va.len(),
            i <= vb.len(),
            lex_lt(a@, b@) == lex_lt(a@.skip(i as int), b@.skip(i as int)),
        decreases va.len() - i,
    {
        assert(a@.skip(i as int).drop_first() =~= a@.skip(i + 1));
        assert(b@.skip(i as int).drop_first() =~= b@.skip(i + 1));
        i = i + 1;
    }
    assert(a@.skip(i as int).len() == va.len() - i);
    assert(b@.skip(i as int).len() == vb.len() - i);
    let ghost sa = a@.skip(i as int);
    let ghost sb = b@.skip(i as int);
    if i == va.len() {
        assert(lex_lt(sa, sb) == (sb.len() > 0));
        i < vb.len()
    } else if i == vb.len() {
        assert(!lex_lt(sa, sb));
        false
    } else {
        assert(sa[0] == va@[i as int]);
        assert(sb[0] == vb@[i as int]);
        assert(sa[0] != sb[0]);
        let x = va[i] as u32;
        let y = vb[i] as u32;
        x < y
    }
}

} // verus!

verus! {

// ---------------------------------------------------------------------------
// Sorted sets of strings
// ---------------------------------------------------------------------------

/// The contents of a list of strings.
pub open spec fn views(v: Seq<String>) -> Seq<Seq<char>> {
    v.map_values(|s: String| s@)
}

/// Every string sorts strictly before the ones after it (so none repeats).
pub open spec fn strictly_sorted(v: Seq<Seq<char>>) -> bool {
    forall|i: int, j: int| 0 <= i < j < v.len() ==> lex_lt(#[trigger] v[i], #[trigger] v[j])
}

/// Inserts `x` into the strictly sorted list `v`, unless it is already
/// there.
pub fn insert_sorted(v: &mut Vec<String>, x: String)
    requires
        strictly_sorted(views(old(v)@)),
    ensures
        strictly_sorted(views(final(v)@)),
        views(final(v)@).to_set() == views(old(v)@).to_set().insert(x@),
{
    let ghost old_v = views(v@);
    let mut j: usize = 0;
    while j < v.len() && lex_less(v[j].as_str(), x.as_str())
        invariant
            j <= v@.len(),
            views(v@) == old_v,
            strictly_sorted(old_v),
            forall|k: int| 0 <= k < j ==> lex_lt(#[trigger] old_v[k], x@),
        decreases v.len() - j,
    {
        j = j + 1;
    }
    if j < v.len() && crate::text::str_eq(v[j].as_str(), x.as_str()) {
        assert(old_v[j as int] == x@);
        assert(old_v.to_set().insert(x@) =~= old_v.to_set());
        return;
    }
    proof {
        if j < v@.len() {
            lemma_lex_trichotomy(old_v[j as int], x@);
            assert(lex_lt(x@, old_v[j as int]));
        }
    }
    v.insert(j, x);
    proof {
        let nv = views(v@);
        assert(nv =~= old_v.insert(j as int, x@));
        assert forall|k: int| j <= k < old_v.len() implies lex_lt(x@, #[trigger] old_v[k]) by {
            if k > j {
                lemma_lex_transitive(x@, old_v[j as int], old_v[k]);
            }
        }
        assert forall|a: int, b: int| 0 <= a < b < nv.len() implies lex_lt(
            #[trigger] nv[a],
            #[trigger] nv[b],
        ) by {
            if b < j {
                assert(nv[a] == old_v[a] && nv[b] == old_v[b]);
            } else if b == j {
                assert(lex_lt(old_v[a], x@));
            } else if a < j {
                assert(lex_lt(old_v[a], x@));
                assert(lex_lt(x@, old_v[b - 1]));
                lemma_lex_transitive(old_v[a], x@, old_v[b - 1]);
            } else if a == j {
                assert(lex_lt(x@, old_v[b - 1]));
            } else {
                assert(nv[a] == old_v[a - 1] && nv[b] == old_v[b - 1]);
            }
        }
        assert(nv.to_set() =~= old_v.to_set().insert(x@)) by {
            assert forall|s: Seq<char>| nv.to_set().contains(s) <==> old_v.to_set().insert(
                x@,
            ).contains(s) by {
                if nv.to_set().contains(s) {
                    let k = choose|k: int| 0 <= k < nv.len() && nv[k] == s;
                    if k < j {
                        assert(old_v[k] == s);
                    } else if k > j {
                        assert(old_v[k - 1] == s);
                    }
                }
                if old_v.to_set().contains(s) {
                    let k = choose|k: int| 0 <= k < old_v.len() && old_v[k] == s;
                    if k < j {
                        assert(nv[k] == s);
                    } else {
                        assert(nv[k + 1] == s);
                    }
                }
                if s == x@ {
                    assert(nv[j as int] == s);
                }
            }
        }
    }
}

/// The strings of `items`, sorted and without repeats.
pub fn sort_unique(items: &Vec<String>) -> (r: Vec<String>)
    ensures
        strictly_sorted(views(r@)),
        views(r@).to_set() == views(items@).to_set(),
{
    let mut out: Vec<String> = Vec::new();
    let mut i: usize = 0;
    assert(views(out@).to_set() =~= views(items@.take(0)).to_set());
    while i < items.len()
        invariant
            i <= items@.len(),
            strictly_sorted(views(out@)),
            views(out@).to_set() == views(items@.take(i as int)).to_set(),
        decreases items.len() - i,
    {
        insert_sorted(&mut out, items[i].clone());
        assert(views(items@.take(i + 1)) =~= views(items@.take(i as int)).push(items@[i as int]@));
        proof {
            views(items@.take(i as int)).lemma_push_to_set_commute(items@[i as int]@);
        }
        i = i + 1;
    }
    assert(items@.take(items.len() as int) =~= items@);
    out
}

} // verus!

verus! {

/// `s` holds none of the characters that end an attribute value or start
/// or end a tag: `<`, `>` and `"`.
pub open spec fn markup_safe(s: Seq<char>) -> bool {
    forall|k: int| 0 <= k < s.len() ==> #[trigger] s[k] != '<' && s[k] != '>' && s[k] != '"'
}

proof fn lemma_markup_safe_concat(a: Seq<char>, b: Seq<char>)
    requires
        markup_safe(a),
        markup_safe(b),
    ensures
        markup_safe(a + b),
{
    assert forall|k: int| 0 <= k < (a + b).len() implies #[trigger] (a + b)[k] != '<' && (a
        + b)[k] != '>' && (a + b)[k] != '"' by {
        if k < a.len() {
            assert((a + b)[k] == a[k]);
        } else {
            assert((a + b)[k] == b[k - a.len()]);
        }
    }
}

proof fn lemma_entities_safe()
    ensures
        markup_safe("&amp;"@),
        markup_safe("&lt;"@),
        markup_safe("&gt;"@),
        markup_safe("&quot;"@),
        markup_safe("&#39;"@),
{
    reveal_strlit("&amp;");
    reveal_strlit("&lt;");
    reveal_strlit("&gt;");
    reveal_strlit("&quot;");
    reveal_strlit("&#39;");
}

/// Escaped text never holds `<`, `>` or `"`: whatever it is given, it
/// cannot open or close a tag or leave an attribute value.
pub proof fn lemma_html_escaped_safe(s: Seq<char>)
    ensures
        markup_safe(html_escaped(s)),
    decreases s.len(),
{
    if s.len() > 0 {
        lemma_html_escaped_safe(s.drop_last());
        lemma_entities_safe();
        let c = s.last();
        if c != '&' && c != '<' && c != '>' && c != '"' {
            assert(markup_safe(seq![c]));
        }
        lemma_markup_safe_concat(html_escaped(s.drop_last()), html_escape_char(c));
    }
}

/// The same holds of attribute escaping, which in addition leaves no `'`.
pub proof fn lemma_attr_escaped_safe(s: Seq<char>)
    ensures
        markup_safe(attr_escaped(s)),
        forall|k: int| 0 <= k < attr_escaped(s).len() ==> #[trigger] attr_escaped(s)[k] != '\'',
    decreases s.len(),
{
    if s.len() > 0 {
        lemma_attr_escaped_safe(s.drop_last());
        lemma_entities_safe();
        reveal_strlit("&amp;");
        reveal_strlit("&lt;");
        reveal_strlit("&gt;");
        reveal_strlit("&quot;");
        reveal_strlit("&#39;");
        let c = s.last();
        let a = attr_escaped(s.drop_last());
        let b = attr_escape_char(c);
        if c != '&' && c != '<' && c != '>' && c != '"' && c != '\'' {
            assert(markup_safe(seq![c]));
        }
        lemma_markup_safe_concat(a, b);
        assert forall|k: int| 0 <= k < (a + b).len() implies #[trigger] (a + b)[k] != '\'' by {
            if k < a.len() {
                assert((a + b)[k] == a[k]);
            } else {
                assert((a + b)[k] == b[k - a.len()]);
            }
        }
    }
}

/// Text without `&`, `<`, `>` and `"` is left as it is by escaping.
pub proof fn lemma_html_escape_plain(s: Seq<char>)
    requires
        forall|k: int|
            0 <= k < s.len() ==> #[trigger] s[k] != '&' && s[k] != '<' && s[k] != '>' && s[k]
                != '"',
    ensures
        html_escaped(s) == s,
    decreases s.len(),
{
    if s.len() > 0 {
        lemma_html_escape_plain(s.drop_last());
        assert(s.drop_last().push(s.last()) =~= s);
    } else {
        assert(s =~= Seq::<char>::empty());
    }
}

} // verus!

verus! {

// ---------------------------------------------------------------------------
// Facts about splitting and trimming
// ---------------------------------------------------------------------------

/// `s` holds no `c`.
pub open spec fn lacks(s: Seq<char>, c: char) -> bool {
    forall|k: int| 0 <= k < s.len() ==> s[k] != c
}

/// A text without `c` has no last `c`.
pub proof fn lemma_last_index_of_absent(s: Seq<char>, c: char)
    requires
        lacks(s, c),
    ensures
        last_index_of(s, c) == -1,
{
    lemma_last_index_of_bounds(s, c);
}

/// The last `c` of `a + b` lies in `b` when `b` holds one, else in `a`.
pub proof fn lemma_last_index_of_concat(a: Seq<char>, b: Seq<char>, c: char)
    ensures
        last_index_of(a + b, c) == (if last_index_of(b, c) >= 0 {
            a.len() + last_index_of(b, c)
        } else {
            last_index_of(a, c)
        }),
    decreases b.len(),
{
    let s = a + b;
    if b.len() == 0 {
        assert(s =~= a);
    } else if b.last() == c {
        assert(s.last() == c);
    } else {
        assert(s.last() == b.last());
        assert(s.drop_last() =~= a + b.drop_last());
        lemma_last_index_of_concat(a, b.drop_last(), c);
    }
}

/// Splitting at a separator splits the two sides independently.
pub proof fn lemma_split_concat(x: Seq<char>, y: Seq<char>, c: char)
    ensures
        split_on(x + seq![c] + y, c) == split_on(x, c) + split_on(y, c),
    decreases y.len(),
{
    let s = x + seq![c] + y;
    let xc = x + seq![c];
    assert(s =~= xc + y);
    lemma_last_index_of_concat(xc, y, c);
    lemma_last_index_of_bounds(y, c);
    lemma_last_index_of_bounds(s, c);
    assert(xc.last() == c);
    assert(last_index_of(xc, c) == x.len());
    let j = last_index_of(y, c);
    if j < 0 {
        assert(s.take(x.len() as int) =~= x);
        assert(s.skip(x.len() as int + 1) =~= y);
        assert(split_on(x, c).push(y) =~= split_on(x, c) + seq![y]);
    } else {
        let i = x.len() + 1 + j;
        assert(s.take(i) =~= x + seq![c] + y.take(j));
        assert(s.skip(i + 1) =~= y.skip(j + 1));
        lemma_split_concat(x, y.take(j), c);
        assert((split_on(x, c) + split_on(y.take(j), c)).push(y.skip(j + 1)) =~= split_on(x, c)
            + split_on(y.take(j), c).push(y.skip(j + 1)));
    }
}

/// No piece of a split holds the separator.
pub proof fn lemma_split_pieces_lack(s: Seq<char>, c: char)
    ensures
        forall|i: int| 0 <= i < split_on(s, c).len() ==> lacks(#[trigger] split_on(s, c)[i], c),
    decreases s.len(),
{
    lemma_last_index_of_bounds(s, c);
    let j = last_index_of(s, c);
    if j >= 0 {
        lemma_split_pieces_lack(s.take(j), c);
        let tail = s.skip(j + 1);
        assert forall|k: int| 0 <= k < tail.len() implies tail[k] != c by {
            assert(tail[k] == s[j + 1 + k]);
        }
        let pieces = split_on(s, c);
        assert(pieces == split_on(s.take(j), c).push(tail));
        assert forall|i: int| 0 <= i < pieces.len() implies lacks(#[trigger] pieces[i], c) by {
            if i < pieces.len() - 1 {
                assert(pieces[i] == split_on(s.take(j), c)[i]);
            }
        }
    } else {
        assert(split_on(s, c) == seq![s]);
        assert(lacks(s, c));
    }
}

proof fn lemma_trim_start_lacks(s: Seq<char>, c: char)
    requires
        lacks(s, c),
    ensures
        lacks(trim_start(s), c),
    decreases s.len(),
{
    if s.len() > 0 && char_is_whitespace(s[0]) {
        let t = s.drop_first();
        assert forall|k: int| 0 <= k < t.len() implies t[k] != c by {
            assert(t[k] == s[k + 1]);
        }
        lemma_trim_start_lacks(t, c);
    }
}

proof fn lemma_trim_end_lacks(s: Seq<char>, c: char)
    requires
        lacks(s, c),
    ensures
        lacks(trim_end(s), c),
    decreases s.len(),
{
    if s.len() > 0 && char_is_whitespace(s.last()) {
        let t = s.drop_last();
        assert forall|k: int| 0 <= k < t.len() implies t[k] != c by {
            assert(t[k] == s[k]);
        }
        lemma_trim_end_lacks(t, c);
    }
}

/// Trimming adds no character.
pub proof fn lemma_trim_lacks(s: Seq<char>, c: char)
    requires
        lacks(s, c),
    ensures
        lacks(trim(s), c),
{
    lemma_trim_start_lacks(s, c);
    lemma_trim_end_lacks(trim_start(s), c);
}

/// A text that neither starts nor ends with whitespace is its own trim.
pub proof fn lemma_trim_fixed(t: Seq<char>)
    requires
        t.len() > 0,
        !char_is_whitespace(t[0]),
        !char_is_whitespace(t.last()),
    ensures
        trim(t) == t,
{
}

proof fn lemma_trim_start_edge(s: Seq<char>)
    ensures
        trim_start(s).len() == 0 || !char_is_whitespace(trim_start(s)[0]),
    decreases s.len(),
{
    if s.len() > 0 && char_is_whitespace(s[0]) {
        lemma_trim_start_edge(s.drop_first());
    }
}

proof fn lemma_trim_end_edges(s: Seq<char>)
    requires
        s.len() == 0 || !char_is_whitespace(s[0]),
    ensures
        trim_end(s).len() == 0 || (!char_is_whitespace(trim_end(s)[0]) && !char_is_whitespace(
            trim_end(s).last(),
        )),
    decreases s.len(),
{
    if s.len() > 0 && char_is_whitespace(s.last()) {
        let t = s.drop_last();
        if t.len() > 0 {
            assert(t[0] == s[0]);
        }
        lemma_trim_end_edges(t);
    }
}

/// Trimming twice is trimming once.
pub proof fn lemma_trim_trim(s: Seq<char>)
    ensures
        trim(trim(s)) == trim(s),
{
    lemma_trim_start_edge(s);
    lemma_trim_end_edges(trim_start(s));
    if trim(s).len() > 0 {
        lemma_trim_fixed(trim(s));
    }
}

/// A leading space does not change the trimmed text.
pub proof fn lemma_trim_space_prefix(p: Seq<char>)
    ensures
        trim(seq![' '] + p) == trim(p),
{
    let s = seq![' '] + p;
    assert(s[0] == ' ');
    assert(char_is_whitespace(' '));
    assert(s.drop_first() =~= p);
}

/// The decimal digits of a number hold no `c` other than a digit.
pub proof fn lemma_dec_lacks(n: nat, c: char)
    requires
        !is_digit(c),
    ensures
        lacks(dec(n), c),
    decreases n,
{
    if n >= 10 {
        lemma_dec_lacks(n / 10, c);
        lemma_digit_char_value(n % 10);
    } else {
        lemma_digit_char_value(n);
    }
}

} // verus!

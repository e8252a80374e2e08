//! Character-level helpers shared by the parsers and renderers.
//!
//! Strings are handled as sequences of `char`: `chars_of` turns a `&str`
//! into a vector whose view is the string's view, the parsers work on that
//! vector, and `string_of` builds the `String` a caller gets back.

use vstd::prelude::*;
use vstd::std_specs::iter::IteratorSpec;
verus! {

// ─── Specifications ───────────────────────────────────────────────────────

/// Unicode `White_Space`, the set `char::is_whitespace` and `str::trim` use.
pub open spec fn is_ws(c: char) -> bool {
    let u = c as u32;
    ||| (0x09 <= u && u <= 0x0d)
    ||| u == 0x20
    ||| u == 0x85
    ||| u == 0xa0
    ||| u == 0x1680
    ||| (0x2000 <= u && u <= 0x200a)
    ||| u == 0x2028
    ||| u == 0x2029
    ||| u == 0x202f
    ||| u == 0x205f
    ||| u == 0x3000
}

/// `s` with leading whitespace removed.
pub open spec fn trim_start(s: Seq<char>) -> Seq<char>
    decreases s.len(),
{
    if s.len() > 0 && is_ws(s[0]) {
        trim_start(s.drop_first())
    } else {
        s
    }
}

/// `s` with trailing whitespace removed.
pub open spec fn trim_end(s: Seq<char>) -> Seq<char>
    decreases s.len(),
{
    if s.len() > 0 && is_ws(s.last()) {
        trim_end(s.drop_last())
    } else {
        s
    }
}

/// `s` with whitespace removed at both ends, as `str::trim` does.
pub open spec fn trim(s: Seq<char>) -> Seq<char> {
    trim_end(trim_start(s))
}

/// ASCII decimal digit.
pub open spec fn is_digit(c: char) -> bool {
    '0' <= c && c <= '9'
}

/// ASCII letter.
pub open spec fn is_alpha(c: char) -> bool {
    ('a' <= c && c <= 'z') || ('A' <= c && c <= 'Z')
}

/// ASCII hexadecimal digit, either case.
pub open spec fn is_hex_digit(c: char) -> bool {
    is_digit(c) || ('a' <= c && c <= 'f') || ('A' <= c && c <= 'F')
}

/// The value of an ASCII digit.
pub open spec fn digit_value(c: char) -> nat {
    (c as u32 - '0' as u32) as nat
}

/// The character of a digit value below ten.
pub open spec fn digit_char(d: nat) -> char
    recommends
        d < 10,
{
    (('0' as u32) + d) as char
}

/// The decimal rendering of a natural number, without leading zeros.
pub open spec fn decimal(n: nat) -> Seq<char>
    decreases n,
{
    if n < 10 {
        seq![digit_char(n)]
    } else {
        decimal(n / 10).push(digit_char(n % 10))
    }
}

/// The decimal rendering of an integer, with a `-` for negative values.
pub open spec fn signed_decimal(n: int) -> Seq<char> {
    if n < 0 {
        seq!['-'] + decimal((-n) as nat)
    } else {
        decimal(n as nat)
    }
}

/// Whether every character of `s` is an ASCII digit.
pub open spec fn all_digits(s: Seq<char>) -> bool {
    forall|i: int| 0 <= i < s.len() ==> is_digit(#[trigger] s[i])
}

/// The value of a string of ASCII digits.
pub open spec fn digits_value(s: Seq<char>) -> nat
    decreases s.len(),
{
    if s.len() == 0 {
        0
    } else {
        digits_value(s.drop_last()) * 10 + digit_value(s.last())
    }
}

/// What `str::parse::<u32>` gives: an optional `+`, then at least one ASCII
/// digit, with a value that fits in 32 bits.
pub open spec fn parse_u32_spec(s: Seq<char>) -> Option<u32> {
    let body = if s.len() > 0 && s[0] == '+' { s.drop_first() } else { s };
    if body.len() > 0 && all_digits(body) && digits_value(body) <= u32::MAX {
        Some(digits_value(body) as u32)
    } else {
        None
    }
}

/// Whether `s` begins with `prefix`.
pub open spec fn starts_with(s: Seq<char>, prefix: Seq<char>) -> bool {
    prefix.len() <= s.len() && s.subrange(0, prefix.len() as int) == prefix
}

/// Whether `s` ends with `suffix`.
pub open spec fn ends_with(s: Seq<char>, suffix: Seq<char>) -> bool {
    suffix.len() <= s.len() && s.subrange(s.len() - suffix.len(), s.len() as int) == suffix
}

/// Whether `needle` occurs in `s` at position `i`.
pub open spec fn occurs_at(s: Seq<char>, needle: Seq<char>, i: int) -> bool {
    0 <= i && i + needle.len() <= s.len() && s.subrange(i, i + needle.len()) == needle
}

/// Whether `needle` occurs anywhere in `s`.
pub open spec fn contains_seq(s: Seq<char>, needle: Seq<char>) -> bool {
    exists|i: int| occurs_at(s, needle, i)
}

// ─── Conversions ──────────────────────────────────────────────────────────

/// The characters of a string slice, in order.
pub fn chars_of(s: &str) -> (out: Vec<char>)
    ensures
        out@ == s@,
{
    let mut out: Vec<char> = Vec::new();
    let mut it = s.chars();
    proof {
        broadcast use vstd::string::group_string_axioms;
    }
    loop
        invariant
            out@ + it.remaining() == s@,
            it.decrease() is Some,
        ensures
            out@ == s@,
        decreases it.decrease()->0,
    {
        proof {
            broadcast use vstd::string::group_string_axioms;
        }
        match it.next() {
            Some(c) => {
                out.push(c);
            },
            None => {
                break ;
            },
        }
    }
    out
}

/// Append one character to a string (`String::push`).
#[verifier::external_body]
pub(crate) fn push_char(s: &mut String, c: char)
    ensures
        final(s)@ == old(s)@.push(c),
{
    s.push(c);
}

/// Append a string slice (`String::push_str`).
#[verifier::external_body]
pub(crate) fn push_str(s: &mut String, t: &str)
    ensures
        final(s)@ == old(s)@ + t@,
{
    s.push_str(t);
}

/// Append a sequence of characters.
pub fn push_chars(s: &mut String, v: &[char])
    ensures
        final(s)@ == old(s)@ + v@,
{
    let ghost start = s@;
    let mut i: usize = 0;
    while i < v.len()
        invariant
            i <= v@.len(),
            s@ == start + v@.subrange(0, i as int),
        decreases v@.len() - i,
    {
        push_char(s, v[i]);
        i = i + 1;
        proof {
            assert(v@.subrange(0, i as int) == v@.subrange(0, i - 1 as int).push(v@[i - 1]));
        }
    }
    proof {
        assert(v@.subrange(0, v@.len() as int) == v@);
    }
}

/// A `String` holding exactly the given characters.
pub fn string_of(v: &[char]) -> (out: String)
    ensures
        out@ == v@,
{
    let mut out = String::new();
    push_chars(&mut out, v);
    out
}

/// A copy of a string slice as a `String`.
pub fn owned(s: &str) -> (out: String)
    ensures
        out@ == s@,
{
    s.to_owned()
}

// ─── Scanning ─────────────────────────────────────────────────────────────

/// The index of the first character of `v[from..]` that is not whitespace,
/// or `v.len()` when there is none.
pub fn skip_ws_forward(v: &[char], from: usize) -> (i: usize)
    requires
        from <= v@.len(),
    ensures
        from <= i <= v@.len(),
        forall|j: int| from <= j < i ==> is_ws(#[trigger] v@[j]),
        i < v@.len() ==> !is_ws(v@[i as int]),
{
    let mut i = from;
    while i < v.len() && is_ws_exec(v[i])
        invariant
            from <= i <= v@.len(),
            forall|j: int| from <= j < i ==> is_ws(#[trigger] v@[j]),
        decreases v@.len() - i,
    {
        i = i + 1;
    }
    i
}

/// Executable `is_ws`.
pub fn is_ws_exec(c: char) -> (b: bool)
    ensures
        b == is_ws(c),
{
    let u = c as u32;
    (0x09 <= u && u <= 0x0d) || u == 0x20 || u == 0x85 || u == 0xa0 || u == 0x1680 || (0x2000
        <= u && u <= 0x200a) || u == 0x2028 || u == 0x2029 || u == 0x202f || u == 0x205f || u
        == 0x3000
}

proof fn lemma_trim_start_skip(s: Seq<char>, k: int)
    requires
        0 <= k <= s.len(),
        forall|j: int| 0 <= j < k ==> is_ws(#[trigger] s[j]),
    ensures
        trim_start(s) == trim_start(s.skip(k)),
    decreases k,
{
    if k > 0 {
        assert(is_ws(s[0]));
        assert(s.drop_first().skip(k - 1) == s.skip(k));
        lemma_trim_start_skip(s.drop_first(), k - 1);
    } else {
        assert(s.skip(0) == s);
    }
}

proof fn lemma_trim_end_take(s: Seq<char>, k: int)
    requires
        0 <= k <= s.len(),
        forall|j: int| k <= j < s.len() ==> is_ws(#[trigger] s[j]),
    ensures
        trim_end(s) == trim_end(s.take(k)),
    decreases s.len() - k,
{
    if k < s.len() {
        assert(is_ws(s.last()));
        assert(s.drop_last().take(k) == s.take(k));
        lemma_trim_end_take(s.drop_last(), k);
    } else {
        assert(s.take(s.len() as int) == s);
    }
}

/// Trimming the start drops a prefix, and what is left does not start with
/// whitespace.
pub proof fn lemma_trim_start_shape(s: Seq<char>)
    ensures
        exists|k: int| 0 <= k <= s.len() && trim_start(s) == s.skip(k),
        trim_start(s).len() > 0 ==> !is_ws(trim_start(s)[0]),
    decreases s.len(),
{
    if s.len() > 0 && is_ws(s[0]) {
        lemma_trim_start_shape(s.drop_first());
        let k = choose|k: int| 0 <= k <= s.drop_first().len() && trim_start(s.drop_first()) == s.drop_first().skip(k);
        assert(s.drop_first().skip(k) =~= s.skip(k + 1));
    } else {
        assert(s.skip(0) =~= s);
    }
}

/// Trimming the end keeps a prefix, and what is left does not end with
/// whitespace.
pub proof fn lemma_trim_end_shape(s: Seq<char>)
    ensures
        exists|k: int| 0 <= k <= s.len() && trim_end(s) == s.take(k),
        trim_end(s).len() > 0 ==> !is_ws(trim_end(s).last()),
    decreases s.len(),
{
    if s.len() > 0 && is_ws(s.last()) {
        lemma_trim_end_shape(s.drop_last());
        let k = choose|k: int| 0 <= k <= s.drop_last().len() && trim_end(s.drop_last()) == s.drop_last().take(k);
        assert(s.drop_last().take(k) =~= s.take(k));
    } else {
        assert(s.take(s.len() as int) =~= s);
    }
}

/// The trimmed text is a stretch of the text: every character of it is a
/// character of the text.
pub proof fn lemma_trim_within(s: Seq<char>)
    ensures
        forall|i: int| 0 <= i < trim(s).len() ==> s.contains(#[trigger] trim(s)[i]),
{
    lemma_trim_start_shape(s);
    let a = choose|k: int| 0 <= k <= s.len() && trim_start(s) == s.skip(k);
    let t = trim_start(s);
    lemma_trim_end_shape(t);
    let b = choose|k: int| 0 <= k <= t.len() && trim_end(t) == t.take(k);
    assert forall|i: int| 0 <= i < trim(s).len() implies s.contains(#[trigger] trim(s)[i]) by {
        assert(trim(s)[i] == s[a + i]);
    }
}

/// A text that neither starts nor ends with whitespace is its own trim.
pub proof fn lemma_trim_no_ws_ends(s: Seq<char>)
    requires
        s.len() > 0 ==> !is_ws(s[0]) && !is_ws(s.last()),
    ensures
        trim(s) == s,
{
}

/// Trimming twice is trimming once.
pub proof fn lemma_trim_idempotent(s: Seq<char>)
    ensures
        trim(trim(s)) == trim(s),
{
    let y = trim_start(s);
    lemma_trim_start_shape(s);
    let z = trim_end(y);
    lemma_trim_end_shape(y);
    let k = choose|k: int| 0 <= k <= y.len() && trim_end(y) == y.take(k);
    // `z` does not start with whitespace: it is a prefix of `y`.
    if z.len() > 0 {
        assert(z[0] == y[0]);
        assert(trim_start(z) == z);
    } else {
        assert(trim_start(z) == z);
    }
    // `z` does not end with whitespace.
    if z.len() > 0 {
        assert(!is_ws(z.last()));
    }
    assert(trim_end(z) == z);
}

/// The bounds `[start, end)` of the trimmed part of `v`.
pub fn trim_bounds(v: &[char]) -> (r: (usize, usize))
    ensures
        r.0 <= r.1 <= v@.len(),
        v@.subrange(r.0 as int, r.1 as int) == trim(v@),
{
    let start = skip_ws_forward(v, 0);
    let mut end = v.len();
    while end > start && is_ws_exec(v[end - 1])
        invariant
            start <= end <= v@.len(),
            forall|j: int| end <= j < v@.len() ==> is_ws(#[trigger] v@[j]),
        decreases end,
    {
        end = end - 1;
    }
    proof {
        lemma_trim_start_skip(v@, start as int);
        let t = v@.skip(start as int);
        if start < v@.len() {
            assert(!is_ws(t[0]));
        }
        assert(trim_start(t) == t);
        assert forall|j: int| end - start <= j < t.len() implies is_ws(#[trigger] t[j]) by {
            assert(t[j] == v@[start + j]);
        }
        lemma_trim_end_take(t, end - start);
        let u = t.take(end - start);
        if end > start {
            assert(u.last() == v@[end - 1]);
        }
        assert(trim_end(u) == u);
        assert(u == v@.subrange(start as int, end as int));
    }
    (start, end)
}

/// `s` trimmed of whitespace at both ends, as characters.
pub fn trimmed_chars(s: &str) -> (out: Vec<char>)
    ensures
        out@ == trim(s@),
{
    let v = chars_of(s);
    let (a, b) = trim_bounds(v.as_slice());
    slice_range(v.as_slice(), a, b)
}

/// A copy of `v[from..to]`.
pub fn slice_range(v: &[char], from: usize, to: usize) -> (out: Vec<char>)
    requires
        from <= to <= v@.len(),
    ensures
        out@ == v@.subrange(from as int, to as int),
{
    let mut out: Vec<char> = Vec::new();
    let mut i = from;
    while i < to
        invariant
            from <= i <= to <= v@.len(),
            out@ == v@.subrange(from as int, i as int),
        decreases to - i,
    {
        out.push(v[i]);
        i = i + 1;
    }
    out
}

/// Whether two character slices are equal.
pub fn chars_eq(a: &[char], b: &[char]) -> (r: bool)
    ensures
        r == (a@ == b@),
{
    if a.len() != b.len() {
        return false;
    }
    let mut i: usize = 0;
    while i < a.len()
        invariant
            a@.len() == b@.len(),
            i <= a@.len(),
            forall|j: int| 0 <= j < i ==> a@[j] == b@[j],
        decreases a@.len() - i,
    {
        if a[i] != b[i] {
            return false;
        }
        i = i + 1;
    }
    proof {
        assert(a@ =~= b@);
    }
    true
}

/// Whether `needle` occurs in `s` at `i`.
pub fn occurs_at_exec(s: &[char], needle: &[char], i: usize) -> (r: bool)
    ensures
        r == occurs_at(s@, needle@, i as int),
{
    if i > s.len() || needle.len() > s.len() - i {
        return false;
    }
    let mut k: usize = 0;
    while k < needle.len()
        invariant
            i + needle@.len() <= s@.len(),
            s@.len() <= usize::MAX,
            k <= needle@.len(),
            forall|j: int| 0 <= j < k ==> s@[i + j] == needle@[j],
        decreases needle@.len() - k,
    {
        if s[i + k] != needle[k] {
            proof {
                assert(s@.subrange(i as int, i + needle@.len())[k as int] != needle@[k as int]);
            }
            return false;
        }
        k = k + 1;
    }
    proof {
        assert(s@.subrange(i as int, i + needle@.len()) =~= needle@);
    }
    true
}

/// Whether `s` begins with `prefix`.
pub fn starts_with_exec(s: &[char], prefix: &[char]) -> (r: bool)
    ensures
        r == starts_with(s@, prefix@),
{
    occurs_at_exec(s, prefix, 0)
}

/// Whether `s` ends with `suffix`.
pub fn ends_with_exec(s: &[char], suffix: &[char]) -> (r: bool)
    ensures
        r == ends_with(s@, suffix@),
{
    if suffix.len() > s.len() {
        return false;
    }
    occurs_at_exec(s, suffix, s.len() - suffix.len())
}

/// Whether `needle` occurs anywhere in `s`.
pub fn contains_exec(s: &[char], needle: &[char]) -> (r: bool)
    ensures
        r == contains_seq(s@, needle@),
{
    if needle.len() == 0 {
        proof {
            assert(s@.subrange(0, 0) =~= needle@);
            assert(occurs_at(s@, needle@, 0));
        }
        return true;
    }
    let mut i: usize = 0;
    while i < s.len()
        invariant
            i <= s@.len(),
            needle@.len() >= 1,
            forall|j: int| 0 <= j < i ==> !occurs_at(s@, needle@, j),
        decreases s@.len() - i,
    {
        if occurs_at_exec(s, needle, i) {
            return true;
        }
        i = i + 1;
    }
    false
}

// ─── Numbers ──────────────────────────────────────────────────────────────

proof fn lemma_decimal_nonempty(n: nat)
    ensures
        decimal(n).len() >= 1,
    decreases n,
{
    if n >= 10 {
        lemma_decimal_nonempty(n / 10);
    }
}

/// The decimal rendering of `n`, as characters.
pub fn decimal_chars(n: u64) -> (out: Vec<char>)
    ensures
        out@ == decimal(n as nat),
    decreases n,
{
    if n < 10 {
        let c = char_of_digit(n as u8);
        let mut out: Vec<char> = Vec::new();
        out.push(c);
        proof {
            assert(out@ =~= seq![digit_char(n as nat)]);
        }
        out
    } else {
        let mut out = decimal_chars(n / 10);
        out.push(char_of_digit((n % 10) as u8));
        out
    }
}

/// The character of a digit value.
pub fn char_of_digit(d: u8) -> (c: char)
    requires
        d < 10,
    ensures
        c == digit_char(d as nat),
        is_digit(c),
{
    match d {
        0 => '0',
        1 => '1',
        2 => '2',
        3 => '3',
        4 => '4',
        5 => '5',
        6 => '6',
        7 => '7',
        8 => '8',
        _ => '9',
    }
}

/// Append the decimal rendering of `n`.
pub fn push_decimal(s: &mut String, n: u64)
    ensures
        final(s)@ == old(s)@ + decimal(n as nat),
{
    let v = decimal_chars(n);
    push_chars(s, v.as_slice());
}

/// Append the decimal rendering of a signed integer.
pub fn push_signed_decimal(s: &mut String, n: i64)
    ensures
        final(s)@ == old(s)@ + signed_decimal(n as int),
{
    if n < 0 {
        push_char(s, '-');
        let m: u64 = if n == i64::MIN {
            9223372036854775808u64
        } else {
            (-n) as u64
        };
        let v = decimal_chars(m);
        push_chars(s, v.as_slice());
        proof {
            assert(s@ =~= old(s)@ + (seq!['-'] + decimal((-n) as nat)));
        }
    } else {
        push_decimal(s, n as u64);
    }
}

/// Parse a string the way `str::parse::<u32>` does.
pub fn parse_u32(s: &[char]) -> (r: Option<u32>)
    ensures
        r == parse_u32_spec(s@),
{
    let start: usize = if s.len() > 0 && s[0] == '+' { 1 } else { 0 };
    let ghost body = if s@.len() > 0 && s@[0] == '+' { s@.drop_first() } else { s@ };
    proof {
        assert(body =~= s@.skip(start as int));
    }
    if start >= s.len() {
        return None;
    }
    let mut value: u64 = 0;
    let mut i = start;
    while i < s.len()
        invariant
            start <= i <= s@.len(),
            body == s@.skip(start as int),
            body == (if s@.len() > 0 && s@[0] == '+' { s@.drop_first() } else { s@ }),
            all_digits(body.take(i - start)),
            value == digits_value(body.take(i - start)),
            value <= u32::MAX,
        decreases s@.len() - i,
    {
        let c = s[i];
        if !('0' <= c && c <= '9') {
            proof {
                assert(body[i - start] == c);
                assert(!is_digit(body[i - start]));
                assert(!all_digits(body));
                assert(parse_u32_spec(s@) is None);
            }
            return None;
        }
        let d = (c as u32 - '0' as u32) as u64;
        let next = value * 10 + d;
        proof {
            let t = body.take(i + 1 - start);
            assert(t.drop_last() == body.take(i - start));
            assert(t.last() == c);
            assert(all_digits(t));
            assert(digit_value(c) == d);
            assert(digits_value(t) == digits_value(body.take(i - start)) * 10 + digit_value(c));
            assert(digits_value(t) == next);
        }
        if next > 4294967295u64 {
            proof {
                lemma_digits_value_monotone(body, (i + 1 - start) as int);
            }
            return None;
        }
        value = next;
        i = i + 1;
    }
    proof {
        assert(body.take(body.len() as int) == body);
    }
    Some(value as u32)
}

/// What `str::parse::<i32>` gives: an optional `+` or `-`, then at least one
/// ASCII digit, with a value that fits in 32 signed bits.
pub open spec fn parse_i32_spec(s: Seq<char>) -> Option<i32> {
    let neg = s.len() > 0 && s[0] == '-';
    let body = if s.len() > 0 && (s[0] == '+' || s[0] == '-') { s.drop_first() } else { s };
    if body.len() > 0 && all_digits(body) {
        if neg && digits_value(body) <= 2147483648 {
            Some((0 - digits_value(body)) as i32)
        } else if !neg && digits_value(body) <= 2147483647 {
            Some(digits_value(body) as i32)
        } else {
            None
        }
    } else {
        None
    }
}

/// Parse a string the way `str::parse::<i32>` does.
pub fn parse_i32(s: &str) -> (r: Option<i32>)
    ensures
        r == parse_i32_spec(s@),
{
    let v = chars_of(s);
    let neg = v.len() > 0 && v[0] == '-';
    let start: usize = if v.len() > 0 && (v[0] == '+' || v[0] == '-') { 1 } else { 0 };
    let ghost body = if v@.len() > 0 && (v@[0] == '+' || v@[0] == '-') { v@.drop_first() } else { v@ };
    let limit: u64 = if neg { 2147483648 } else { 2147483647 };
    proof {
        assert(body =~= v@.skip(start as int));
    }
    if start >= v.len() {
        return None;
    }
    let mut value: u64 = 0;
    let mut i = start;
    while i < v.len()
        invariant
            start <= i <= v@.len(),
            v@ == s@,
            body == v@.skip(start as int),
            body == (if v@.len() > 0 && (v@[0] == '+' || v@[0] == '-') { v@.drop_first() } else { v@ }),
            all_digits(body.take(i - start)),
            value == digits_value(body.take(i - start)),
            value <= limit,
            neg == (v@.len() > 0 && v@[0] == '-'),
            limit == (if neg { 2147483648u64 } else { 2147483647u64 }),
        decreases v@.len() - i,
    {
        let c = v[i];
        if !('0' <= c && c <= '9') {
            proof {
                assert(body[i - start] == c);
                assert(!is_digit(body[i - start]));
                assert(!all_digits(body));
            }
            return None;
        }
        let d = (c as u32 - '0' as u32) as u64;
        let next = value * 10 + d;
        proof {
            let t = body.take(i + 1 - start);
            assert(t.drop_last() == body.take(i - start));
            assert(t.last() == c);
            assert(all_digits(t));
            assert(digit_value(c) == d);
            assert(digits_value(t) == digits_value(body.take(i - start)) * 10 + digit_value(c));
            assert(digits_value(t) == next);
        }
        if next > limit {
            proof {
                if all_digits(body) {
                    lemma_digits_value_prefix(body, (i + 1 - start) as int);
                }
            }
            return None;
        }
        value = next;
        i = i + 1;
    }
    proof {
        assert(body.take(body.len() as int) == body);
    }
    if neg {
        if value == 2147483648 {
            Some(-2147483648i32)
        } else {
            Some(0 - (value as i32))
        }
    } else {
        Some(value as i32)
    }
}

proof fn lemma_digits_value_prefix(s: Seq<char>, k: int)
    requires
        0 <= k <= s.len(),
        all_digits(s),
    ensures
        digits_value(s.take(k)) <= digits_value(s),
    decreases s.len() - k,
{
    if k < s.len() {
        let t = s.drop_last();
        assert(t.take(k) == s.take(k));
        assert(all_digits(t));
        lemma_digits_value_prefix(t, k);
        assert(digits_value(s) == digits_value(t) * 10 + digit_value(s.last()));
    } else {
        assert(s.take(k) == s);
    }
}

proof fn lemma_digits_value_monotone(s: Seq<char>, k: int)
    requires
        0 <= k <= s.len(),
        all_digits(s.take(k)),
        digits_value(s.take(k)) > u32::MAX,
    ensures
        !(all_digits(s) && digits_value(s) <= u32::MAX),
{
    if all_digits(s) {
        lemma_digits_value_prefix(s, k);
    }
}

} // verus!

verus! {

// ─── Facts about the decimal rendering ───────────────────────────────────

/// A decimal rendering is a non-empty string of digits whose value is the
/// number rendered.
pub proof fn lemma_decimal_digits(n: nat)
    ensures
        decimal(n).len() >= 1,
        all_digits(decimal(n)),
        digits_value(decimal(n)) == n,
    decreases n,
{
    if n < 10 {
        let d = decimal(n);
        assert(d.drop_last() =~= Seq::<char>::empty());
        assert(digit_value(digit_char(n)) == n);
        assert(digits_value(d) == digits_value(d.drop_last()) * 10 + digit_value(d.last()));
    } else {
        lemma_decimal_digits(n / 10);
        let d = decimal(n);
        assert(d.drop_last() =~= decimal(n / 10));
        assert(d.last() == digit_char(n % 10));
        assert(digit_value(digit_char(n % 10)) == n % 10);
        assert(digits_value(d) == digits_value(decimal(n / 10)) * 10 + digit_value(d.last()));
        assert((n / 10) * 10 + n % 10 == n);
        assert(all_digits(d)) by {
            assert forall|i: int| 0 <= i < d.len() implies is_digit(#[trigger] d[i]) by {
                if i < d.len() - 1 {
                    assert(d[i] == decimal(n / 10)[i]);
                }
            }
        }
    }
}

/// `str::parse::<u32>` reads back what `decimal` wrote.
pub proof fn lemma_parse_decimal(n: u32)
    ensures
        parse_u32_spec(decimal(n as nat)) == Some(n),
{
    lemma_decimal_digits(n as nat);
    let d = decimal(n as nat);
    assert(is_digit(d[0]));
}

} // verus!

verus! {

/// Whether two string slices hold the same characters.
pub fn str_eq(a: &str, b: &str) -> (r: bool)
    ensures
        r == (a@ == b@),
{
    let av = chars_of(a);
    let bv = chars_of(b);
    chars_eq(av.as_slice(), bv.as_slice())
}

/// The text of an optional string, empty when absent (`unwrap_or_default`).
pub open spec fn opt_text(o: Option<String>) -> Seq<char> {
    match o {
        Some(s) => s@,
        None => Seq::empty(),
    }
}

/// A copy of an optional string.
pub fn copy_opt_string(o: &Option<String>) -> (r: Option<String>)
    ensures
        r == *o,
{
    match o {
        Some(s) => Some(s.clone()),
        None => None,
    }
}

/// The text of an optional string, as a `String` (`unwrap_or_default`).
pub fn opt_string_or_empty(o: &Option<String>) -> (r: String)
    ensures
        r@ == opt_text(*o),
{
    match o {
        Some(s) => s.clone(),
        None => String::new(),
    }
}

} // verus!

verus! {

/// `char::to_ascii_lowercase`: ASCII capitals lowered, everything else kept.
pub open spec fn ascii_lower(c: char) -> char {
    if 'A' <= c && c <= 'Z' {
        ((c as u32) + 32) as char
    } else {
        c
    }
}

/// `str::to_ascii_lowercase`, character by character.
pub open spec fn ascii_lower_seq(s: Seq<char>) -> Seq<char> {
    Seq::new(s.len(), |i: int| ascii_lower(s[i]))
}

/// Executable `ascii_lower`.
pub fn ascii_lower_char(c: char) -> (r: char)
    ensures
        r == ascii_lower(c),
{
    if 'A' <= c && c <= 'Z' {
        let b = (c as u8) + 32;
        b as char
    } else {
        c
    }
}

/// `to_ascii_lowercase` on a character vector.
pub fn ascii_lower_vec(v: &[char]) -> (out: Vec<char>)
    ensures
        out@ == ascii_lower_seq(v@),
{
    let mut out: Vec<char> = Vec::new();
    let mut i: usize = 0;
    while i < v.len()
        invariant
            i <= v@.len(),
            out@ == ascii_lower_seq(v@).take(i as int),
        decreases v@.len() - i,
    {
        out.push(ascii_lower_char(v[i]));
        i = i + 1;
        proof {
            assert(out@ =~= ascii_lower_seq(v@).take(i as int));
        }
    }
    proof {
        assert(ascii_lower_seq(v@).take(i as int) =~= ascii_lower_seq(v@));
    }
    out
}

} // verus!

verus! {

// ─── Substitution ────────────────────────────────────────────────────────

/// `str::replace(pat, with)` for a non-empty pattern: every occurrence,
/// scanning left to right without overlap, replaced.
pub open spec fn replace_all(s: Seq<char>, pat: Seq<char>, with: Seq<char>) -> Seq<char>
    decreases s.len(),
{
    if pat.len() == 0 || s.len() < pat.len() {
        s
    } else if s.subrange(0, pat.len() as int) == pat {
        with + replace_all(s.skip(pat.len() as int), pat, with)
    } else {
        seq![s[0]] + replace_all(s.drop_first(), pat, with)
    }
}

/// Replace every occurrence of a non-empty pattern.
pub fn replace_all_exec(s: &[char], pat: &[char], with: &[char]) -> (out: Vec<char>)
    requires
        pat@.len() > 0,
    ensures
        out@ == replace_all(s@, pat@, with@),
{
    let mut out: Vec<char> = Vec::new();
    let mut i: usize = 0;
    proof {
        assert(s@.skip(0) =~= s@);
    }
    while i < s.len()
        invariant
            i <= s@.len(),
            pat@.len() > 0,
            out@ + replace_all(s@.skip(i as int), pat@, with@) == replace_all(s@, pat@, with@),
        decreases s@.len() - i,
    {
        let ghost rest = s@.skip(i as int);
        if occurs_at_exec(s, pat, i) {
            proof {
                assert(rest.subrange(0, pat@.len() as int) =~= s@.subrange(i as int, i + pat@.len()));
                assert(rest.skip(pat@.len() as int) =~= s@.skip(i + pat@.len()));
            }
            let mut k: usize = 0;
            let ghost before = out@;
            while k < with.len()
                invariant
                    k <= with@.len(),
                    out@ == before + with@.take(k as int),
                decreases with@.len() - k,
            {
                out.push(with[k]);
                k = k + 1;
                proof {
                    assert(out@ =~= before + with@.take(k as int));
                }
            }
            proof {
                assert(with@.take(k as int) =~= with@);
                assert(out@ + replace_all(s@.skip(i + pat@.len()), pat@, with@) =~= before
                    + replace_all(rest, pat@, with@));
            }
            i = i + pat.len();
        } else {
            proof {
                if rest.len() >= pat@.len() {
                    assert(rest.subrange(0, pat@.len() as int) =~= s@.subrange(i as int, i + pat@.len()));
                }
                assert(rest.drop_first() =~= s@.skip(i + 1));
                assert(rest[0] == s@[i as int]);
                assert(out@.push(s@[i as int]) + replace_all(s@.skip(i + 1), pat@, with@) =~= out@
                    + replace_all(rest, pat@, with@));
            }
            out.push(s[i]);
            i = i + 1;
        }
    }
    proof {
        assert(s@.skip(i as int) =~= Seq::<char>::empty());
        assert(out@ + Seq::<char>::empty() =~= out@);
    }
    out
}

} // verus!

verus! {

// ─── Searching from the end ──────────────────────────────────────────────

/// The position of the last `c` in `s`, as `str::rsplit_once(c)` finds it.
pub open spec fn last_index(s: Seq<char>, c: char) -> Option<int>
    decreases s.len(),
{
    if s.len() == 0 {
        None
    } else if s.last() == c {
        Some(s.len() - 1)
    } else {
        last_index(s.drop_last(), c)
    }
}

/// A position found by `last_index` holds `c`, and nothing after it does.
pub proof fn lemma_last_index(s: Seq<char>, c: char)
    ensures
        match last_index(s, c) {
            Some(i) => 0 <= i < s.len() && s[i] == c && forall|k: int|
                i < k < s.len() ==> #[trigger] s[k] != c,
            None => forall|k: int| 0 <= k < s.len() ==> #[trigger] s[k] != c,
        },
    decreases s.len(),
{
    if s.len() > 0 && s.last() != c {
        lemma_last_index(s.drop_last(), c);
        assert forall|k: int| 0 <= k < s.len() - 1 implies #[trigger] s[k] == s.drop_last()[k] by {}
    }
}

/// Executable `last_index`.
pub fn last_index_exec(v: &[char], c: char) -> (r: Option<usize>)
    ensures
        match r {
            Some(i) => i < v@.len() && last_index(v@, c) == Some(i as int),
            None => last_index(v@, c) is None,
        },
{
    let mut i = v.len();
    proof {
        assert(v@.take(i as int) =~= v@);
    }
    while i > 0 && v[i - 1] != c
        invariant
            i <= v@.len(),
            last_index(v@, c) == last_index(v@.take(i as int), c),
        decreases i,
    {
        proof {
            let t = v@.take(i as int);
            assert(t.last() == v@[i - 1]);
            assert(t.drop_last() =~= v@.take(i - 1));
        }
        i = i - 1;
    }
    if i == 0 {
        proof {
            assert(v@.take(0) =~= Seq::<char>::empty());
        }
        None
    } else {
        proof {
            assert(v@.take(i as int).last() == v@[i - 1]);
        }
        Some(i - 1)
    }
}

} // verus!

verus! {

/// What `str::to_lowercase` gives for `s`: Unicode lowercase mapping,
/// independent of locale.
pub uninterp spec fn unicode_lowercase(s: Seq<char>) -> Seq<char>;

/// `str::to_lowercase`.
#[verifier::external_body]
pub(crate) fn to_lowercase(s: &str) -> (out: String)
    ensures
        out@ == unicode_lowercase(s@),
{
    s.to_lowercase()
}

} // verus!

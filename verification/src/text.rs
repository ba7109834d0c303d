//! Text primitives shared by the prompt builders, validators and parsers:
//! Unicode whitespace and trimming, character counts, UTF-8 byte lengths,
//! decimal rendering of integers, and case-insensitive word matching.
use vstd::prelude::*;

verus! {

pub assume_specification[ String::push ](s: &mut String, ch: char)
    ensures
        final(s)@ == old(s)@.push(ch),
;

pub assume_specification[ String::push_str ](s: &mut String, string: &str)
    ensures
        final(s)@ == old(s)@ + string@,
;

// ---------------------------------------------------------------------------
// Whitespace and trimming
// ---------------------------------------------------------------------------

/// The Unicode `White_Space` property, which is what `char::is_whitespace`
/// and `str::trim` test.
pub open spec fn is_ws(c: char) -> bool {
    let u = c as u32;
    ||| 0x09 <= u <= 0x0D
    ||| u == 0x20
    ||| u == 0x85
    ||| u == 0xA0
    ||| u == 0x1680
    ||| 0x2000 <= u <= 0x200A
    ||| u == 0x2028
    ||| u == 0x2029
    ||| u == 0x202F
    ||| u == 0x205F
    ||| u == 0x3000
}

/// Number of whitespace characters at the start of `s`.
pub open spec fn lead_ws(s: Seq<char>) -> nat
    decreases s.len(),
{
    if s.len() > 0 && is_ws(s[0]) {
        1 + lead_ws(s.drop_first())
    } else {
        0
    }
}

/// Number of whitespace characters at the end of `s`.
pub open spec fn trail_ws(s: Seq<char>) -> nat
    decreases s.len(),
{
    if s.len() > 0 && is_ws(s.last()) {
        1 + trail_ws(s.drop_last())
    } else {
        0
    }
}

/// `s` without leading whitespace.
pub open spec fn trim_start(s: Seq<char>) -> Seq<char> {
    s.skip(lead_ws(s) as int)
}

/// `s` without trailing whitespace.
pub open spec fn trim_end(s: Seq<char>) -> Seq<char> {
    s.take(s.len() - trail_ws(s))
}

/// `s` without leading and trailing whitespace (`str::trim`).
pub open spec fn trim(s: Seq<char>) -> Seq<char> {
    trim_end(trim_start(s))
}

/// Every character of `s` is whitespace (so `trim(s)` is empty).
pub open spec fn is_blank(s: Seq<char>) -> bool {
    forall|i: int| 0 <= i < s.len() ==> is_ws(#[trigger] s[i])
}

pub proof fn lemma_lead_ws_le(s: Seq<char>)
    ensures
        lead_ws(s) <= s.len(),
    decreases s.len(),
{
    if s.len() > 0 && is_ws(s[0]) {
        lemma_lead_ws_le(s.drop_first());
    }
}

pub proof fn lemma_trail_ws_le(s: Seq<char>)
    ensures
        trail_ws(s) <= s.len(),
    decreases s.len(),
{
    if s.len() > 0 && is_ws(s.last()) {
        lemma_trail_ws_le(s.drop_last());
    }
}

/// `lead_ws` is the index of the first non-whitespace character.
pub proof fn lemma_lead_ws_is(s: Seq<char>, i: int)
    requires
        0 <= i <= s.len(),
        forall|k: int| 0 <= k < i ==> is_ws(#[trigger] s[k]),
        i == s.len() || !is_ws(s[i]),
    ensures
        lead_ws(s) == i,
    decreases i,
{
    if i > 0 {
        let t = s.drop_first();
        assert forall|k: int| 0 <= k < i - 1 implies is_ws(#[trigger] t[k]) by {
            assert(t[k] == s[k + 1]);
        }
        assert(i - 1 == t.len() || t[i - 1] == s[i]);
        lemma_lead_ws_is(t, i - 1);
    }
}

/// `trail_ws` counts back to the last non-whitespace character.
pub proof fn lemma_trail_ws_is(s: Seq<char>, j: int)
    requires
        0 <= j <= s.len(),
        forall|k: int| j <= k < s.len() ==> is_ws(#[trigger] s[k]),
        j == 0 || !is_ws(s[j - 1]),
    ensures
        trail_ws(s) == s.len() - j,
    decreases s.len() - j,
{
    if j < s.len() {
        let t = s.drop_last();
        assert forall|k: int| j <= k < t.len() implies is_ws(#[trigger] t[k]) by {
            assert(t[k] == s[k]);
        }
        assert(j == 0 || t[j - 1] == s[j - 1]);
        lemma_trail_ws_is(t, j);
    }
}

pub proof fn lemma_trim_blank(s: Seq<char>)
    ensures
        is_blank(s) <==> trim(s).len() == 0,
{
    lemma_first_non_ws(s);
    let a = first_non_ws(s);
    lemma_lead_ws_is(s, a);
    let t = trim_start(s);
    if a == s.len() {
        assert(t.len() == 0);
        lemma_trail_ws_le(t);
    } else {
        assert(t[0] == s[a]);
        lemma_trail_ws_nonblank(t);
        assert(!is_blank(s)) by {
            assert(!is_ws(s[a]));
        }
    }
}

proof fn lemma_trail_ws_nonblank(t: Seq<char>)
    requires
        t.len() > 0,
        !is_ws(t[0]),
    ensures
        trail_ws(t) < t.len(),
    decreases t.len(),
{
    if is_ws(t.last()) {
        lemma_trail_ws_nonblank(t.drop_last());
    }
}

pub proof fn lemma_first_non_ws(s: Seq<char>)
    ensures
        0 <= first_non_ws(s) <= s.len(),
        forall|k: int| 0 <= k < first_non_ws(s) ==> is_ws(#[trigger] s[k]),
        first_non_ws(s) == s.len() || !is_ws(s[first_non_ws(s)]),
    decreases s.len(),
{
    if s.len() > 0 && is_ws(s[0]) {
        let t = s.drop_first();
        lemma_first_non_ws(t);
        assert forall|k: int| 0 <= k < first_non_ws(s) implies is_ws(#[trigger] s[k]) by {
            if k > 0 {
                assert(s[k] == t[k - 1]);
            }
        }
        if first_non_ws(t) < t.len() {
            assert(s[first_non_ws(s)] == t[first_non_ws(t)]);
        }
    }
}

/// Index of the first non-whitespace character of `s`, or its length.
pub open spec fn first_non_ws(s: Seq<char>) -> int
    decreases s.len(),
{
    if s.len() > 0 && is_ws(s[0]) {
        1 + first_non_ws(s.drop_first())
    } else {
        0
    }
}

/// Exec `char::is_whitespace`.
pub fn char_is_ws(c: char) -> (b: bool)
    ensures
        b == is_ws(c),
{
    let u = c as u32;
    (0x09 <= u && u <= 0x0D) || u == 0x20 || u == 0x85 || u == 0xA0 || u == 0x1680 || (0x2000
        <= u && u <= 0x200A) || u == 0x2028 || u == 0x2029 || u == 0x202F || u == 0x205F || u
        == 0x3000
}

/// The characters of `s`, in order.
pub fn chars_of(s: &str) -> (v: Vec<char>)
    ensures
        v@ == s@,
{
    let mut v: Vec<char> = Vec::new();
    for c in it: s.chars()
        invariant
            v@ == it.seq().take(it.index() as int),
            it.seq() == s@,
    {
        v.push(c);
    }
    v
}

/// A `String` holding exactly the characters `v[start..end]`.
pub fn string_from(v: &Vec<char>, start: usize, end: usize) -> (s: String)
    requires
        start <= end <= v.len(),
    ensures
        s@ == v@.subrange(start as int, end as int),
{
    let mut s = String::new();
    let mut i = start;
    while i < end
        invariant
            start <= i <= end <= v.len(),
            s@ == v@.subrange(start as int, i as int),
        decreases end - i,
    {
        s.push(v[i]);
        i = i + 1;
    }
    s
}

/// Where the trimmed text starts and ends in `v`.
pub fn trim_range(v: &Vec<char>) -> (r: (usize, usize))
    ensures
        r.0 <= r.1 <= v.len(),
        trim(v@) == v@.subrange(r.0 as int, r.1 as int),
        lead_ws(v@) == r.0,
{
    let n = v.len();
    let mut i: usize = 0;
    while i < n && char_is_ws(v[i])
        invariant
            i <= n == v.len(),
            forall|k: int| 0 <= k < i ==> is_ws(#[trigger] v@[k]),
        decreases n - i,
    {
        i = i + 1;
    }
    proof {
        lemma_lead_ws_is(v@, i as int);
    }
    let mut j: usize = n;
    while j > i && char_is_ws(v[j - 1])
        invariant
            i <= j <= n == v.len(),
            forall|k: int| j <= k < n ==> is_ws(#[trigger] v@[k]),
        decreases j,
    {
        j = j - 1;
    }
    proof {
        let t = v@.skip(i as int);
        assert forall|k: int| j - i <= k < t.len() implies is_ws(#[trigger] t[k]) by {
            assert(t[k] == v@[k + i]);
        }
        if j > i {
            assert(t[j - i - 1] == v@[j - 1]);
        }
        lemma_trail_ws_is(t, j - i);
        assert(trim(v@) =~= v@.subrange(i as int, j as int));
    }
    (i, j)
}

/// `s` trimmed, as an owned string.
pub fn trimmed(s: &str) -> (t: String)
    ensures
        t@ == trim(s@),
{
    let v = chars_of(s);
    let (a, b) = trim_range(&v);
    string_from(&v, a, b)
}

/// Whether `s` is empty after trimming.
pub fn blank(s: &str) -> (b: bool)
    ensures
        b == is_blank(s@),
        b == (trim(s@).len() == 0),
{
    let v = chars_of(s);
    let mut i: usize = 0;
    while i < v.len()
        invariant
            i <= v.len(),
            v@ == s@,
            forall|k: int| 0 <= k < i ==> is_ws(#[trigger] v@[k]),
        decreases v.len() - i,
    {
        if !char_is_ws(v[i]) {
            proof {
                lemma_trim_blank(s@);
            }
            return false;
        }
        i = i + 1;
    }
    proof {
        lemma_trim_blank(s@);
    }
    true
}

/// Number of characters (not bytes) in `s`.
pub fn char_count(s: &str) -> (n: usize)
    ensures
        n == s@.len(),
{
    chars_of(s).len()
}

// ---------------------------------------------------------------------------
// Sequences of characters
// ---------------------------------------------------------------------------

/// Whether `s` starts with `p`.
pub open spec fn starts_with(s: Seq<char>, p: Seq<char>) -> bool {
    p.len() <= s.len() && s.take(p.len() as int) == p
}

/// Whether `s` ends with `p`.
pub open spec fn ends_with(s: Seq<char>, p: Seq<char>) -> bool {
    p.len() <= s.len() && s.skip(s.len() - p.len()) == p
}

pub fn vec_starts_with(v: &Vec<char>, start: usize, end: usize, p: &str) -> (b: bool)
    requires
        start <= end <= v.len(),
    ensures
        b == starts_with(v@.subrange(start as int, end as int), p@),
{
    let pv = chars_of(p);
    if pv.len() > end - start {
        return false;
    }
    let mut i: usize = 0;
    while i < pv.len()
        invariant
            pv@ == p@,
            pv.len() <= end - start,
            start <= end <= v.len(),
            i <= pv.len(),
            forall|k: int| 0 <= k < i ==> v@[start + k] == pv@[k],
        decreases pv.len() - i,
    {
        if v[start + i] != pv[i] {
            proof {
                assert(v@.subrange(start as int, end as int).take(pv.len() as int)[i as int]
                    != p@[i as int]);
            }
            return false;
        }
        i = i + 1;
    }
    proof {
        assert(v@.subrange(start as int, end as int).take(pv.len() as int) =~= p@);
    }
    true
}

pub fn vec_ends_with(v: &Vec<char>, start: usize, end: usize, p: &str) -> (b: bool)
    requires
        start <= end <= v.len(),
    ensures
        b == ends_with(v@.subrange(start as int, end as int), p@),
{
    let pv = chars_of(p);
    if pv.len() > end - start {
        return false;
    }
    let base = end - pv.len();
    let mut i: usize = 0;
    while i < pv.len()
        invariant
            pv@ == p@,
            pv.len() <= end - start,
            base == end - pv.len(),
            start <= end <= v.len(),
            i <= pv.len(),
            forall|k: int| 0 <= k < i ==> v@[base + k] == pv@[k],
        decreases pv.len() - i,
    {
        if v[base + i] != pv[i] {
            proof {
                let w = v@.subrange(start as int, end as int);
                assert(w.skip(w.len() - pv.len())[i as int] != p@[i as int]);
            }
            return false;
        }
        i = i + 1;
    }
    proof {
        let w = v@.subrange(start as int, end as int);
        assert(w.skip(w.len() - pv.len()) =~= p@);
    }
    true
}

/// Exact equality of two strings.
pub fn str_eq(a: &str, b: &str) -> (r: bool)
    ensures
        r == (a@ == b@),
{
    let av = chars_of(a);
    let bv = chars_of(b);
    if av.len() != bv.len() {
        return false;
    }
    let mut i: usize = 0;
    while i < av.len()
        invariant
            av@ == a@,
            bv@ == b@,
            av.len() == bv.len(),
            i <= av.len(),
            forall|k: int| 0 <= k < i ==> av@[k] == bv@[k],
        decreases av.len() - i,
    {
        if av[i] != bv[i] {
            return false;
        }
        i = i + 1;
    }
    proof {
        assert(a@ =~= b@);
    }
    true
}

/// An owned copy of `s`.
pub fn own(s: &str) -> (r: String)
    ensures
        r@ == s@,
{
    let mut r = String::new();
    r.push_str(s);
    r
}

/// The first `n` characters of `s` (all of it when shorter).
pub open spec fn take_chars(s: Seq<char>, n: nat) -> Seq<char> {
    if s.len() <= n {
        s
    } else {
        s.take(n as int)
    }
}

/// `s.chars().take(n).collect()`.
pub fn first_chars(s: &str, n: usize) -> (r: String)
    ensures
        r@ == take_chars(s@, n as nat),
{
    let v = chars_of(s);
    let end = if v.len() <= n {
        v.len()
    } else {
        n
    };
    let r = string_from(&v, 0, end);
    proof {
        assert(r@ =~= take_chars(s@, n as nat));
    }
    r
}

// ---------------------------------------------------------------------------
// Case-insensitive words
// ---------------------------------------------------------------------------

/// Whether `c` lower-cases (Unicode `to_lowercase`) to exactly the ASCII
/// character `l`. Among all characters only the ASCII capitals and the
/// Kelvin sign (U+212A, which lower-cases to `k`) lower-case to a single ASCII
/// character other than themselves.
pub open spec fn lowers_to(c: char, l: char) -> bool {
    ||| c == l
    ||| ('a' <= l <= 'z' && c as u32 == l as u32 - 32)
    ||| (l == 'k' && c as u32 == 0x212A)
}

/// `s.to_lowercase() == w` for an ASCII lower-case word `w`.
pub open spec fn lowercases_to(s: Seq<char>, w: Seq<char>) -> bool {
    s.len() == w.len() && forall|i: int| 0 <= i < s.len() ==> lowers_to(#[trigger] s[i], w[i])
}

pub fn char_lowers_to(c: char, l: char) -> (b: bool)
    ensures
        b == lowers_to(c, l),
{
    let cu = c as u32;
    let lu = l as u32;
    c == l || ('a' <= l && l <= 'z' && cu + 32 == lu) || (l == 'k' && cu == 0x212A)
}

/// Compare `v[start..end]` with the ASCII lower-case word `w` as
/// `to_lowercase` would.
pub fn lowercase_eq(v: &Vec<char>, start: usize, end: usize, w: &str) -> (b: bool)
    requires
        start <= end <= v.len(),
    ensures
        b == lowercases_to(v@.subrange(start as int, end as int), w@),
{
    let wv = chars_of(w);
    if end - start != wv.len() {
        return false;
    }
    let mut i: usize = 0;
    while i < wv.len()
        invariant
            wv@ == w@,
            end - start == wv.len(),
            start <= end <= v.len(),
            i <= wv.len(),
            forall|k: int| 0 <= k < i ==> lowers_to(v@[start + k], wv@[k]),
        decreases wv.len() - i,
    {
        if !char_lowers_to(v[start + i], wv[i]) {
            proof {
                assert(v@.subrange(start as int, end as int)[i as int] == v@[start + i]);
            }
            return false;
        }
        i = i + 1;
    }
    proof {
        let s = v@.subrange(start as int, end as int);
        assert forall|k: int| 0 <= k < s.len() implies lowers_to(#[trigger] s[k], w@[k]) by {
            assert(s[k] == v@[start + k]);
        }
    }
    true
}

// ---------------------------------------------------------------------------
// Decimal numbers
// ---------------------------------------------------------------------------

pub open spec fn digit_char(d: nat) -> char
    recommends
        d < 10,
{
    ((d + 48) as u8) as char
}

/// The decimal rendering of `n`, as `{n}` formats it.
pub open spec fn decimal(n: nat) -> Seq<char>
    decreases n,
{
    if n < 10 {
        seq![digit_char(n)]
    } else {
        decimal(n / 10).push(digit_char(n % 10))
    }
}

/// The digit characters are the ASCII digits, in order.
pub proof fn lemma_digit_char(d: nat)
    requires
        d < 10,
    ensures
        '0' <= digit_char(d) <= '9',
        digit_char(d) as u32 == d + 48,
        digit_char(d) as nat == d + 48,
{
}

/// A decimal rendering is a non-empty run of ASCII digits.
pub proof fn lemma_decimal_digits(n: nat)
    ensures
        decimal(n).len() >= 1,
        forall|i: int| 0 <= i < decimal(n).len() ==> '0' <= #[trigger] decimal(n)[i] <= '9',
    decreases n,
{
    if n < 10 {
        lemma_digit_char(n);
    } else {
        lemma_decimal_digits(n / 10);
        lemma_digit_char(n % 10);
        assert forall|i: int| 0 <= i < decimal(n).len() implies '0' <= #[trigger] decimal(n)[i] <= '9' by {
            if i < decimal(n / 10).len() {
                assert(decimal(n)[i] == decimal(n / 10)[i]);
            }
        }
    }
}

/// Text with no whitespace in it is its own trim.
pub proof fn lemma_trim_unchanged(s: Seq<char>)
    requires
        forall|i: int| 0 <= i < s.len() ==> !is_ws(#[trigger] s[i]),
    ensures
        trim(s) == s,
{
    lemma_lead_ws_is(s, 0);
    assert(trim_start(s) =~= s);
    lemma_trail_ws_is(s, s.len() as int);
    assert(trim(s) =~= s);
}

/// The decimal rendering of a signed `n`.
pub open spec fn signed_decimal(n: int) -> Seq<char> {
    if n < 0 {
        seq!['-'] + decimal((-n) as nat)
    } else {
        decimal(n as nat)
    }
}

fn digit(d: u64) -> (c: char)
    requires
        d < 10,
    ensures
        c == digit_char(d as nat),
{
    let b: u8 = (d as u8) + 48;
    b as char
}

/// Append the decimal rendering of `n` to `out`.
pub fn push_decimal(out: &mut String, n: u64)
    ensures
        final(out)@ == old(out)@ + decimal(n as nat),
    decreases n,
{
    if n >= 10 {
        push_decimal(out, n / 10);
    }
    out.push(digit(n % 10));
    proof {
        assert(old(out)@ + decimal(n as nat) =~= final(out)@) by {
            if n >= 10 {
                assert(decimal(n as nat) == decimal((n / 10) as nat).push(digit_char(
                    (n % 10) as nat,
                )));
            }
        }
    }
}

/// Append the decimal rendering of a signed `n` to `out`.
pub fn push_signed_decimal(out: &mut String, n: i64)
    ensures
        final(out)@ == old(out)@ + signed_decimal(n as int),
{
    if n < 0 {
        out.push('-');
        let m: u64 = if n == i64::MIN {
            9223372036854775808u64
        } else {
            (-n) as u64
        };
        push_decimal(out, m);
        proof {
            assert(final(out)@ =~= old(out)@ + signed_decimal(n as int));
        }
    } else {
        push_decimal(out, n as u64);
    }
}

// ---------------------------------------------------------------------------
// UTF-8 byte lengths
// ---------------------------------------------------------------------------

/// Bytes in the UTF-8 encoding of `c` (`char::len_utf8`).
pub open spec fn utf8_width(c: char) -> nat {
    let u = c as u32;
    if u <= 0x7F {
        1
    } else if u <= 0x7FF {
        2
    } else if u <= 0xFFFF {
        3
    } else {
        4
    }
}

/// Bytes in the UTF-8 encoding of `s` (`str::len`).
pub open spec fn utf8_len(s: Seq<char>) -> nat
    decreases s.len(),
{
    if s.len() == 0 {
        0
    } else {
        utf8_width(s[0]) + utf8_len(s.drop_first())
    }
}

pub proof fn lemma_utf8_len_concat(a: Seq<char>, b: Seq<char>)
    ensures
        utf8_len(a + b) == utf8_len(a) + utf8_len(b),
    decreases a.len(),
{
    if a.len() > 0 {
        assert((a + b).drop_first() =~= a.drop_first() + b);
        lemma_utf8_len_concat(a.drop_first(), b);
    } else {
        assert(a + b =~= b);
    }
}

pub proof fn lemma_utf8_len_ge(s: Seq<char>)
    ensures
        utf8_len(s) >= s.len(),
    decreases s.len(),
{
    if s.len() > 0 {
        lemma_utf8_len_ge(s.drop_first());
    }
}

/// `min(utf8_len(v[start..end]), cap + 1)`: the byte length of a piece of
/// text, counted only as far as needed to tell whether it exceeds `cap`.
pub fn utf8_len_upto(v: &Vec<char>, cap: usize) -> (n: usize)
    requires
        cap < usize::MAX,
    ensures
        n == if utf8_len(v@) <= cap {
            utf8_len(v@)
        } else {
            (cap + 1) as nat
        },
{
    let mut i: usize = v.len();
    let mut n: usize = 0;
    // Walk from the end so the running total is `utf8_len` of a suffix.
    while i > 0
        invariant
            i <= v.len(),
            cap < usize::MAX,
            n <= cap,
            n == utf8_len(v@.skip(i as int)),
        decreases i,
    {
        let c = v[i - 1];
        let u = c as u32;
        let w: usize = if u <= 0x7F {
            1
        } else if u <= 0x7FF {
            2
        } else if u <= 0xFFFF {
            3
        } else {
            4
        };
        proof {
            assert(v@.skip(i - 1).drop_first() =~= v@.skip(i as int));
            assert(v@.skip(i - 1)[0] == c);
        }
        if w > cap - n {
            proof {
                lemma_utf8_len_suffix_le(v@, (i - 1) as int);
            }
            return cap + 1;
        }
        n = n + w;
        i = i - 1;
    }
    proof {
        assert(v@.skip(0) =~= v@);
    }
    n
}

/// `utf8_len` is the length of the UTF-8 encoding vstd defines.
pub proof fn lemma_utf8_len_is_encoding_len(s: Seq<char>)
    ensures
        utf8_len(s) == vstd::utf8::encode_utf8(s).len(),
    decreases s.len(),
{
    if s.len() > 0 {
        let c = s[0];
        vstd::utf8::char_is_scalar(c);
        lemma_utf8_len_is_encoding_len(s.drop_first());
    }
}

/// A suffix is never longer (in bytes) than the whole.
pub proof fn lemma_utf8_len_suffix_le(s: Seq<char>, i: int)
    requires
        0 <= i <= s.len(),
    ensures
        utf8_len(s.skip(i)) <= utf8_len(s),
    decreases i,
{
    if i > 0 {
        assert(s.skip(i) =~= s.drop_first().skip(i - 1));
        lemma_utf8_len_suffix_le(s.drop_first(), i - 1);
    } else {
        assert(s.skip(0) =~= s);
    }
}

// ---------------------------------------------------------------------------
// Small conveniences
// ---------------------------------------------------------------------------

/// A setting that counts only when present and non-empty.
pub fn non_empty(raw: Option<String>) -> (r: Option<String>)
    ensures
        r == (match raw {
            Some(k) => if k@.len() == 0 {
                None
            } else {
                Some(k)
            },
            None => None,
        }),
{
    match raw {
        Some(k) => if k.as_str().is_empty() {
            None
        } else {
            Some(k)
        },
        None => None,
    }
}

/// `s` without its trailing slashes (`trim_end_matches('/')`).
pub open spec fn without_trailing_slashes(s: Seq<char>) -> Seq<char>
    decreases s.len(),
{
    if s.len() > 0 && s.last() == '/' {
        without_trailing_slashes(s.drop_last())
    } else {
        s
    }
}

pub fn strip_trailing_slashes(s: &str) -> (r: String)
    ensures
        r@ == without_trailing_slashes(s@),
{
    let v = chars_of(s);
    let mut j: usize = v.len();
    proof {
        assert(v@.take(j as int) =~= s@);
    }
    while j > 0 && v[j - 1] == '/'
        invariant
            j <= v.len(),
            v@ == s@,
            without_trailing_slashes(v@.take(j as int)) == without_trailing_slashes(s@),
        decreases j,
    {
        proof {
            assert(v@.take(j as int).drop_last() =~= v@.take(j - 1));
            assert(v@.take(j as int).last() == v@[j - 1]);
        }
        j = j - 1;
    }
    let r = string_from(&v, 0, j);
    proof {
        assert(r@ =~= v@.take(j as int));
        if j > 0 {
            assert(v@.take(j as int).last() == v@[j - 1]);
        }
    }
    r
}

} // verus!

//! Character-level text operations with their meaning stated over `Seq<char>`.

use vstd::prelude::*;

verus! {

/// Appends one character to a string.
/// Trusted: calls `String::push`, whose documentation says that it appends
/// the given char to the end of the string.
#[verifier::external_body]
pub(crate) fn push_char(s: &mut String, c: char)
    ensures
        final(s)@ == old(s)@.push(c),
{
    s.push(c);
}

/// The characters of `s`, in order.
pub fn chars_of(s: &str) -> (v: Vec<char>)
    ensures
        v@ == s@,
{
    let mut v: Vec<char> = Vec::new();
    for c in it: s.chars()
        invariant
            v@ == it.seq().take(it.index() as int),
    {
        v.push(c);
    }
    v
}

/// Appends the characters of `cs` to `s`.
pub fn push_chars(s: &mut String, cs: &Vec<char>)
    ensures
        final(s)@ == old(s)@ + cs@,
{
    let mut i: usize = 0;
    while i < cs.len()
        invariant
            i <= cs.len(),
            s@ == old(s)@ + cs@.take(i as int),
        decreases cs.len() - i,
    {
        push_char(s, cs[i]);
        assert(cs@.take(i as int).push(cs@[i as int]) =~= cs@.take(i + 1));
        i = i + 1;
    }
    assert(cs@.take(cs.len() as int) =~= cs@);
}

/// Appends the characters of `t` to `s`.
pub fn push_str(s: &mut String, t: &str)
    ensures
        final(s)@ == old(s)@ + t@,
{
    let cs = chars_of(t);
    push_chars(s, &cs);
}

/// A string holding exactly the characters of `cs`.
pub fn string_of(cs: &Vec<char>) -> (s: String)
    ensures
        s@ == cs@,
{
    let mut s = String::new();
    push_chars(&mut s, cs);
    s
}

/// A string holding exactly the characters of `t`.
pub fn owned(t: &str) -> (s: String)
    ensures
        s@ == t@,
{
    let mut s = String::new();
    push_str(&mut s, t);
    s
}

/// `a` followed by `b`.
pub fn concat2(a: &str, b: &str) -> (s: String)
    ensures
        s@ == a@ + b@,
{
    let mut s = owned(a);
    push_str(&mut s, b);
    s
}

/// `a`, `b` and `c` in a row.
pub fn concat3(a: &str, b: &str, c: &str) -> (s: String)
    ensures
        s@ == a@ + b@ + c@,
{
    let mut s = owned(a);
    push_str(&mut s, b);
    push_str(&mut s, c);
    s
}

/// Whether two strings hold the same characters.
pub fn str_eq(a: &str, b: &str) -> (r: bool)
    ensures
        r == (a@ == b@),
{
    let x = chars_of(a);
    let y = chars_of(b);
    chars_eq(&x, &y)
}

/// Whether two character vectors are equal.
pub fn chars_eq(x: &Vec<char>, y: &Vec<char>) -> (r: bool)
    ensures
        r == (x@ == y@),
{
    if x.len() != y.len() {
        return false;
    }
    let mut i: usize = 0;
    while i < x.len()
        invariant
            x.len() == y.len(),
            i <= x.len(),
            forall|j: int| 0 <= j < i ==> x@[j] == y@[j],
        decreases x.len() - i,
    {
        if x[i] != y[i] {
            return false;
        }
        i = i + 1;
    }
    assert(x@ =~= y@);
    true
}

// ---------------------------------------------------------------------------
// Whitespace and trimming
// ---------------------------------------------------------------------------

/// The Unicode `White_Space` property, which `char::is_whitespace` tests.
pub open spec fn is_ws(c: char) -> bool {
    let u = c as u32;
    ||| 0x9 <= u <= 0xD
    ||| u == 0x20
    ||| u == 0x85
    ||| u == 0xA0
    ||| u == 0x1680
    ||| 0x2000 <= u <= 0x200A
    ||| u == 0x2028
    ||| u == 0x2029
    ||| u == 0x202F
    ||| u == 0x205F
    ||| u == 0x3000
}

pub fn is_whitespace(c: char) -> (r: bool)
    ensures
        r == is_ws(c),
{
    let u: u32 = c as u32;
    (0x9 <= u && u <= 0xD) || u == 0x20 || u == 0x85 || u == 0xA0 || u == 0x1680 || (0x2000
        <= u && u <= 0x200A) || u == 0x2028 || u == 0x2029 || u == 0x202F || u == 0x205F || u
        == 0x3000
}

/// Every character of `s` is whitespace (so trimming leaves nothing).
pub open spec fn is_blank(s: Seq<char>) -> bool {
    forall|i: int| 0 <= i < s.len() ==> is_ws(#[trigger] s[i])
}

/// `s` without its leading whitespace.
pub open spec fn trim_start(s: Seq<char>) -> Seq<char>
    decreases s.len(),
{
    if s.len() > 0 && is_ws(s[0]) {
        trim_start(s.drop_first())
    } else {
        s
    }
}

/// `s` without its trailing whitespace.
pub open spec fn trim_end(s: Seq<char>) -> Seq<char>
    decreases s.len(),
{
    if s.len() > 0 && is_ws(s.last()) {
        trim_end(s.drop_last())
    } else {
        s
    }
}

/// `s` without leading and trailing whitespace, as `str::trim` gives it.
pub open spec fn trim(s: Seq<char>) -> Seq<char> {
    trim_end(trim_start(s))
}

proof fn lemma_trim_start(s: Seq<char>, a: int)
    requires
        0 <= a <= s.len(),
        forall|i: int| 0 <= i < a ==> is_ws(#[trigger] s[i]),
        a < s.len() ==> !is_ws(s[a]),
    ensures
        trim_start(s) == s.skip(a),
    decreases a,
{
    if a == 0 {
        assert(s.skip(0) =~= s);
    } else {
        assert(is_ws(s[0]));
        let t = s.drop_first();
        assert forall|i: int| 0 <= i < a - 1 implies is_ws(#[trigger] t[i]) by {
            assert(t[i] == s[i + 1]);
        }
        lemma_trim_start(t, a - 1);
        assert(t.skip(a - 1) =~= s.skip(a));
    }
}

proof fn lemma_trim_end(s: Seq<char>, b: int)
    requires
        0 <= b <= s.len(),
        forall|i: int| b <= i < s.len() ==> is_ws(#[trigger] s[i]),
        b > 0 ==> !is_ws(s[b - 1]),
    ensures
        trim_end(s) == s.take(b),
    decreases s.len() - b,
{
    if b == s.len() {
        assert(s.take(b) =~= s);
    } else {
        assert(is_ws(s.last()));
        let t = s.drop_last();
        assert forall|i: int| b <= i < t.len() implies is_ws(#[trigger] t[i]) by {
            assert(t[i] == s[i]);
        }
        lemma_trim_end(t, b);
        assert(t.take(b) =~= s.take(b));
    }
}

/// Whether `s` has no character that is not whitespace.
pub fn blank(s: &str) -> (r: bool)
    ensures
        r == is_blank(s@),
{
    let v = chars_of(s);
    let mut i: usize = 0;
    while i < v.len()
        invariant
            v@ == s@,
            i <= v.len(),
            forall|j: int| 0 <= j < i ==> is_ws(#[trigger] v@[j]),
        decreases v.len() - i,
    {
        if !is_whitespace(v[i]) {
            return false;
        }
        i = i + 1;
    }
    true
}

/// The characters of `v` from `a` up to (not including) `b`.
pub fn slice_chars(v: &Vec<char>, a: usize, b: usize) -> (r: Vec<char>)
    requires
        a <= b <= v.len(),
    ensures
        r@ == v@.subrange(a as int, b as int),
{
    let mut r: Vec<char> = Vec::new();
    let mut i: usize = a;
    while i < b
        invariant
            a <= i <= b <= v.len(),
            r@ == v@.subrange(a as int, i as int),
        decreases b - i,
    {
        r.push(v[i]);
        assert(v@.subrange(a as int, i as int).push(v@[i as int]) =~= v@.subrange(
            a as int,
            i + 1,
        ));
        i = i + 1;
    }
    r
}

/// `s` with its leading and trailing whitespace removed.
pub fn trimmed(s: &str) -> (r: Vec<char>)
    ensures
        r@ == trim(s@),
{
    let v = chars_of(s);
    let mut a: usize = 0;
    while a < v.len() && is_whitespace(v[a])
        invariant
            v@ == s@,
            a <= v.len(),
            forall|j: int| 0 <= j < a ==> is_ws(#[trigger] v@[j]),
        decreases v.len() - a,
    {
        a = a + 1;
    }
    let mut b: usize = v.len();
    while b > a && is_whitespace(v[b - 1])
        invariant
            v@ == s@,
            a <= b <= v.len(),
            forall|j: int| b <= j < v.len() ==> is_ws(#[trigger] v@[j]),
        decreases b,
    {
        b = b - 1;
    }
    proof {
        lemma_trim_start(v@, a as int);
        let t = v@.skip(a as int);
        assert forall|i: int| b - a <= i < t.len() implies is_ws(#[trigger] t[i]) by {
            assert(t[i] == v@[i + a]);
        }
        if b > a {
            assert(t[b - a - 1] == v@[b - 1]);
        }
        lemma_trim_end(t, b - a);
        assert(t.take(b - a) =~= v@.subrange(a as int, b as int));
    }
    slice_chars(&v, a, b)
}

// ---------------------------------------------------------------------------
// ASCII case
// ---------------------------------------------------------------------------

/// `c` with an ASCII lowercase letter turned into its uppercase form.
pub open spec fn upper_char(c: char) -> char {
    if 97 <= (c as u32) <= 122 {
        ((c as u32) - 32) as char
    } else {
        c
    }
}

/// `s` with every ASCII lowercase letter made uppercase, as
/// `str::to_ascii_uppercase` gives it.
pub open spec fn ascii_upper(s: Seq<char>) -> Seq<char> {
    s.map_values(|c: char| upper_char(c))
}

pub fn to_upper_char(c: char) -> (r: char)
    ensures
        r == upper_char(c),
{
    let u: u32 = c as u32;
    if 97 <= u && u <= 122 {
        let b: u8 = (u - 32) as u8;
        b as char
    } else {
        c
    }
}

/// `v` with every ASCII lowercase letter made uppercase.
pub fn ascii_uppercase(v: &Vec<char>) -> (r: Vec<char>)
    ensures
        r@ == ascii_upper(v@),
{
    let mut r: Vec<char> = Vec::new();
    let mut i: usize = 0;
    while i < v.len()
        invariant
            i <= v.len(),
            r@ == ascii_upper(v@.take(i as int)),
        decreases v.len() - i,
    {
        r.push(to_upper_char(v[i]));
        assert(ascii_upper(v@.take(i as int)).push(upper_char(v@[i as int])) =~= ascii_upper(
            v@.take(i + 1),
        ));
        i = i + 1;
    }
    assert(v@.take(v.len() as int) =~= v@);
    r
}

// ---------------------------------------------------------------------------
// Prefixes, suffixes, replacement
// ---------------------------------------------------------------------------

pub open spec fn starts_with(s: Seq<char>, p: Seq<char>) -> bool {
    p.len() <= s.len() && s.take(p.len() as int) == p
}

pub open spec fn ends_with(s: Seq<char>, p: Seq<char>) -> bool {
    p.len() <= s.len() && s.skip(s.len() - p.len()) == p
}

/// `s` with every occurrence of the non-empty `p` replaced by `r`, matches
/// taken from the left and not overlapping, as `str::replace` does.
pub open spec fn replace_all(s: Seq<char>, p: Seq<char>, r: Seq<char>) -> Seq<char>
    decreases s.len(),
{
    if s.len() == 0 {
        s
    } else if p.len() > 0 && starts_with(s, p) {
        r + replace_all(s.skip(p.len() as int), p, r)
    } else {
        seq![s[0]] + replace_all(s.drop_first(), p, r)
    }
}

/// Whether `p` occurs in `s` at position `i`.
pub fn matches_at(s: &Vec<char>, p: &Vec<char>, i: usize) -> (r: bool)
    requires
        i <= s.len(),
    ensures
        r == starts_with(s@.skip(i as int), p@),
{
    if p.len() > s.len() - i {
        return false;
    }
    let mut j: usize = 0;
    while j < p.len()
        invariant
            i + p.len() <= s.len(),
            j <= p.len(),
            forall|k: int| 0 <= k < j ==> s@[i + k] == p@[k],
        decreases p.len() - j,
    {
        if s[i + j] != p[j] {
            assert(s@.skip(i as int).take(p.len() as int)[j as int] == s@[i + j]);
            return false;
        }
        j = j + 1;
    }
    assert(s@.skip(i as int).take(p.len() as int) =~= p@);
    true
}

/// Appends the characters of `r` to `out`.
pub fn extend_chars(out: &mut Vec<char>, r: &Vec<char>)
    ensures
        final(out)@ == old(out)@ + r@,
{
    let mut k: usize = 0;
    while k < r.len()
        invariant
            k <= r.len(),
            out@ == old(out)@ + r@.take(k as int),
        decreases r.len() - k,
    {
        out.push(r[k]);
        assert(r@.take(k as int).push(r@[k as int]) =~= r@.take(k + 1));
        k = k + 1;
    }
    assert(r@.take(r.len() as int) =~= r@);
}

/// `s` with every occurrence of `p` replaced by `r`.
pub fn replace_chars(s: &Vec<char>, p: &Vec<char>, r: &Vec<char>) -> (out: Vec<char>)
    requires
        p.len() > 0,
    ensures
        out@ == replace_all(s@, p@, r@),
{
    let mut out: Vec<char> = Vec::new();
    let mut i: usize = 0;
    assert(s@.skip(0) =~= s@);
    assert(out@ + replace_all(s@, p@, r@) =~= replace_all(s@, p@, r@));
    while i < s.len()
        invariant
            p.len() > 0,
            i <= s.len(),
            out@ + replace_all(s@.skip(i as int), p@, r@) == replace_all(s@, p@, r@),
        decreases s.len() - i,
    {
        let ghost rest = s@.skip(i as int);
        if matches_at(s, p, i) {
            extend_chars(&mut out, r);
            assert(rest.skip(p.len() as int) =~= s@.skip(i + p.len()));
            i = i + p.len();
        } else {
            out.push(s[i]);
            assert(rest.drop_first() =~= s@.skip(i + 1));
            i = i + 1;
        }
    }
    assert(s@.skip(i as int) =~= Seq::<char>::empty());
    assert(out@ + Seq::<char>::empty() =~= out@);
    out
}

/// Characters that cannot begin a match are copied unchanged.
pub proof fn lemma_replace_all_keeps_prefix(a: Seq<char>, t: Seq<char>, p: Seq<char>, r: Seq<char>)
    requires
        p.len() > 0,
        forall|i: int| 0 <= i < a.len() ==> #[trigger] a[i] != p[0],
    ensures
        replace_all(a + t, p, r) == a + replace_all(t, p, r),
    decreases a.len(),
{
    if a.len() > 0 {
        let s = a + t;
        assert(s[0] == a[0]);
        assert(!starts_with(s, p)) by {
            if starts_with(s, p) {
                assert(s.take(p.len() as int)[0] == s[0]);
            }
        }
        let a1 = a.drop_first();
        assert forall|i: int| 0 <= i < a1.len() implies #[trigger] a1[i] != p[0] by {
            assert(a1[i] == a[i + 1]);
        }
        lemma_replace_all_keeps_prefix(a1, t, p, r);
        assert(s.drop_first() =~= a1 + t);
        assert(seq![a[0]] + (a1 + replace_all(t, p, r)) =~= a + replace_all(t, p, r));
    } else {
        assert(a + t =~= t);
        assert(a + replace_all(t, p, r) =~= replace_all(t, p, r));
    }
}

/// A match at the start is replaced.
pub proof fn lemma_replace_all_at_start(t: Seq<char>, p: Seq<char>, r: Seq<char>)
    requires
        p.len() > 0,
    ensures
        replace_all(p + t, p, r) == r + replace_all(t, p, r),
{
    let s = p + t;
    assert(s.take(p.len() as int) =~= p);
    assert(s.skip(p.len() as int) =~= t);
}

/// A string in which the second character of `p` occurs nowhere after its
/// first position holds no match of `p`, so nothing is replaced.
pub proof fn lemma_replace_all_no_match(s: Seq<char>, p: Seq<char>, r: Seq<char>)
    requires
        p.len() >= 2,
        forall|i: int| 1 <= i < s.len() ==> #[trigger] s[i] != p[1],
    ensures
        replace_all(s, p, r) == s,
    decreases s.len(),
{
    if s.len() > 0 {
        assert(!starts_with(s, p)) by {
            if starts_with(s, p) {
                assert(s.take(p.len() as int)[1] == s[1]);
            }
        }
        let s1 = s.drop_first();
        assert forall|i: int| 1 <= i < s1.len() implies #[trigger] s1[i] != p[1] by {
            assert(s1[i] == s[i + 1]);
        }
        lemma_replace_all_no_match(s1, p, r);
        assert(seq![s[0]] + s1 =~= s);
    }
}

// ---------------------------------------------------------------------------
// Laws of trimming, case and whitespace
// ---------------------------------------------------------------------------

/// The whitespace that trimming removes is Unicode's `White_Space`: tab,
/// line feed, vertical tab, form feed, carriage return, space, next line,
/// no-break space, ogham space mark, the spaces U+2000 to U+200A, line and
/// paragraph separators, narrow no-break space, medium mathematical space
/// and ideographic space.
pub proof fn whitespace_is_unicode_white_space(c: char)
    ensures
        is_ws(c) <==> (c == '\t' || c == '\n' || c == '\u{0B}' || c == '\u{0C}' || c == '\r' || c
            == ' ' || c == '\u{85}' || c == '\u{A0}' || c == '\u{1680}' || ('\u{2000}' <= c
            && c <= '\u{200A}') || c == '\u{2028}' || c == '\u{2029}' || c == '\u{202F}' || c
            == '\u{205F}' || c == '\u{3000}'),
{
}

proof fn lemma_trim_start_skips(s: Seq<char>) -> (a: int)
    ensures
        0 <= a <= s.len(),
        trim_start(s) == s.skip(a),
        forall|i: int| 0 <= i < a ==> is_ws(#[trigger] s[i]),
        a < s.len() ==> !is_ws(s[a]),
    decreases s.len(),
{
    if s.len() > 0 && is_ws(s[0]) {
        let t = s.drop_first();
        let b = lemma_trim_start_skips(t);
        assert(t.skip(b) =~= s.skip(b + 1));
        assert forall|i: int| 0 <= i < b + 1 implies is_ws(#[trigger] s[i]) by {
            if i > 0 {
                assert(s[i] == t[i - 1]);
            }
        }
        if b < t.len() {
            assert(s[b + 1] == t[b]);
        }
        b + 1
    } else {
        assert(s.skip(0) =~= s);
        0
    }
}

proof fn lemma_trim_end_takes(s: Seq<char>) -> (b: int)
    ensures
        0 <= b <= s.len(),
        trim_end(s) == s.take(b),
        forall|i: int| b <= i < s.len() ==> is_ws(#[trigger] s[i]),
        b > 0 ==> !is_ws(s[b - 1]),
    decreases s.len(),
{
    if s.len() > 0 && is_ws(s.last()) {
        let t = s.drop_last();
        let b = lemma_trim_end_takes(t);
        assert(t.take(b) =~= s.take(b));
        assert forall|i: int| b <= i < s.len() implies is_ws(#[trigger] s[i]) by {
            if i < t.len() {
                assert(s[i] == t[i]);
            }
        }
        if b > 0 {
            assert(s[b - 1] == t[b - 1]);
        }
        b
    } else {
        assert(s.take(s.len() as int) =~= s);
        s.len() as int
    }
}

/// Trimming keeps one contiguous piece of the string: everything before and
/// after it is whitespace, and the piece neither starts nor ends with
/// whitespace.
pub proof fn trim_keeps_inner_text(s: Seq<char>)
    ensures
        exists|a: int, b: int|
            #![trigger s.subrange(a, b)]
            0 <= a <= b <= s.len() && trim(s) == s.subrange(a, b) && (forall|i: int|
                0 <= i < a ==> is_ws(#[trigger] s[i])) && (forall|i: int|
                b <= i < s.len() ==> is_ws(#[trigger] s[i])) && (a < b ==> !is_ws(s[a]) && !is_ws(
                s[b - 1],
            )),
{
    let a = lemma_trim_start_skips(s);
    let t = s.skip(a);
    let b = lemma_trim_end_takes(t);
    assert(t.take(b) =~= s.subrange(a, a + b));
    assert forall|i: int| a + b <= i < s.len() implies is_ws(#[trigger] s[i]) by {
        assert(s[i] == t[i - a]);
    }
    if b > 0 {
        assert(t[0] == s[a]);
        assert(t[b - 1] == s[a + b - 1]);
    }
    assert(trim(s) == s.subrange(a, a + b));
}

/// ASCII upper-casing keeps the length, turns each of `a`..`z` into the
/// letter 32 code points below it (`A`..`Z`), and leaves every other
/// character as it is.
pub proof fn ascii_upper_changes_only_lowercase(s: Seq<char>)
    ensures
        ascii_upper(s).len() == s.len(),
        forall|i: int|
            0 <= i < s.len() && 'a' <= s[i] && s[i] <= 'z' ==> (#[trigger] ascii_upper(s)[i]) as int
                == s[i] as int - 32,
        forall|i: int|
            0 <= i < s.len() && !('a' <= s[i] && s[i] <= 'z') ==> #[trigger] ascii_upper(s)[i]
                == s[i],
{
    assert forall|i: int| 0 <= i < s.len() && 'a' <= s[i] && s[i] <= 'z' implies (
    #[trigger] ascii_upper(s)[i]) as int == s[i] as int - 32 by {
        let c = s[i];
        vstd::utf8::char_is_scalar(c);
        assert(0 <= (c as int) <= 0x10FFFF);
        assert(((c as int) as u32) as int == c as int);
        assert((c as u32) == (c as int) as u32);
        assert(97 <= (c as u32) <= 122);
    }
    assert forall|i: int| 0 <= i < s.len() && !('a' <= s[i] && s[i] <= 'z') implies #[trigger] ascii_upper(s)[i]
        == s[i] by {
        let c = s[i];
        let u = c as u32;
        if 97 <= u <= 122 {
            vstd::utf8::char_u32_cast(c, u);
            assert((u as char) as int == u as int);
            assert(false);
        }
    }
}

proof fn lemma_trim_start_blank_prefix(w: Seq<char>, x: Seq<char>)
    requires
        is_blank(w),
    ensures
        trim_start(w + x) == trim_start(x),
    decreases w.len(),
{
    if w.len() > 0 {
        assert((w + x)[0] == w[0]);
        assert((w + x).drop_first() =~= w.drop_first() + x);
        lemma_trim_start_blank_prefix(w.drop_first(), x);
    } else {
        assert(w + x =~= x);
    }
}

proof fn lemma_trim_end_blank_suffix(x: Seq<char>, w: Seq<char>)
    requires
        is_blank(w),
    ensures
        trim_end(x + w) == trim_end(x),
    decreases w.len(),
{
    if w.len() > 0 {
        assert((x + w).last() == w.last());
        assert((x + w).drop_last() =~= x + w.drop_last());
        lemma_trim_end_blank_suffix(x, w.drop_last());
    } else {
        assert(x + w =~= x);
    }
}

proof fn lemma_trim_start_of_blank(s: Seq<char>)
    requires
        is_blank(s),
    ensures
        trim_start(s) == Seq::<char>::empty(),
    decreases s.len(),
{
    if s.len() > 0 {
        lemma_trim_start_of_blank(s.drop_first());
    }
}

proof fn lemma_trim_start_keeps_suffix(l: Seq<char>, w: Seq<char>)
    requires
        !is_blank(l),
    ensures
        trim_start(l + w) == trim_start(l) + w,
    decreases l.len(),
{
    assert(l.len() > 0);
    assert((l + w)[0] == l[0]);
    if is_ws(l[0]) {
        let l1 = l.drop_first();
        assert(!is_blank(l1)) by {
            let i = choose|i: int| 0 <= i < l.len() && !is_ws(#[trigger] l[i]);
            assert(i > 0);
            assert(l1[i - 1] == l[i]);
        }
        assert((l + w).drop_first() =~= l1 + w);
        lemma_trim_start_keeps_suffix(l1, w);
    }
}

/// Whitespace around a string does not change what trimming keeps.
pub proof fn trim_ignores_surrounding_whitespace(w1: Seq<char>, l: Seq<char>, w2: Seq<char>)
    requires
        is_blank(w1),
        is_blank(w2),
    ensures
        trim(w1 + l + w2) == trim(l),
{
    assert(w1 + l + w2 =~= w1 + (l + w2));
    lemma_trim_start_blank_prefix(w1, l + w2);
    if is_blank(l) {
        assert(is_blank(l + w2)) by {
            assert forall|i: int| 0 <= i < (l + w2).len() implies is_ws(#[trigger] (l + w2)[i]) by {
                if i < l.len() {
                    assert((l + w2)[i] == l[i]);
                } else {
                    assert((l + w2)[i] == w2[i - l.len()]);
                }
            }
        }
        lemma_trim_start_of_blank(l + w2);
        lemma_trim_start_of_blank(l);
    } else {
        lemma_trim_start_keeps_suffix(l, w2);
        lemma_trim_end_blank_suffix(trim_start(l), w2);
    }
}

proof fn lemma_upper_keeps_whitespace(c: char)
    ensures
        is_ws(upper_char(c)) == is_ws(c),
{
    let u = c as u32;
    if 97 <= u <= 122 {
        vstd::utf8::char_u32_cast(c, u);
        let d = ((u as int) - 32) as char;
        assert(d as int == (u as int) - 32);
        assert((d as u32) == (d as int) as u32);
    }
}

proof fn lemma_upper_commutes_with_trim_start(s: Seq<char>)
    ensures
        trim_start(ascii_upper(s)) == ascii_upper(trim_start(s)),
    decreases s.len(),
{
    if s.len() > 0 {
        lemma_upper_keeps_whitespace(s[0]);
        assert(ascii_upper(s)[0] == upper_char(s[0]));
        assert(ascii_upper(s).drop_first() =~= ascii_upper(s.drop_first()));
        lemma_upper_commutes_with_trim_start(s.drop_first());
    } else {
        assert(ascii_upper(s) =~= s);
    }
}

proof fn lemma_upper_commutes_with_trim_end(s: Seq<char>)
    ensures
        trim_end(ascii_upper(s)) == ascii_upper(trim_end(s)),
    decreases s.len(),
{
    if s.len() > 0 {
        lemma_upper_keeps_whitespace(s.last());
        assert(ascii_upper(s).last() == upper_char(s.last()));
        assert(ascii_upper(s).drop_last() =~= ascii_upper(s.drop_last()));
        lemma_upper_commutes_with_trim_end(s.drop_last());
    } else {
        assert(ascii_upper(s) =~= s);
    }
}

/// Upper-casing ASCII letters and trimming can be done in either order.
pub proof fn trim_commutes_with_ascii_upper(s: Seq<char>)
    ensures
        trim(ascii_upper(s)) == ascii_upper(trim(s)),
{
    lemma_upper_commutes_with_trim_start(s);
    lemma_upper_commutes_with_trim_end(trim_start(s));
}

/// A replacement ends either as the original string ends or as the
/// replacement text ends.
pub proof fn lemma_replace_all_last(s: Seq<char>, p: Seq<char>, r: Seq<char>)
    requires
        s.len() > 0,
        r.len() > 0,
    ensures
        replace_all(s, p, r).len() > 0,
        replace_all(s, p, r).last() == s.last() || replace_all(s, p, r).last() == r.last(),
    decreases s.len(),
{
    if p.len() > 0 && starts_with(s, p) {
        let rest = s.skip(p.len() as int);
        let t = replace_all(rest, p, r);
        assert(replace_all(s, p, r) == r + t);
        if rest.len() > 0 {
            lemma_replace_all_last(rest, p, r);
            assert(rest.last() == s.last());
            assert((r + t).last() == t.last());
        } else {
            assert(t.len() == 0);
            assert((r + t).last() == r.last());
        }
    } else {
        let rest = s.drop_first();
        let t = replace_all(rest, p, r);
        assert(replace_all(s, p, r) == seq![s[0]] + t);
        if rest.len() > 0 {
            lemma_replace_all_last(rest, p, r);
            assert(rest.last() == s.last());
            assert((seq![s[0]] + t).last() == t.last());
        } else {
            assert(t.len() == 0);
            assert((seq![s[0]] + t).last() == s[0]);
        }
    }
}

/// A string is blank exactly when trimming leaves nothing of it.
pub proof fn blank_means_trims_to_nothing(s: Seq<char>)
    ensures
        is_blank(s) <==> trim(s).len() == 0,
{
    if is_blank(s) {
        lemma_trim_start_of_blank(s);
    } else {
        let a = lemma_trim_start_skips(s);
        let t = s.skip(a);
        let b = lemma_trim_end_takes(t);
        if b == 0 {
            assert forall|i: int| 0 <= i < s.len() implies is_ws(#[trigger] s[i]) by {
                if i >= a {
                    assert(s[i] == t[i - a]);
                }
            }
        }
    }
}

} // verus!

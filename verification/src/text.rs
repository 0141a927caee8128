//! Character-level string helpers shared by the routing logic.
//!
//! Strings are reasoned about through their view, the sequence of their
//! Unicode scalar values.
use vstd::prelude::*;

verus! {

/// Appends one character to a `String` (`String::push`).
#[verifier::external_body]
pub(crate) fn push_char(s: &mut String, c: char)
    ensures
        final(s)@ == old(s)@.push(c),
{
    s.push(c);
}

/// Unicode `White_Space` property, the set `char::is_whitespace` and
/// `str::trim` use.
pub open spec fn is_ws(c: char) -> bool {
    let u = c as u32;
    ||| 0x9 <= u <= 0xD
    ||| u == 0x20
    ||| u == 0x85
    ||| u == 0xA0
    ||| u == 0x1680
    ||| 0x2000 <= u <= 0x200A
    ||| u == 0x2028
    ||| u == 0x2029
    ||| u == 0x202F
    ||| u == 0x205F
    ||| u == 0x3000
}

pub fn is_whitespace(c: char) -> (b: bool)
    ensures
        b == is_ws(c),
{
    let u = c as u32;
    (0x9 <= u && u <= 0xD) || u == 0x20 || u == 0x85 || u == 0xA0 || u == 0x1680 || (0x2000 <= u
        && u <= 0x200A) || u == 0x2028 || u == 0x2029 || u == 0x202F || u == 0x205F || u == 0x3000
}

/// Index of the first non-whitespace character at or after `i` (or the length).
pub open spec fn lead_from(s: Seq<char>, i: int) -> int
    decreases s.len() - i,
{
    if i < 0 || i >= s.len() {
        s.len() as int
    } else if is_ws(s[i]) {
        lead_from(s, i + 1)
    } else {
        i
    }
}

/// One past the last non-whitespace character before `j` (or 0).
pub open spec fn end_from(s: Seq<char>, j: int) -> int
    decreases j,
{
    if j <= 0 || j > s.len() {
        0
    } else if is_ws(s[j - 1]) {
        end_from(s, j - 1)
    } else {
        j
    }
}

/// `s` without leading and trailing whitespace (`str::trim`).
pub open spec fn trim_seq(s: Seq<char>) -> Seq<char> {
    let lo = lead_from(s, 0);
    let hi = end_from(s, s.len() as int);
    if lo < hi {
        s.subrange(lo, hi)
    } else {
        Seq::empty()
    }
}

/// `p` is a prefix of `s`.
pub open spec fn has_prefix(s: Seq<char>, p: Seq<char>) -> bool {
    p.len() <= s.len() && s.subrange(0, p.len() as int) == p
}

/// `p` is a suffix of `s`.
pub open spec fn has_suffix(s: Seq<char>, p: Seq<char>) -> bool {
    p.len() <= s.len() && s.subrange(s.len() - p.len(), s.len() as int) == p
}

/// `n` occurs somewhere in `s`.
pub open spec fn has_infix(s: Seq<char>, n: Seq<char>) -> bool {
    exists|i: int| 0 <= i && i + n.len() <= s.len() && #[trigger] s.subrange(i, i + n.len()) == n
}

/// ASCII lower-casing of one character (`char::to_ascii_lowercase`).
pub open spec fn ascii_lower(c: char) -> u32 {
    let u = c as u32;
    if 0x41 <= u <= 0x5A {
        (u + 0x20) as u32
    } else {
        u
    }
}

/// Equality up to ASCII case (`str::eq_ignore_ascii_case`).
pub open spec fn eq_ascii_ci(a: Seq<char>, b: Seq<char>) -> bool {
    a.len() == b.len() && forall|i: int| 0 <= i < a.len() ==> ascii_lower(#[trigger] a[i])
        == ascii_lower(b[i])
}

/// `s` with every `from` replaced by `to` (`str::replace` with single characters).
pub open spec fn replace_char_seq(s: Seq<char>, from: char, to: char) -> Seq<char> {
    s.map_values(|c: char| if c == from { to } else { c })
}

/// The characters of a string slice, in order.
pub fn chars_of(s: &str) -> (v: Vec<char>)
    ensures
        v@ == s@,
{
    let mut v: Vec<char> = Vec::new();
    for c in it: s.chars()
        invariant
            v@ == it.seq().take(it.index() as int),
            it.seq() == s@,
    {
        v.push(c);
    }
    v
}

/// A `String` holding `v[lo..hi]`.
pub fn string_of_range(v: &Vec<char>, lo: usize, hi: usize) -> (s: String)
    requires
        lo <= hi <= v@.len(),
    ensures
        s@ == v@.subrange(lo as int, hi as int),
{
    let mut s = String::new();
    let mut i = lo;
    while i < hi
        invariant
            lo <= i <= hi <= v@.len(),
            s@ == v@.subrange(lo as int, i as int),
        decreases hi - i,
    {
        push_char(&mut s, v[i]);
        i = i + 1;
        assert(s@ =~= v@.subrange(lo as int, i as int));
    }
    s
}

/// A `String` holding all of `v`.
pub fn string_of(v: &Vec<char>) -> (s: String)
    ensures
        s@ == v@,
{
    let s = string_of_range(v, 0, v.len());
    assert(v@.subrange(0, v@.len() as int) =~= v@);
    s
}

/// A fresh copy of a string slice.
pub fn owned(s: &str) -> (r: String)
    ensures
        r@ == s@,
{
    let v = chars_of(s);
    string_of(&v)
}

/// `a[alo..alo+n] == b[blo..blo+n]`.
pub fn range_eq(a: &Vec<char>, alo: usize, b: &Vec<char>, blo: usize, n: usize) -> (r: bool)
    requires
        alo + n <= a@.len(),
        blo + n <= b@.len(),
    ensures
        r == (a@.subrange(alo as int, alo + n) == b@.subrange(blo as int, blo + n)),
{
    let alen = a.len();
    let blen = b.len();
    let mut i: usize = 0;
    while i < n
        invariant
            alen == a@.len(),
            blen == b@.len(),
            alo + n <= a@.len(),
            blo + n <= b@.len(),
            i <= n,
            forall|k: int| 0 <= k < i ==> #[trigger] a@.subrange(alo as int, alo + n)[k] == b@.subrange(blo as int, blo + n)[k],
        decreases n - i,
    {
        if a[alo + i] != b[blo + i] {
            assert(a@.subrange(alo as int, alo + n)[i as int] != b@.subrange(blo as int, blo + n)[i as int]);
            return false;
        }
        i = i + 1;
    }
    assert(a@.subrange(alo as int, alo + n) =~= b@.subrange(blo as int, blo + n));
    true
}

/// Character-wise equality of two strings.
pub fn str_eq(a: &str, b: &str) -> (r: bool)
    ensures
        r == (a@ == b@),
{
    let va = chars_of(a);
    let vb = chars_of(b);
    if va.len() != vb.len() {
        return false;
    }
    let r = range_eq(&va, 0, &vb, 0, va.len());
    assert(va@.subrange(0, va@.len() as int) =~= va@);
    assert(vb@.subrange(0, vb@.len() as int) =~= vb@);
    r
}

/// `str::starts_with` with a string pattern.
pub fn starts_with(s: &str, p: &str) -> (r: bool)
    ensures
        r == has_prefix(s@, p@),
{
    let vs = chars_of(s);
    let vp = chars_of(p);
    if vp.len() > vs.len() {
        return false;
    }
    let r = range_eq(&vs, 0, &vp, 0, vp.len());
    assert(vp@.subrange(0, vp@.len() as int) =~= vp@);
    r
}

/// `str::ends_with` with a string pattern.
pub fn ends_with(s: &str, p: &str) -> (r: bool)
    ensures
        r == has_suffix(s@, p@),
{
    let vs = chars_of(s);
    let vp = chars_of(p);
    if vp.len() > vs.len() {
        return false;
    }
    let r = range_eq(&vs, vs.len() - vp.len(), &vp, 0, vp.len());
    assert(vp@.subrange(0, vp@.len() as int) =~= vp@);
    r
}

/// `str::strip_prefix` with a string pattern.
pub fn strip_prefix(s: &str, p: &str) -> (r: Option<String>)
    ensures
        r is Some <==> has_prefix(s@, p@),
        r matches Some(t) ==> t@ == s@.subrange(p@.len() as int, s@.len() as int),
{
    let vs = chars_of(s);
    let vp = chars_of(p);
    if vp.len() > vs.len() {
        return None;
    }
    assert(vp@.subrange(0, vp@.len() as int) =~= vp@);
    if range_eq(&vs, 0, &vp, 0, vp.len()) {
        Some(string_of_range(&vs, vp.len(), vs.len()))
    } else {
        None
    }
}

/// `str::contains` with a string pattern.
pub fn contains_str(s: &str, n: &str) -> (r: bool)
    ensures
        r == has_infix(s@, n@),
{
    let vs = chars_of(s);
    let vn = chars_of(n);
    if vn.len() > vs.len() {
        assert(!has_infix(s@, n@));
        return false;
    }
    if vn.len() == 0 {
        assert(s@.subrange(0, 0int + n@.len()) =~= n@);
        return true;
    }
    let last = vs.len() - vn.len();
    let mut i: usize = 0;
    assert(vn@.subrange(0, vn@.len() as int) =~= vn@);
    while i <= last
        invariant
            vs@ == s@,
            vn@ == n@,
            last + vn@.len() == vs@.len(),
            vn@.len() > 0,
            last < usize::MAX,
            i <= last + 1,
            forall|k: int| 0 <= k < i ==> #[trigger] s@.subrange(k, k + n@.len()) != n@,
        decreases last + 1 - i,
    {
        if range_eq(&vs, i, &vn, 0, vn.len()) {
            assert(vn@.subrange(0, vn@.len() as int) =~= vn@);
            assert(s@.subrange(i as int, i + n@.len()) == n@);
            return true;
        }
        assert(vn@.subrange(0, vn@.len() as int) =~= vn@);
        i = i + 1;
    }
    false
}

/// `str::eq_ignore_ascii_case`.
pub fn eq_ignore_ascii_case(a: &str, b: &str) -> (r: bool)
    ensures
        r == eq_ascii_ci(a@, b@),
{
    let va = chars_of(a);
    let vb = chars_of(b);
    if va.len() != vb.len() {
        return false;
    }
    let mut i: usize = 0;
    while i < va.len()
        invariant
            va@ == a@,
            vb@ == b@,
            va@.len() == vb@.len(),
            i <= va@.len(),
            forall|k: int| 0 <= k < i ==> ascii_lower(#[trigger] a@[k]) == ascii_lower(b@[k]),
        decreases va.len() - i,
    {
        let x = va[i] as u32;
        let y = vb[i] as u32;
        let lx = if 0x41 <= x && x <= 0x5A { x + 0x20 } else { x };
        let ly = if 0x41 <= y && y <= 0x5A { y + 0x20 } else { y };
        if lx != ly {
            return false;
        }
        i = i + 1;
    }
    true
}

/// `str::trim`, as an owned string.
pub fn trim(s: &str) -> (r: String)
    ensures
        r@ == trim_seq(s@),
{
    let v = chars_of(s);
    let n = v.len();
    let mut lo: usize = 0;
    while lo < n && is_whitespace(v[lo])
        invariant
            v@ == s@,
            n == v@.len(),
            lo <= n,
            lead_from(s@, lo as int) == lead_from(s@, 0),
        decreases n - lo,
    {
        lo = lo + 1;
    }
    let mut hi: usize = n;
    while hi > 0 && is_whitespace(v[hi - 1])
        invariant
            v@ == s@,
            n == v@.len(),
            hi <= n,
            end_from(s@, hi as int) == end_from(s@, n as int),
        decreases hi,
    {
        hi = hi - 1;
    }
    assert(lead_from(s@, lo as int) == lo as int);
    assert(end_from(s@, hi as int) == hi as int);
    if lo < hi {
        string_of_range(&v, lo, hi)
    } else {
        String::new()
    }
}

/// `s` with each `from` replaced by `to`.
pub fn replace_char(s: &str, from: char, to: char) -> (r: String)
    ensures
        r@ == replace_char_seq(s@, from, to),
{
    let v = chars_of(s);
    let mut r = String::new();
    let mut i: usize = 0;
    while i < v.len()
        invariant
            v@ == s@,
            i <= v@.len(),
            r@ == replace_char_seq(s@.subrange(0, i as int), from, to),
        decreases v.len() - i,
    {
        let c = v[i];
        if c == from {
            push_char(&mut r, to);
        } else {
            push_char(&mut r, c);
        }
        i = i + 1;
        assert(r@ =~= replace_char_seq(s@.subrange(0, i as int), from, to));
    }
    assert(s@.subrange(0, v@.len() as int) =~= s@);
    r
}

} // verus!

//! Resident memory of the daemon, read from the kernel's `statm` record.
use vstd::prelude::*;
use crate::text::{is_ws, lead_from, is_whitespace, chars_of, string_of_range};
use crate::num::{parse_unsigned, parse_u64};

verus! {

/// Resident memory the daemon aims to stay under: 15 MiB.
pub const RSS_TARGET_MAX_BYTES: u64 = 15728640;

/// Index of the first whitespace character at or after `i` (or the length).
pub open spec fn token_end(s: Seq<char>, i: int) -> int
    decreases s.len() - i,
{
    if i < 0 || i >= s.len() {
        s.len() as int
    } else if is_ws(s[i]) {
        i
    } else {
        token_end(s, i + 1)
    }
}

/// Start and end of the first whitespace-separated field of `s[i..]`.
pub open spec fn field_bounds(s: Seq<char>, i: int) -> (int, int) {
    let a = lead_from(s, i);
    (a, token_end(s, a))
}

/// The number a field gives: its value as a `u64`, 0 where it is absent or
/// not a number.
pub open spec fn field_value(s: Seq<char>, a: int, b: int) -> nat {
    match parse_unsigned(s.subrange(a, b), u64::MAX as nat) {
        Some(x) => x,
        None => 0,
    }
}

/// Program size and resident set, in pages: the first two fields of `statm`.
pub open spec fn statm_pages(s: Seq<char>) -> (nat, nat) {
    let (a1, b1) = field_bounds(s, 0);
    let (a2, b2) = field_bounds(s, b1);
    (field_value(s, a1, b1), field_value(s, a2, b2))
}

/// Skips whitespace from `i`.
fn skip_ws(v: &Vec<char>, i: usize) -> (r: usize)
    requires
        i <= v@.len(),
    ensures
        r == lead_from(v@, i as int),
        i <= r <= v@.len(),
{
    let mut j = i;
    while j < v.len() && is_whitespace(v[j])
        invariant
            i <= j <= v@.len(),
            lead_from(v@, j as int) == lead_from(v@, i as int),
        decreases v.len() - j,
    {
        j = j + 1;
    }
    j
}

/// Skips non-whitespace from `i`.
fn skip_token(v: &Vec<char>, i: usize) -> (r: usize)
    requires
        i <= v@.len(),
    ensures
        r == token_end(v@, i as int),
        i <= r <= v@.len(),
{
    let mut j = i;
    while j < v.len() && !is_whitespace(v[j])
        invariant
            i <= j <= v@.len(),
            token_end(v@, j as int) == token_end(v@, i as int),
        decreases v.len() - j,
    {
        j = j + 1;
    }
    j
}

/// The value of the field `v[a..b]`, 0 where it is not a `u64`.
fn read_field(v: &Vec<char>, a: usize, b: usize) -> (n: u64)
    requires
        a <= b <= v@.len(),
    ensures
        n == field_value(v@, a as int, b as int),
{
    let t = string_of_range(v, a, b);
    match parse_u64(t.as_str()) {
        Some(x) => x,
        None => 0,
    }
}

/// The process' page size (`rustix::param::page_size`). The value depends on
/// the machine; nothing is claimed of it.
#[verifier::external_body]
fn system_page_size() -> (n: usize) {
    rustix::param::page_size()
}

/// Memory figures of the running daemon.
#[derive(Clone, Copy, Debug)]
pub struct MemoryStats {
    pub rss_bytes: u64,
    pub virt_bytes: u64,
    pub page_size: usize,
}

impl MemoryStats {
    /// Figures from the text of a `statm` record and the page size: the
    /// resident set is its second field, the program size its first, each
    /// times the page size (a missing or malformed field counts 0). `None`
    /// where a product does not fit in a `u64`.
    pub fn from_statm(statm: &str, page_size: usize) -> (m: Option<MemoryStats>)
        ensures
            ({
                let (size, resident) = statm_pages(statm@);
                &&& m is Some <==> (size * page_size <= u64::MAX && resident * page_size
                    <= u64::MAX)
                &&& m matches Some(x) ==> (x.rss_bytes == resident * page_size && x.virt_bytes
                    == size * page_size && x.page_size == page_size)
            }),
    {
        let v = chars_of(statm);
        let a1 = skip_ws(&v, 0);
        let b1 = skip_token(&v, a1);
        let a2 = skip_ws(&v, b1);
        let b2 = skip_token(&v, a2);
        let size = read_field(&v, a1, b1);
        let resident = read_field(&v, a2, b2);
        let ps = page_size as u64;
        let rss = resident.checked_mul(ps);
        let virt = size.checked_mul(ps);
        match (rss, virt) {
            (Some(r), Some(s)) => Some(MemoryStats { rss_bytes: r, virt_bytes: s, page_size }),
            _ => None,
        }
    }

    /// Figures of this process, given the text of its `statm` record (`None`
    /// where it could not be read). An unreadable record, or figures beyond
    /// a `u64`, give zero bytes; the page size is the machine's either way.
    pub fn read_from(statm: Option<&str>) -> (m: MemoryStats)
        ensures
            statm matches Some(t) ==> ({
                let (size, resident) = statm_pages(t@);
                (size * m.page_size <= u64::MAX && resident * m.page_size <= u64::MAX) ==> (
                m.rss_bytes == resident * m.page_size && m.virt_bytes == size * m.page_size)
            }),
            statm matches Some(t) ==> ({
                let (size, resident) = statm_pages(t@);
                !(size * m.page_size <= u64::MAX && resident * m.page_size <= u64::MAX) ==> (
                m.rss_bytes == 0 && m.virt_bytes == 0)
            }),
            statm is None ==> m.rss_bytes == 0 && m.virt_bytes == 0,
    {
        let ps = system_page_size();
        match statm {
            Some(t) => match MemoryStats::from_statm(t, ps) {
                Some(m) => m,
                None => MemoryStats { rss_bytes: 0, virt_bytes: 0, page_size: ps },
            },
            None => MemoryStats { rss_bytes: 0, virt_bytes: 0, page_size: ps },
        }
    }

    /// Whether the resident set is over the 15 MiB target.
    pub fn exceeds_target(&self) -> (b: bool)
        ensures
            b == (self.rss_bytes > RSS_TARGET_MAX_BYTES),
    {
        self.rss_bytes > RSS_TARGET_MAX_BYTES
    }
}

} // verus!

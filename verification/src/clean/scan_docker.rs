//! Docker size strings (`1.2GB`, `512MB`, `0B`) as a number and the bytes
//! per unit, and the build cache's reclaimable size among the entries of
//! `docker system df`.

use vstd::prelude::*;
use super::{scan_f_s, scan_number_word};
use crate::text::{chars_of, eq_str, string_of, to_upper, trim, trimmed, uppercase};

verus! {

/// The bytes per unit of a Docker size unit, by the first letter of its
/// uppercase form: `G`, `M`, `K` or `B`.
pub open spec fn docker_scale(unit: Seq<char>) -> Option<u64> {
    let u = uppercase(unit);
    if u.len() > 0 && u[0] == 'G' {
        Some(0x4000_0000)
    } else if u.len() > 0 && u[0] == 'M' {
        Some(0x10_0000)
    } else if u.len() > 0 && u[0] == 'K' {
        Some(1024)
    } else if u.len() > 0 && u[0] == 'B' {
        Some(1)
    } else {
        None
    }
}

/// A Docker size as the text of its number and the bytes per unit; none
/// for an empty size, `0B`, or an unknown unit (all of which are zero
/// bytes).
pub open spec fn docker_size(s: Seq<char>) -> Option<(Seq<char>, u64)> {
    let t = trim(s);
    if t.len() == 0 || t == "0B"@ {
        None
    } else {
        let (num, unit, n) = scan_number_word(t);
        match docker_scale(unit) {
            Some(k) => Some((num, k)),
            None => None,
        }
    }
}

/// Splits a Docker size into the text of its number and the bytes per unit
/// (the caller multiplies them); none when it counts as zero bytes.
pub fn docker_size_parts(s: &str) -> (r: Option<(String, u64)>)
    ensures
        match docker_size(s@) {
            Some((num, k)) => r matches Some((a, b)) && a@ == num && b == k,
            None => r is None,
        },
{
    let c = chars_of(s);
    let t = trimmed(c.as_slice());
    if t.len() == 0 || eq_str(t.as_slice(), "0B") {
        return None;
    }
    let ts = string_of(t.as_slice());
    let (num, unit, _n) = scan_f_s(ts.as_str());
    let up = chars_of(to_upper(unit.as_str()).as_str());
    if up.len() > 0 && up[0] == 'G' {
        Some((num, 0x4000_0000))
    } else if up.len() > 0 && up[0] == 'M' {
        Some((num, 0x10_0000))
    } else if up.len() > 0 && up[0] == 'K' {
        Some((num, 1024))
    } else if up.len() > 0 && up[0] == 'B' {
        Some((num, 1))
    } else {
        None
    }
}

/// The index of the first entry of type `Build Cache` (or the length).
pub open spec fn first_build_cache(entries: Seq<(String, String)>, i: int) -> int
    decreases entries.len() - i,
{
    if 0 <= i < entries.len() && entries[i].0@ != "Build Cache"@ {
        first_build_cache(entries, i + 1)
    } else {
        i
    }
}

/// The reclaimable size of the build cache: of the first `(type,
/// reclaimable)` entry of type `Build Cache`, as `docker_size_parts` splits
/// it; none when there is no such entry or it counts as zero bytes.
pub fn build_cache_size(entries: &[(String, String)]) -> (r: Option<(String, u64)>)
    ensures
        first_build_cache(entries@, 0) >= entries@.len() ==> r is None,
        first_build_cache(entries@, 0) < entries@.len() ==> match docker_size(
            entries@[first_build_cache(entries@, 0)].1@,
        ) {
            Some((num, k)) => r matches Some((a, b)) && a@ == num && b == k,
            None => r is None,
        },
{
    let mut i: usize = 0;
    while i < entries.len()
        invariant
            i <= entries@.len(),
            first_build_cache(entries@, 0) == first_build_cache(entries@, i as int),
        decreases entries.len() - i,
    {
        let t = chars_of(entries[i].0.as_str());
        if eq_str(t.as_slice(), "Build Cache") {
            return docker_size_parts(entries[i].1.as_str());
        }
        i += 1;
    }
    None
}

} // verus!

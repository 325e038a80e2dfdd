//! Disabled snap revisions, read from `snap list --all`, and the size
//! `du -sb` reports for one.

use vstd::prelude::*;
use crate::status::proc::{parse_u64, parse_u64_spec};
use crate::text::{chars_of, contains, eq, fields, split, split_fields, split_on, string_of, trim, trimmed, views};

verus! {

/// A disabled snap's name and revision.
#[derive(Debug, Clone)]
pub struct SnapRevision {
    pub name: String,
    pub revision: String,
}

/// The disabled revision a `snap list --all` row describes: a row of at
/// least six fields whose last field (the notes) mentions `disabled`.
pub open spec fn disabled_row(l: Seq<char>) -> Option<(Seq<char>, Seq<char>)> {
    let f = fields(trim(l));
    if trim(l).len() == 0 || f.len() < 6 {
        None
    } else if exists|k: int| crate::text::occurs_at(f.last(), "disabled"@, k) {
        Some((f[0], f[2]))
    } else {
        None
    }
}

/// The disabled revisions of the rows after the header, in order.
pub open spec fn disabled_rows(ls: Seq<Seq<char>>, n: int) -> Seq<(Seq<char>, Seq<char>)>
    decreases n,
{
    if n <= 1 || n > ls.len() {
        seq![]
    } else {
        disabled_rows(ls, n - 1) + match disabled_row(ls[n - 1]) {
            Some(r) => seq![r],
            None => seq![],
        }
    }
}

pub open spec fn revision_views(v: Seq<SnapRevision>) -> Seq<(Seq<char>, Seq<char>)> {
    v.map_values(|r: SnapRevision| (r.name@, r.revision@))
}

/// The disabled revisions listed by `snap list --all` (columns `Name
/// Version Rev Tracking Publisher Notes`; the first line is the header).
pub fn parse_disabled_snaps(output: &str) -> (r: Vec<SnapRevision>)
    ensures
        revision_views(r@) == disabled_rows(split(output@, '\n'), split(output@, '\n').len() as int),
{
    let c = chars_of(output);
    let ls = split_on(c.as_slice(), '\n');
    let ghost lv = views(ls@);
    let mut out: Vec<SnapRevision> = Vec::new();
    let mut i: usize = 0;
    while i < ls.len()
        invariant
            i <= ls@.len(),
            lv == views(ls@),
            revision_views(out@) == disabled_rows(lv, i as int),
        decreases ls.len() - i,
    {
        if i > 0 {
            let line = trimmed(ls[i].as_slice());
            if line.len() > 0 {
                let f = split_fields(line.as_slice());
                if f.len() >= 6 {
                    let notes = &f[f.len() - 1];
                    let mut d: Vec<char> = Vec::new();
                    crate::text::push_str(&mut d, "disabled");
                    proof {
                        reveal_strlit("disabled");
                    }
                    let has = contains(notes.as_slice(), d.as_slice());
                    assert(notes@ == views(f@).last());
                    assert(d@ == "disabled"@);
                    if has {
                        let ghost before = revision_views(out@);
                        out.push(SnapRevision { name: string_of(f[0].as_slice()), revision: string_of(f[2].as_slice()) });
                        assert(revision_views(out@) =~= before.push((views(f@)[0], views(f@)[2])));
                    }
                }
            }
        }
        i += 1;
    }
    out
}

/// A signed decimal as `str::parse::<i64>` reads it: an optional sign,
/// then digits, within the range of `i64`.
pub open spec fn parse_i64_spec(s: Seq<char>) -> Option<int> {
    if s.len() > 0 && s[0] == '-' {
        let rest = s.drop_first();
        if rest.len() > 0 && rest[0] == '+' {
            None
        } else {
            match parse_u64_spec(rest) {
                Ok(v) => if v <= 0x8000_0000_0000_0000 {
                    Some(-(v as int))
                } else {
                    None
                },
                Err(_) => None,
            }
        }
    } else {
        match parse_u64_spec(s) {
            Ok(v) => if v <= i64::MAX {
                Some(v as int)
            } else {
                None
            },
            Err(_) => None,
        }
    }
}

/// Parses a signed 64-bit decimal integer.
pub fn parse_i64(s: &[char]) -> (r: Option<i64>)
    ensures
        match parse_i64_spec(s@) {
            Some(v) => r == Some(v as i64),
            None => r is None,
        },
{
    if s.len() > 0 && s[0] == '-' {
        let rest = crate::text::slice_of(s, 1, s.len());
        assert(rest@ =~= s@.drop_first());
        if rest.len() > 0 && rest[0] == '+' {
            return None;
        }
        match parse_u64(rest.as_slice()) {
            Ok(v) => if v <= 0x8000_0000_0000_0000 {
                if v == 0x8000_0000_0000_0000 {
                    Some(i64::MIN)
                } else {
                    Some(-(v as i64))
                }
            } else {
                None
            },
            Err(_) => None,
        }
    } else {
        match parse_u64(s) {
            Ok(v) => if v <= i64::MAX as u64 {
                Some(v as i64)
            } else {
                None
            },
            Err(_) => None,
        }
    }
}

/// The bytes `du -sb` reports: its first field as a signed integer, when
/// it is one.
pub fn du_bytes(out: &str) -> (r: Option<i64>)
    ensures
        fields(out@).len() == 0 ==> r is None,
        fields(out@).len() > 0 ==> match parse_i64_spec(fields(out@)[0]) {
            Some(v) => r == Some(v as i64),
            None => r is None,
        },
{
    let c = chars_of(out);
    let fs = split_fields(c.as_slice());
    if fs.len() == 0 {
        return None;
    }
    assert(views(fs@)[0] == fs@[0]@);
    parse_i64(fs[0].as_slice())
}

} // verus!

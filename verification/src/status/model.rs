//! The status snapshot's plain values and their text forms.

use vstd::prelude::*;
use crate::fmt::{dec, fmt_u64};
use crate::size::{fmt_scaled, scaled};
use crate::text::{chars_of, push_str, string_of};

verus! {

/// Memory counters, in kilobytes.
#[derive(Debug, Clone, Copy, PartialEq, Eq, Default)]
pub struct MemStats {
    pub total_kb: u64,
    pub available_kb: u64,
    pub swap_total_kb: u64,
    pub swap_free_kb: u64,
}

/// One mounted filesystem's size and free space.
#[derive(Debug, Clone, PartialEq, Eq, Default)]
pub struct DiskStat {
    pub mount: String,
    pub total_bytes: u64,
    pub free_bytes: u64,
}

/// Cumulative bytes of one network interface.
#[derive(Debug, Clone, Copy, PartialEq, Eq, Default)]
pub struct NetStat {
    pub rx_bytes: u64,
    pub tx_bytes: u64,
}

/// Bytes per second of one network interface.
#[derive(Debug, Clone, Copy, PartialEq, Eq, Default)]
pub struct NetRate {
    pub rx_bytes_per_sec: u64,
    pub tx_bytes_per_sec: u64,
}

/// Raw CPU ticks of the `cpu` line of `/proc/stat`.
#[derive(Debug, Clone, Copy, PartialEq, Eq, Default)]
pub struct CPUSample {
    pub user: u64,
    pub nice: u64,
    pub system: u64,
    pub idle: u64,
    pub iowait: u64,
    pub irq: u64,
    pub softirq: u64,
    pub steal: u64,
}

/// The escape of one character for JSON embedded in HTML.
pub open spec fn html_escape_char(c: char) -> Seq<char> {
    if c == '&' {
        "\\u0026"@
    } else if c == '<' {
        "\\u003c"@
    } else if c == '>' {
        "\\u003e"@
    } else if c == '\u{2028}' {
        "\\u2028"@
    } else if c == '\u{2029}' {
        "\\u2029"@
    } else {
        seq![c]
    }
}

/// Every character of `s` escaped.
pub open spec fn html_escaped(s: Seq<char>) -> Seq<char>
    decreases s.len(),
{
    if s.len() == 0 {
        seq![]
    } else {
        html_escaped(s.drop_last()) + html_escape_char(s.last())
    }
}

/// The characters escaped for HTML: `&`, `<`, `>`, U+2028 and U+2029.
pub open spec fn html_unsafe(c: char) -> bool {
    c == '&' || c == '<' || c == '>' || c == '\u{2028}' || c == '\u{2029}'
}

/// Escaped text holds none of the characters escaped for HTML, and text
/// that holds none of them is left as it is.
pub proof fn law_html_escaped_safe(s: Seq<char>)
    ensures
        forall|i: int| 0 <= i < html_escaped(s).len() ==> !html_unsafe(#[trigger] html_escaped(s)[i]),
        (forall|i: int| 0 <= i < s.len() ==> !html_unsafe(#[trigger] s[i])) ==> html_escaped(s) == s,
    decreases s.len(),
{
    reveal_strlit("\\u0026");
    reveal_strlit("\\u003c");
    reveal_strlit("\\u003e");
    reveal_strlit("\\u2028");
    reveal_strlit("\\u2029");
    if s.len() > 0 {
        law_html_escaped_safe(s.drop_last());
        let a = html_escaped(s.drop_last());
        let b = html_escape_char(s.last());
        assert forall|i: int| 0 <= i < b.len() implies !html_unsafe(#[trigger] b[i]) by {}
        assert forall|i: int| 0 <= i < html_escaped(s).len() implies !html_unsafe(#[trigger] html_escaped(s)[i]) by {
            if i < a.len() {
                assert(html_escaped(s)[i] == a[i]);
            } else {
                assert(html_escaped(s)[i] == b[i - a.len()]);
            }
        }
        if forall|i: int| 0 <= i < s.len() ==> !html_unsafe(#[trigger] s[i]) {
            assert(!html_unsafe(s[s.len() - 1]));
            assert forall|i: int| 0 <= i < s.drop_last().len() implies !html_unsafe(#[trigger] s.drop_last()[i]) by {
                assert(s.drop_last()[i] == s[i]);
            }
            assert(html_escaped(s) =~= s.drop_last().push(s.last()));
            assert(s.drop_last().push(s.last()) =~= s);
        }
    }
}

/// Escapes `&`, `<`, `>`, U+2028 and U+2029 in a JSON document as `\u00XX`
/// escapes, as an HTML-safe JSON encoder does. None of them can occur in JSON
/// outside string literals, so escaping the whole document is exact.
pub fn escape_html_json(text: &str) -> (r: String)
    ensures
        r@ == html_escaped(text@),
{
    let c = chars_of(text);
    let mut out: Vec<char> = Vec::new();
    let mut i: usize = 0;
    while i < c.len()
        invariant
            i <= c@.len(),
            c@ == text@,
            out@ == html_escaped(c@.subrange(0, i as int)),
        decreases c.len() - i,
    {
        let ch = c[i];
        if ch == '&' {
            push_str(&mut out, "\\u0026");
        } else if ch == '<' {
            push_str(&mut out, "\\u003c");
        } else if ch == '>' {
            push_str(&mut out, "\\u003e");
        } else if ch == '\u{2028}' {
            push_str(&mut out, "\\u2028");
        } else if ch == '\u{2029}' {
            push_str(&mut out, "\\u2029");
        } else {
            out.push(ch);
        }
        assert(c@.subrange(0, i + 1).drop_last() =~= c@.subrange(0, i as int));
        i += 1;
    }
    assert(c@.subrange(0, i as int) =~= c@);
    string_of(out.as_slice())
}

/// `N B` under 1024 bytes, else one decimal and a binary unit.
pub open spec fn bytes_text(b: nat) -> Seq<char> {
    if b < 1024 {
        dec(b) + " B"@
    } else {
        scaled(b)
    }
}

/// A byte count as `N B` or `X.Y KB` to `X.Y EB`.
pub fn human_bytes(b: u64) -> (s: String)
    ensures
        s@ == bytes_text(b as nat),
{
    if b < 1024 {
        let mut v = fmt_u64(b);
        push_str(&mut v, " B");
        return string_of(v.as_slice());
    }
    let v = fmt_scaled(b);
    string_of(v.as_slice())
}

/// A kilobyte count as bytes: `0 B` for zero, else `kb * 1024` bytes.
pub fn human_kb(kb: u64) -> (s: String)
    requires
        kb * 1024 <= u64::MAX,
    ensures
        s@ == (if kb == 0 {
            "0 B"@
        } else {
            bytes_text((kb * 1024) as nat)
        }),
{
    if kb == 0 {
        return String::from_str("0 B");
    }
    human_bytes(kb * 1024)
}

} // verus!

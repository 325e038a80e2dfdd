//! Fitting labels to a width on the status dashboard, and how a metric
//! line shares the width between its label, its bar and its text.

use vstd::prelude::*;
use crate::audit::findings::{id_lt, lemma_id_lt_asymmetric, lemma_id_lt_total, lemma_id_lt_transitive};
use crate::status::model::{bytes_text, human_bytes};
use crate::text::{chars_of, left_aligned, push_all, push_left, push_str, string_of, string_views, views};
use super::{Key, KeyEvent, ctrl_c, is_ctrl_c};

verus! {

/// `s` cut to at most `max` characters, an ellipsis marking a cut.
pub open spec fn truncated(s: Seq<char>, max: nat) -> Seq<char> {
    if max == 0 {
        seq![]
    } else if s.len() <= max {
        s
    } else {
        s.subrange(0, max - 1) + seq!['…']
    }
}

/// Truncates `s` to at most `max` characters, ending a cut with `…`.
pub fn truncate_width(s: &str, max: usize) -> (r: String)
    ensures
        r@ == truncated(s@, max as nat),
{
    if max == 0 {
        return String::new();
    }
    let c = chars_of(s);
    if c.len() <= max {
        return String::from_str(s);
    }
    let mut t = crate::text::slice_of(c.as_slice(), 0, max - 1);
    t.push('…');
    string_of(t.as_slice())
}

/// `label` truncated to `width` and padded with spaces to it.
pub open spec fn padded(label: Seq<char>, width: nat) -> Seq<char> {
    let t = truncated(label, width);
    if t.len() >= width {
        t
    } else {
        t + Seq::new((width - t.len()) as nat, |i: int| ' ')
    }
}

/// A truncated text never exceeds its limit, and a padded label is exactly
/// its width.
pub proof fn law_fit_width(s: Seq<char>, w: nat)
    ensures
        truncated(s, w).len() <= w,
        padded(s, w).len() == w,
{
}

/// Pads (or truncates) a label to exactly `width` characters.
pub fn pad_label(label: &str, width: usize) -> (r: String)
    ensures
        r@ == padded(label@, width as nat),
{
    let t = truncate_width(label, width);
    let mut c = chars_of(t.as_str());
    if c.len() >= width {
        return t;
    }
    let ghost base = c@;
    let n = width - c.len();
    let mut i: usize = 0;
    while i < n
        invariant
            i <= n,
            n == width - base.len(),
            c@ == base + Seq::new(i as nat, |k: int| ' '),
        decreases n - i,
    {
        c.push(' ');
        assert(c@ =~= base + Seq::new((i + 1) as nat, |k: int| ' '));
        i += 1;
    }
    string_of(c.as_slice())
}

/// How a metric line is laid out: a label column, then a bar of `bar_w`
/// cells followed by the wide text (`wide`) or the short one; or, with no
/// room for a bar, the label and the short text alone.
#[derive(Clone, Copy, Debug, PartialEq, Eq, Structural)]
pub enum MetricLayout {
    Bar { label_w: usize, bar_w: usize, wide: bool },
    Text { label_w: usize },
}

/// The terminal width, 80 when unknown (0).
pub open spec fn eff_width(w: nat) -> nat {
    if w == 0 {
        80
    } else {
        w
    }
}

/// The label column: the preferred width, but no wider than what leaves
/// room for the short text and three cells, and at least one.
pub open spec fn metric_label_width(pref: nat, primary_len: nat, w: nat) -> nat {
    let room = if eff_width(w) >= 3 + primary_len {
        (eff_width(w) - 3 - primary_len) as nat
    } else {
        0
    };
    let l = if pref > room {
        room
    } else {
        pref
    };
    if l < 1 {
        1
    } else {
        l
    }
}

/// The cells left for a bar beside an indented label column of `lw` and a
/// text of `text_len`, at most forty.
pub open spec fn bar_room(w: nat, lw: nat, text_len: nat) -> nat {
    let used = 2 + lw + 3 + text_len;
    let b = if eff_width(w) >= used {
        (eff_width(w) - used) as nat
    } else {
        0
    };
    if b > 40 {
        40
    } else {
        b
    }
}

/// The layout: a bar with the wide text when it fits; else, when the short
/// text differs, a bar with the short text when that fits; else the text.
pub open spec fn layout(pref: nat, wide_len: nat, primary_len: nat, same: bool, w: nat) -> MetricLayout {
    let lw = metric_label_width(pref, primary_len, w);
    if bar_room(w, lw, wide_len) >= 1 {
        MetricLayout::Bar { label_w: lw as usize, bar_w: bar_room(w, lw, wide_len) as usize, wide: true }
    } else if !same && bar_room(w, lw, primary_len) >= 1 {
        MetricLayout::Bar { label_w: lw as usize, bar_w: bar_room(w, lw, primary_len) as usize, wide: false }
    } else {
        MetricLayout::Text { label_w: lw as usize }
    }
}

fn room_for_bar(w: u128, lw: u128, text_len: u128) -> (b: u128)
    requires
        w <= usize::MAX,
        lw <= usize::MAX,
        text_len <= usize::MAX,
    ensures
        b == bar_room(w as nat, lw as nat, text_len as nat),
        b <= 40,
{
    let ew: u128 = if w == 0 { 80 } else { w };
    let used = 2 + lw + 3 + text_len;
    let b = if ew >= used { ew - used } else { 0 };
    if b > 40 { 40 } else { b }
}

/// Lays out a metric line of the preferred label width, with the wide and
/// short texts, on a terminal `width` cells wide (0 when unknown).
pub fn metric_layout(preferred: usize, wide: &str, primary: &str, width: usize) -> (r: MetricLayout)
    ensures
        r == layout(preferred as nat, wide@.len(), primary@.len(), wide@ == primary@, width as nat),
{
    let wc = chars_of(wide);
    let pc = chars_of(primary);
    let w = width as u128;
    let ew: u128 = if w == 0 { 80 } else { w };
    let room: u128 = if ew >= 3 + pc.len() as u128 { ew - 3 - pc.len() as u128 } else { 0 };
    let l: u128 = if preferred as u128 > room { room } else { preferred as u128 };
    let lw: u128 = if l < 1 { 1 } else { l };
    assert(lw == metric_label_width(preferred as nat, primary@.len(), width as nat));
    assert(lw <= usize::MAX);
    let b1 = room_for_bar(w, lw, wc.len() as u128);
    if b1 >= 1 {
        return MetricLayout::Bar { label_w: lw as usize, bar_w: b1 as usize, wide: true };
    }
    let same = crate::text::eq(wc.as_slice(), pc.as_slice());
    let b2 = room_for_bar(w, lw, pc.len() as u128);
    if !same && b2 >= 1 {
        return MetricLayout::Bar { label_w: lw as usize, bar_w: b2 as usize, wide: false };
    }
    MetricLayout::Text { label_w: lw as usize }
}

/// Whether a key quits the dashboard: `q` or `Q`.
pub fn quit_key(key: Key) -> (b: bool)
    ensures
        b == (key == Key::Char('q') || key == Key::Char('Q')),
{
    key == Key::Char('q') || key == Key::Char('Q')
}

/// Whether a key event quits the dashboard: Ctrl+C, or `q`/`Q` without
/// Control or Alt.
pub fn quit_key_event(key: KeyEvent) -> (b: bool)
    ensures
        b == (ctrl_c(key) || (!key.ctrl && !key.alt && (key.code == Key::Char('q') || key.code == Key::Char('Q')))),
{
    if is_ctrl_c(&key) {
        return true;
    }
    if key.ctrl || key.alt {
        return false;
    }
    quit_key(key.code)
}

/// The dashboard line of one interface: its name left-aligned in ten
/// columns, then the send and receive rates.
pub open spec fn net_line(name: Seq<char>, rx: u64, tx: u64) -> Seq<char> {
    "  "@ + left_aligned(name, 10) + "  ↑ "@ + bytes_text(tx as nat) + "/s  ↓ "@ + bytes_text(rx as nat) + "/s"@
}

/// The lines of the interfaces with traffic, in the given order; each rate
/// is `(name, received per second, sent per second)`.
pub open spec fn active_net_lines(rates: Seq<(String, u64, u64)>) -> Seq<Seq<char>>
    decreases rates.len(),
{
    if rates.len() == 0 {
        seq![]
    } else {
        let r = rates.last();
        active_net_lines(rates.drop_last()) + if r.1 != 0 || r.2 != 0 {
            seq![net_line(r.0@, r.1, r.2)]
        } else {
            seq![]
        }
    }
}

/// The texts are in string order.
pub open spec fn texts_sorted(s: Seq<Seq<char>>) -> bool {
    forall|k: int, l: int| 0 <= k < l < s.len() ==> !id_lt(#[trigger] s[l], #[trigger] s[k])
}

fn net_line_chars(name: &String, rx: u64, tx: u64) -> (t: Vec<char>)
    ensures
        t@ == net_line(name@, rx, tx),
{
    let mut t: Vec<char> = Vec::new();
    push_str(&mut t, "  ");
    let n = chars_of(name.as_str());
    push_left(&mut t, n.as_slice(), 10);
    push_str(&mut t, "  ↑ ");
    let up = human_bytes(tx);
    let uc = chars_of(up.as_str());
    push_all(&mut t, uc.as_slice());
    push_str(&mut t, "/s  ↓ ");
    let down = human_bytes(rx);
    let dc = chars_of(down.as_str());
    push_all(&mut t, dc.as_slice());
    push_str(&mut t, "/s");
    t
}

/// The network section's lines: one per interface with traffic, sorted.
pub fn network_lines(rates: &[(String, u64, u64)]) -> (r: Vec<String>)
    ensures
        string_views(r@).to_multiset() == active_net_lines(rates@).to_multiset(),
        texts_sorted(string_views(r@)),
{
    let mut out: Vec<Vec<char>> = Vec::new();
    let mut i: usize = 0;
    assert(views(out@) =~= active_net_lines(rates@.subrange(0, 0)));
    while i < rates.len()
        invariant
            i <= rates@.len(),
            views(out@).to_multiset() == active_net_lines(rates@.subrange(0, i as int)).to_multiset(),
            texts_sorted(views(out@)),
        decreases rates.len() - i,
    {
        assert(rates@.subrange(0, i + 1).drop_last() =~= rates@.subrange(0, i as int));
        let (name, rx, tx) = (&rates[i].0, rates[i].1, rates[i].2);
        if rx != 0 || tx != 0 {
            let line = net_line_chars(name, rx, tx);
            let ghost vo = views(out@);
            let mut pos: usize = 0;
            while pos < out.len() && !crate::audit::findings::id_less(line.as_slice(), out[pos].as_slice())
                invariant
                    pos <= out@.len(),
                    vo == views(out@),
                    forall|k: int| 0 <= k < pos ==> !id_lt(line@, #[trigger] vo[k]),
                decreases out.len() - pos,
            {
                pos += 1;
            }
            proof {
                assert forall|k: int| pos <= k < vo.len() implies id_lt(line@, #[trigger] vo[k]) by {
                    assert(id_lt(line@, vo[pos as int]));
                    if k > pos {
                        assert(!id_lt(vo[k], vo[pos as int]));
                        lemma_id_lt_total(vo[k], vo[pos as int]);
                        if vo[k] != vo[pos as int] {
                            lemma_id_lt_transitive(line@, vo[pos as int], vo[k]);
                        }
                    }
                }
            }
            out.insert(pos, line);
            proof {
                let nv = views(out@);
                assert(nv =~= vo.insert(pos as int, line@));
                assert forall|k: int, l: int| 0 <= k < l < nv.len() implies !id_lt(#[trigger] nv[l], #[trigger] nv[k]) by {
                    if l < pos {
                        assert(nv[k] == vo[k] && nv[l] == vo[l]);
                    } else if l == pos {
                        assert(nv[l] == line@ && nv[k] == vo[k]);
                        lemma_id_lt_total(line@, vo[k]);
                        lemma_id_lt_asymmetric(line@, vo[k]);
                    } else if k == pos {
                        assert(nv[k] == line@ && nv[l] == vo[l - 1]);
                        lemma_id_lt_asymmetric(line@, vo[l - 1]);
                    } else if k < pos {
                        assert(nv[k] == vo[k] && nv[l] == vo[l - 1]);
                        lemma_id_lt_asymmetric(line@, vo[l - 1]);
                        lemma_id_lt_total(line@, vo[k]);
                        if id_lt(vo[l - 1], vo[k]) {
                            lemma_id_lt_transitive(line@, vo[l - 1], vo[k]);
                        }
                    } else {
                        assert(nv[k] == vo[k - 1] && nv[l] == vo[l - 1]);
                    }
                }
                vstd::seq_lib::to_multiset_insert(vo, pos as int, line@);
                assert(active_net_lines(rates@.subrange(0, i + 1)) =~= active_net_lines(rates@.subrange(0, i as int)).push(
                    line@,
                ));
                vstd::seq_lib::to_multiset_build(active_net_lines(rates@.subrange(0, i as int)), line@);
            }
        } else {
            assert(active_net_lines(rates@.subrange(0, i + 1)) =~= active_net_lines(rates@.subrange(0, i as int)));
        }
        i += 1;
    }
    assert(rates@.subrange(0, rates@.len() as int) =~= rates@);
    let mut r: Vec<String> = Vec::new();
    let mut j: usize = 0;
    while j < out.len()
        invariant
            j <= out@.len(),
            string_views(r@) =~= views(out@).subrange(0, j as int),
        decreases out.len() - j,
    {
        let t = string_of(out[j].as_slice());
        let ghost before = string_views(r@);
        let ghost tv = t@;
        r.push(t);
        assert(string_views(r@) =~= before.push(tv));
        assert(views(out@)[j as int] == out@[j as int]@);
        assert(string_views(r@) =~= views(out@).subrange(0, j + 1));
        j += 1;
    }
    assert(string_views(r@) =~= views(out@));
    r
}

/// A line for a metric that could not be read, cut to the width.
pub fn unavailable_line(err: &str, width: usize) -> (r: String)
    ensures
        r@ == truncated("  Unavailable: "@ + err@, width as nat),
{
    let mut t: Vec<char> = Vec::new();
    push_str(&mut t, "  Unavailable: ");
    let e = chars_of(err);
    push_all(&mut t, e.as_slice());
    let s = string_of(t.as_slice());
    truncate_width(s.as_str(), width)
}

} // verus!

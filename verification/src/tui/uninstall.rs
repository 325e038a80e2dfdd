//! The uninstall browser: type to search installed packages, select with
//! Space, confirm with YES/NO (NO by default).

use vstd::prelude::*;
use super::{Key, KeyEvent, ctrl_c, is_ctrl_c};
use crate::text::{chars_of, contains, lowercase, occurs_at, push_all, push_str, string_of, to_lower, trim_start, trimmed_start};
use super::line::{LineV, Span, Tone, blank, button_line, frame_text, lines_view, one, push_blank, push_buttons, push_lit, push_one, spinner_frame};
use crate::fmt::{dec, fmt_u128, fmt_u64};
use crate::status::proc::{parse_u64, parse_u64_spec};
use crate::text::{fields, lines, split, split_fields, split_lines, split_on, trim, trimmed, views};
use crate::size::{human, human_size};

verus! {

/// An installed package and what it leaves behind.
#[derive(Clone, Debug, Default)]
pub struct Package {
    pub name: String,
    pub source: String,
    pub version: String,
    pub installed_kb: u64,
    pub remnants_kb: u64,
    pub remnants_found: Vec<String>,
}

/// The abstract value of a package.
pub open spec fn pkg_view(p: Package) -> (Seq<char>, Seq<char>, Seq<char>, u64, u64, Seq<Seq<char>>) {
    (p.name@, p.source@, p.version@, p.installed_kb, p.remnants_kb, crate::text::string_views(p.remnants_found@))
}

/// The abstract value of a listed package.
pub open spec fn item_view(it: PkgItem) -> ((Seq<char>, Seq<char>, Seq<char>, u64, u64, Seq<Seq<char>>), bool) {
    (pkg_view(it.pkg), it.selected)
}

pub open spec fn item_views(v: Seq<PkgItem>) -> Seq<((Seq<char>, Seq<char>, Seq<char>, u64, u64, Seq<Seq<char>>), bool)> {
    v.map_values(|it: PkgItem| item_view(it))
}

/// The selection key of a package: `<source>:<name>`.
pub open spec fn pkg_key(p: Package) -> Seq<char> {
    p.source@ + ":"@ + p.name@
}

impl Package {
    /// `<source>:<name>`.
    pub fn key(&self) -> (k: String)
        ensures
            k@ == pkg_key(*self),
    {
        let mut t = chars_of(self.source.as_str());
        push_str(&mut t, ":");
        let n = chars_of(self.name.as_str());
        push_all(&mut t, n.as_slice());
        string_of(t.as_slice())
    }

    /// A field-by-field copy.
    pub fn copy(&self) -> (p: Package)
        ensures
            pkg_view(p) == pkg_view(*self),
    {
        let mut rem: Vec<String> = Vec::new();
        let mut i: usize = 0;
        while i < self.remnants_found.len()
            invariant
                i <= self.remnants_found@.len(),
                rem@ == self.remnants_found@.subrange(0, i as int),
            decreases self.remnants_found.len() - i,
        {
            rem.push(self.remnants_found[i].clone());
            assert(rem@ =~= self.remnants_found@.subrange(0, i + 1));
            i += 1;
        }
        assert(rem@ =~= self.remnants_found@);
        Package {
            name: self.name.clone(),
            source: self.source.clone(),
            version: self.version.clone(),
            installed_kb: self.installed_kb,
            remnants_kb: self.remnants_kb,
            remnants_found: rem,
        }
    }
}

/// The browser's phase.
#[derive(Clone, Copy, Debug, PartialEq, Eq, Structural)]
pub enum Phase {
    Search,
    Confirm,
    Done,
}

/// One listed package and whether it is selected.
#[derive(Clone, Debug)]
pub struct PkgItem {
    pub pkg: Package,
    pub selected: bool,
}

impl PkgItem {
    pub fn copy(&self) -> (it: PkgItem)
        ensures
            item_view(it) == item_view(*self),
    {
        PkgItem { pkg: self.pkg.copy(), selected: self.selected }
    }
}

/// The packages found, and the error of discovering them, if any.
pub struct LoadResult {
    pub items: Vec<PkgItem>,
    pub discovery_err: Option<String>,
}

/// The browser's state.
#[derive(Clone, Debug)]
pub struct UninstallTui {
    pub phase: Phase,
    pub spinner_idx: usize,
    pub all_items: Vec<PkgItem>,
    pub items: Vec<PkgItem>,
    pub query: String,
    pub loaded: bool,
    pub discovery_err: Option<String>,
    pub cursor: usize,
    /// Selection changes by package key, in order; the last one for a key
    /// holds.
    pub selected: Vec<(String, bool)>,
    pub window_width: u16,
    pub window_h: u16,
    pub scroll_off: usize,
    /// 0 is YES, 1 is NO.
    pub confirm_cursor: usize,
}

/// Whether a package's name contains the query, ignoring case.
pub open spec fn name_matches(it: PkgItem, q: Seq<char>) -> bool {
    exists|k: int| occurs_at(lowercase(it.pkg.name@), lowercase(q), k)
}

/// The packages whose names contain the query (none for an empty query).
pub open spec fn filtered(all: Seq<PkgItem>, q: Seq<char>) -> Seq<PkgItem> {
    if q.len() == 0 {
        seq![]
    } else {
        all.filter(|it: PkgItem| name_matches(it, q))
    }
}

/// The search keeps exactly the packages whose lowercased name holds the
/// lowercased query somewhere (at the start, the end or in between); an
/// empty query keeps none.
pub proof fn law_search_finds_substrings(all: Seq<PkgItem>, q: Seq<char>)
    ensures
        q.len() == 0 ==> filtered(all, q).len() == 0,
        q.len() > 0 ==> forall|i: int|
            0 <= i < all.len() && (exists|k: int|
                0 <= k && k + lowercase(q).len() <= lowercase(#[trigger] all[i].pkg.name@).len()
                    && #[trigger] lowercase(all[i].pkg.name@).subrange(k, k + lowercase(q).len()) == lowercase(q))
                ==> filtered(all, q).contains(all[i]),
        forall|j: int|
            0 <= j < filtered(all, q).len() ==> all.contains(#[trigger] filtered(all, q)[j]) && exists|k: int|
                0 <= k && k + lowercase(q).len() <= lowercase(filtered(all, q)[j].pkg.name@).len()
                    && #[trigger] lowercase(filtered(all, q)[j].pkg.name@).subrange(k, k + lowercase(q).len()) == lowercase(q),
{
    let pred = |it: PkgItem| name_matches(it, q);
    if q.len() > 0 {
        assert forall|i: int|
            0 <= i < all.len() && (exists|k: int|
                0 <= k && k + lowercase(q).len() <= lowercase(#[trigger] all[i].pkg.name@).len()
                    && #[trigger] lowercase(all[i].pkg.name@).subrange(k, k + lowercase(q).len()) == lowercase(q))
            implies filtered(all, q).contains(all[i]) by {
            let k = choose|k: int|
                0 <= k && k + lowercase(q).len() <= lowercase(all[i].pkg.name@).len()
                    && #[trigger] lowercase(all[i].pkg.name@).subrange(k, k + lowercase(q).len()) == lowercase(q);
            assert(occurs_at(lowercase(all[i].pkg.name@), lowercase(q), k));
            assert(pred(all[i]));
            all.lemma_filter_contains(pred, i);
        }
        assert forall|j: int| 0 <= j < filtered(all, q).len() implies all.contains(#[trigger] filtered(all, q)[j])
            && exists|k: int|
            0 <= k && k + lowercase(q).len() <= lowercase(filtered(all, q)[j].pkg.name@).len()
                && #[trigger] lowercase(filtered(all, q)[j].pkg.name@).subrange(k, k + lowercase(q).len()) == lowercase(q) by {
            all.lemma_filter_pred(pred, j);
            all.lemma_filter_contains_rev(pred, all.filter(pred)[j]);
            let it = all.filter(pred)[j];
            let k = choose|k: int| occurs_at(lowercase(it.pkg.name@), lowercase(q), k);
            assert(occurs_at(lowercase(it.pkg.name@), lowercase(q), k));
        }
    }
}

/// The packages whose names contain `query`, ignoring case; none for an
/// empty query.
pub fn filter_items(all: &Vec<PkgItem>, query: &str) -> (r: Vec<PkgItem>)
    ensures
        item_views(r@) == item_views(filtered(all@, query@)),
{
    let qc = chars_of(query);
    if qc.len() == 0 {
        let r: Vec<PkgItem> = Vec::new();
        assert(item_views(r@) =~= item_views(filtered(all@, query@)));
        return r;
    }
    let ql = to_lower(query);
    let qlc = chars_of(ql.as_str());
    let mut out: Vec<PkgItem> = Vec::new();
    let mut i: usize = 0;
    while i < all.len()
        invariant
            i <= all@.len(),
            query@.len() > 0,
            qlc@ == lowercase(query@),
            item_views(out@) == item_views(all@.subrange(0, i as int).filter(|it: PkgItem| name_matches(it, query@))),
        decreases all.len() - i,
    {
        proof {
            reveal(Seq::filter);
            assert(all@.subrange(0, i + 1).drop_last() =~= all@.subrange(0, i as int));
        }
        let nl = to_lower(all[i].pkg.name.as_str());
        let nlc = chars_of(nl.as_str());
        let ghost before = item_views(out@);
        if contains(nlc.as_slice(), qlc.as_slice()) {
            out.push(all[i].copy());
            assert(item_views(out@) =~= before.push(item_view(all@[i as int])));
        }
        i += 1;
    }
    assert(all@.subrange(0, i as int) =~= all@);
    out
}

/// The value of the last selection change for `k` (false when none).
pub open spec fn sel_get(v: Seq<(String, bool)>, k: Seq<char>) -> bool
    decreases v.len(),
{
    if v.len() == 0 {
        false
    } else if v.last().0@ == k {
        v.last().1
    } else {
        sel_get(v.drop_last(), k)
    }
}

/// Whether some package is selected.
pub open spec fn any_selected(v: Seq<(String, bool)>) -> bool {
    exists|k: Seq<char>| sel_get(v, k)
}

/// Rows of the package list: the window height less seven, at least three.
pub open spec fn list_rows(h: u16) -> int {
    if h as int - 7 < 3 {
        3
    } else {
        h as int - 7
    }
}

/// Whether a character is a control character (Unicode category Cc).
pub open spec fn is_control(c: char) -> bool {
    (c as u32) <= 0x1F || (0x7F <= (c as u32) && (c as u32) <= 0x9F)
}

/// Whether a confirm key toggles between YES and NO.
pub open spec fn toggles(k: Key) -> bool {
    k == Key::Left || k == Key::Char('h') || k == Key::Right || k == Key::Char('l') || k == Key::Tab
}

fn sel_lookup(v: &Vec<(String, bool)>, k: &String) -> (b: bool)
    ensures
        b == sel_get(v@, k@),
{
    let kc = chars_of(k.as_str());
    let mut i = v.len();
    assert(v@.subrange(0, v@.len() as int) =~= v@);
    while i > 0
        invariant
            i <= v@.len(),
            kc@ == k@,
            sel_get(v@, k@) == sel_get(v@.subrange(0, i as int), k@),
        decreases i,
    {
        let c = chars_of(v[i - 1].0.as_str());
        assert(v@.subrange(0, i as int).drop_last() =~= v@.subrange(0, i - 1));
        if crate::text::eq(c.as_slice(), kc.as_slice()) {
            return v[i - 1].1;
        }
        i -= 1;
    }
    false
}

fn selection_nonempty(v: &Vec<(String, bool)>) -> (b: bool)
    ensures
        b == any_selected(v@),
{
    let mut i: usize = 0;
    while i < v.len()
        invariant
            i <= v@.len(),
            forall|j: int| 0 <= j < i ==> !sel_get(v@, #[trigger] v@[j].0@),
        decreases v.len() - i,
    {
        if sel_lookup(v, &v[i].0) {
            return true;
        }
        i += 1;
    }
    proof {
        assert forall|k: Seq<char>| !sel_get(v@, k) by {
            lemma_sel_get_from_entry(v@, k);
            if sel_get(v@, k) {
                let j = choose|j: int| 0 <= j < v@.len() && v@[j].0@ == k;
                assert(!sel_get(v@, v@[j].0@));
            }
        }
    }
    false
}

pub proof fn lemma_sel_get_from_entry(v: Seq<(String, bool)>, k: Seq<char>)
    ensures
        sel_get(v, k) ==> exists|j: int| 0 <= j < v.len() && v[j].0@ == k,
    decreases v.len(),
{
    if v.len() > 0 && v.last().0@ != k {
        lemma_sel_get_from_entry(v.drop_last(), k);
        if sel_get(v, k) {
            let j = choose|j: int| 0 <= j < v.drop_last().len() && v.drop_last()[j].0@ == k;
            assert(v[j].0@ == k);
        }
    }
}

impl UninstallTui {
    /// A browser searching, nothing loaded yet, confirm on NO.
    pub fn new() -> (t: UninstallTui)
        ensures
            t.phase == Phase::Search && t.spinner_idx == 0 && t.all_items@.len() == 0 && t.items@.len() == 0
                && t.query@.len() == 0 && !t.loaded && t.discovery_err is None && t.cursor == 0
                && t.selected@.len() == 0 && t.window_width == 80 && t.window_h == 24 && t.scroll_off == 0
                && t.confirm_cursor == 1,
    {
        UninstallTui {
            phase: Phase::Search,
            spinner_idx: 0,
            all_items: Vec::new(),
            items: Vec::new(),
            query: String::new(),
            loaded: false,
            discovery_err: None,
            cursor: 0,
            selected: Vec::new(),
            window_width: 80,
            window_h: 24,
            scroll_off: 0,
            confirm_cursor: 1,
        }
    }

    /// Takes in the loaded packages: the list is filtered by the current
    /// query and the cursor and scroll return to the top.
    pub fn apply_load_result(&mut self, result: LoadResult)
        ensures
            final(self).discovery_err == result.discovery_err,
            final(self).all_items == result.items,
            final(self).loaded,
            item_views(final(self).items@) == item_views(filtered(result.items@, old(self).query@)),
            final(self).cursor == 0 && final(self).scroll_off == 0,
            final(self).query == old(self).query && final(self).phase == old(self).phase,
            final(self).selected == old(self).selected,
    {
        self.discovery_err = result.discovery_err;
        self.all_items = result.items;
        self.loaded = true;
        self.items = filter_items(&self.all_items, self.query.as_str());
        self.cursor = 0;
        self.scroll_off = 0;
    }

    /// Advances the loading spinner (ten frames) while nothing is loaded.
    pub fn tick(&mut self)
        requires
            old(self).spinner_idx < usize::MAX,
        ensures
            final(self).spinner_idx == if old(self).loaded {
                old(self).spinner_idx
            } else {
                ((old(self).spinner_idx + 1) % 10) as usize
            },
            final(self).loaded == old(self).loaded,
    {
        if !self.loaded {
            self.spinner_idx = (self.spinner_idx + 1) % 10;
        }
    }

    /// Records the window size.
    pub fn resize(&mut self, width: u16, height: u16)
        ensures
            final(self).window_width == width && final(self).window_h == height,
            final(self).cursor == old(self).cursor && final(self).phase == old(self).phase,
    {
        self.window_width = width;
        self.window_h = height;
    }

    /// Rows of the package list.
    pub fn list_height(&self) -> (h: usize)
        ensures
            h == list_rows(self.window_h),
    {
        let h = self.window_h as usize;
        if h < 10 {
            3
        } else {
            h - 7
        }
    }

    /// The selected packages, in list order.
    pub fn selected_packages(&self) -> (r: Vec<Package>)
        ensures
            r@.map_values(|p: Package| pkg_view(p)) == self.all_items@.filter(|it: PkgItem| it.selected).map_values(|it: PkgItem| pkg_view(it.pkg)),
    {
        let mut out: Vec<Package> = Vec::new();
        let mut i: usize = 0;
        while i < self.all_items.len()
            invariant
                i <= self.all_items@.len(),
                out@.map_values(|p: Package| pkg_view(p)) == self.all_items@.subrange(0, i as int).filter(|it: PkgItem| it.selected).map_values(|it: PkgItem| pkg_view(it.pkg)),
            decreases self.all_items.len() - i,
        {
            proof {
                reveal(Seq::filter);
                assert(self.all_items@.subrange(0, i + 1).drop_last() =~= self.all_items@.subrange(0, i as int));
            }
            let ghost before = out@.map_values(|p: Package| pkg_view(p));
            if self.all_items[i].selected {
                out.push(self.all_items[i].pkg.copy());
                assert(out@.map_values(|p: Package| pkg_view(p)) =~= before.push(pkg_view(self.all_items@[i as int].pkg)));
            }
            i += 1;
        }
        assert(self.all_items@.subrange(0, i as int) =~= self.all_items@);
        out
    }
}


/// Index of the first item at or after `i` whose package has key `k` (or
/// the length).
pub open spec fn first_with_key(all: Seq<PkgItem>, k: Seq<char>, i: int) -> int
    decreases all.len() - i,
{
    if 0 <= i < all.len() && pkg_key(all[i].pkg) != k {
        first_with_key(all, k, i + 1)
    } else {
        i
    }
}

/// The items after flipping the selection of the first with key `k` to `v`.
pub open spec fn flip_first(all: Seq<PkgItem>, k: Seq<char>, v: bool) -> Seq<PkgItem> {
    let j = first_with_key(all, k, 0);
    if 0 <= j < all.len() {
        all.update(j, PkgItem { selected: v, ..all[j] })
    } else {
        all
    }
}

fn item_has_key(it: &PkgItem, k: &Vec<char>) -> (b: bool)
    ensures
        b == (pkg_key(it.pkg) == k@),
{
    let ik = it.pkg.key();
    let ikc = chars_of(ik.as_str());
    crate::text::eq(ikc.as_slice(), k.as_slice())
}

impl UninstallTui {
    fn refilter(&mut self)
        ensures
            item_views(final(self).items@) == item_views(filtered(old(self).all_items@, old(self).query@)),
            *final(self) == (UninstallTui { items: final(self).items, ..*old(self) }),
    {
        self.items = filter_items(&self.all_items, self.query.as_str());
    }

    /// Handles a key; returns whether the browser is done.
    ///
    /// Searching: Esc quits; Backspace drops the last query character;
    /// up and down move the cursor, scrolling the list; Space flips the
    /// selection of the package under the cursor; Enter goes to the confirm
    /// dialog (on NO) when something is selected; any other printable
    /// character extends the query. A changed query refilters the list and
    /// puts the cursor and scroll at the top.
    ///
    /// Confirming: `q` quits; the arrows, `h`, `l` and Tab toggle YES/NO;
    /// Enter on YES finishes, on NO goes back to searching.
    pub fn handle_key(&mut self, key: Key) -> (done: bool)
        requires
            old(self).confirm_cursor <= 1,
        ensures
            final(self).confirm_cursor <= 1,
            old(self).phase == Phase::Search ==> {
                &&& key == Key::Esc ==> done && *final(self) == *old(self)
                &&& key == Key::Backspace ==> !done && if old(self).query@.len() == 0 {
                    *final(self) == *old(self)
                } else {
                    &&& final(self).query@ == old(self).query@.drop_last()
                    &&& item_views(final(self).items@) == item_views(filtered(old(self).all_items@, final(self).query@))
                    &&& *final(self) == (UninstallTui { query: final(self).query, items: final(self).items, cursor: 0, scroll_off: 0, ..*old(self) })
                }
                &&& key == Key::Up ==> !done && if old(self).cursor > 0 {
                    *final(self) == (UninstallTui {
                        cursor: (old(self).cursor - 1) as usize,
                        scroll_off: if old(self).cursor - 1 < old(self).scroll_off { (old(self).cursor - 1) as usize } else { old(self).scroll_off },
                        ..*old(self)
                    })
                } else {
                    *final(self) == *old(self)
                }
                &&& key == Key::Down ==> !done && if old(self).cursor + 1 < old(self).items@.len() {
                    *final(self) == (UninstallTui {
                        cursor: (old(self).cursor + 1) as usize,
                        scroll_off: if old(self).cursor + 1 >= old(self).scroll_off + list_rows(old(self).window_h) {
                            (old(self).cursor + 1 - list_rows(old(self).window_h) + 1) as usize
                        } else {
                            old(self).scroll_off
                        },
                        ..*old(self)
                    })
                } else {
                    *final(self) == *old(self)
                }
                &&& key == Key::Char(' ') ==> !done && if old(self).cursor < old(self).items@.len() {
                    let k = pkg_key(old(self).items@[old(self).cursor as int].pkg);
                    let v = !sel_get(old(self).selected@, k);
                    &&& final(self).selected@.len() == old(self).selected@.len() + 1
                    &&& final(self).selected@.drop_last() == old(self).selected@
                    &&& final(self).selected@.last().0@ == k && final(self).selected@.last().1 == v
                    &&& final(self).all_items@ == flip_first(old(self).all_items@, k, v)
                    &&& item_views(final(self).items@) == item_views(filtered(final(self).all_items@, old(self).query@))
                    &&& *final(self) == (UninstallTui { selected: final(self).selected, all_items: final(self).all_items, items: final(self).items, ..*old(self) })
                } else {
                    *final(self) == *old(self)
                }
                &&& key == Key::Enter ==> !done && if any_selected(old(self).selected@) {
                    *final(self) == (UninstallTui { phase: Phase::Confirm, confirm_cursor: 1, ..*old(self) })
                } else {
                    *final(self) == *old(self)
                }
                &&& (key matches Key::Char(c) && c != ' ' && !is_control(c)) ==> {
                    &&& !done
                    &&& final(self).query@ == old(self).query@.push(key->Char_0)
                    &&& item_views(final(self).items@) == item_views(filtered(old(self).all_items@, final(self).query@))
                    &&& *final(self) == (UninstallTui { query: final(self).query, items: final(self).items, cursor: 0, scroll_off: 0, ..*old(self) })
                }
            },
            old(self).phase == Phase::Confirm ==> {
                &&& key == Key::Char('q') ==> done && *final(self) == *old(self)
                &&& toggles(key) ==> !done && *final(self) == (UninstallTui { confirm_cursor: (1 - old(self).confirm_cursor) as usize, ..*old(self) })
                &&& key == Key::Enter ==> if old(self).confirm_cursor == 0 {
                    done && *final(self) == (UninstallTui { phase: Phase::Done, ..*old(self) })
                } else {
                    !done && *final(self) == (UninstallTui { phase: Phase::Search, ..*old(self) })
                }
            },
            old(self).phase == Phase::Done ==> !done && *final(self) == *old(self),
    {
        match self.phase {
            Phase::Search => {
                match key {
                    Key::Esc => {
                        return true;
                    },
                    Key::Backspace => {
                        let q = chars_of(self.query.as_str());
                        if q.len() > 0 {
                            let shorter = crate::text::slice_of(q.as_slice(), 0, q.len() - 1);
                            self.query = string_of(shorter.as_slice());
                            assert(self.query@ =~= old(self).query@.drop_last());
                            self.refilter();
                            self.cursor = 0;
                            self.scroll_off = 0;
                        }
                    },
                    Key::Up => {
                        if self.cursor > 0 {
                            self.cursor -= 1;
                            if self.cursor < self.scroll_off {
                                self.scroll_off = self.cursor;
                            }
                        }
                    },
                    Key::Down => {
                        if self.items.len() > 0 && self.cursor < self.items.len() - 1 {
                            self.cursor += 1;
                            let vis_h = self.list_height();
                            if self.cursor >= self.scroll_off && self.cursor - self.scroll_off >= vis_h {
                                self.scroll_off = self.cursor - vis_h + 1;
                            }
                        }
                    },
                    Key::Char(' ') => {
                        if self.cursor < self.items.len() {
                            let k = self.items[self.cursor].pkg.key();
                            let cur = sel_lookup(&self.selected, &k);
                            let kc = chars_of(k.as_str());
                            self.selected.push((k, !cur));
                            let mut j: usize = 0;
                            while j < self.all_items.len() && !item_has_key(&self.all_items[j], &kc)
                                invariant
                                    j <= self.all_items@.len(),
                                    kc@ == pkg_key(old(self).items@[old(self).cursor as int].pkg),
                                    self.all_items == old(self).all_items,
                                    first_with_key(self.all_items@, kc@, 0) == first_with_key(self.all_items@, kc@, j as int),
                                decreases self.all_items.len() - j,
                            {
                                j += 1;
                            }
                            if j < self.all_items.len() {
                                let mut it = self.all_items.remove(j);
                                it.selected = !cur;
                                self.all_items.insert(j, it);
                            }
                            assert(self.all_items@ =~= flip_first(old(self).all_items@, kc@, !cur));
                            self.refilter();
                        }
                    },
                    Key::Enter => {
                        if selection_nonempty(&self.selected) {
                            self.phase = Phase::Confirm;
                            self.confirm_cursor = 1;
                        }
                    },
                    Key::Char(c) => {
                        if !((c as u32) <= 0x1F || (0x7F <= (c as u32) && (c as u32) <= 0x9F)) {
                            let mut q = chars_of(self.query.as_str());
                            q.push(c);
                            self.query = string_of(q.as_slice());
                            self.refilter();
                            self.cursor = 0;
                            self.scroll_off = 0;
                        }
                    },
                    _ => {},
                }
                false
            },
            Phase::Confirm => {
                match key {
                    Key::Char('q') => true,
                    Key::Left | Key::Char('h') | Key::Right | Key::Char('l') | Key::Tab => {
                        self.confirm_cursor = 1 - self.confirm_cursor;
                        false
                    },
                    Key::Enter => {
                        if self.confirm_cursor == 0 {
                            self.phase = Phase::Done;
                            true
                        } else {
                            self.phase = Phase::Search;
                            false
                        }
                    },
                    _ => false,
                }
            },
            Phase::Done => false,
        }
    }

    /// Handles a key event: Ctrl+C quits; other keys with Control or Alt
    /// are ignored; the rest go to [`UninstallTui::handle_key`].
    pub fn handle_key_event(&mut self, key: KeyEvent) -> (done: bool)
        requires
            old(self).confirm_cursor <= 1,
        ensures
            final(self).confirm_cursor <= 1,
            ctrl_c(key) ==> done && *final(self) == *old(self),
            !ctrl_c(key) && (key.ctrl || key.alt) ==> !done && *final(self) == *old(self),
    {
        if is_ctrl_c(&key) {
            return true;
        }
        if key.ctrl || key.alt {
            return false;
        }
        self.handle_key(key.code)
    }
}

/// Whether entry `j` of the selection log is the last one for its key.
pub open spec fn latest(v: Seq<(String, bool)>, j: int) -> bool {
    forall|k: int| j < k < v.len() ==> #[trigger] v[k].0@ != v[j].0@
}

/// How many keys among the first `n` log entries are selected by their
/// last entry.
pub open spec fn sel_count(v: Seq<(String, bool)>, n: int) -> nat
    decreases n,
{
    if n <= 0 || n > v.len() {
        0
    } else {
        sel_count(v, n - 1) + if v[n - 1].1 && latest(v, n - 1) {
            1nat
        } else {
            0nat
        }
    }
}

/// Whether every listed package's size, in bytes, fits an `i64`.
pub open spec fn sizes_fit(items: Seq<PkgItem>) -> bool {
    forall|i: int| 0 <= i < items.len() ==> (#[trigger] items[i]).pkg.installed_kb + items[i].pkg.remnants_kb
        <= i64::MAX / 1024
}

/// A package's row: a check mark when selected, name, source, size,
/// version.
pub open spec fn row_text(it: PkgItem) -> Seq<char> {
    (if it.selected {
        "✓ "@
    } else {
        "  "@
    }) + it.pkg.name@ + " ["@ + it.pkg.source@ + "] "@ + human(
        (it.pkg.installed_kb + it.pkg.remnants_kb) * 1024,
    ) + "  "@ + it.pkg.version@
}

/// A row as a line: highlighted (and trimmed) under the cursor.
pub open spec fn row_line(it: PkgItem, here: bool) -> LineV {
    if here {
        one("  "@ + trim_start(row_text(it)), Tone::Highlight)
    } else {
        one("  "@ + row_text(it), Tone::Plain)
    }
}

/// One past the last row shown.
pub open spec fn list_end(t: UninstallTui) -> int {
    if t.scroll_off + list_rows(t.window_h) < t.items@.len() {
        t.scroll_off + list_rows(t.window_h)
    } else {
        t.items@.len() as int
    }
}

/// The rows shown, from the scroll offset to the end.
pub open spec fn shown_rows(t: UninstallTui) -> Seq<LineV> {
    Seq::new(
        (if list_end(t) > t.scroll_off { list_end(t) - t.scroll_off } else { 0 }) as nat,
        |k: int| row_line(t.items@[t.scroll_off + k], t.scroll_off + k == t.cursor),
    )
}

/// The list: a notice when nothing could load, nothing was typed or
/// nothing matches; else the rows shown and, when they do not all fit, the
/// range shown.
pub open spec fn list_lines(t: UninstallTui) -> Seq<LineV> {
    if t.loaded && t.all_items@.len() == 0 && t.discovery_err is Some {
        seq![one("  No package source could be loaded."@, Tone::Faint)]
    } else if t.query@.len() == 0 {
        seq![one("  Type to search installed packages..."@, Tone::Faint)]
    } else if t.items@.len() == 0 {
        seq![one("  No packages found."@, Tone::Faint)]
    } else {
        shown_rows(t) + if t.items@.len() > list_rows(t.window_h) {
            seq![one("  ["@ + dec((t.scroll_off + 1) as nat) + "-"@ + dec(list_end(t) as nat) + " of "@ + dec(
                t.items@.len(),
            ) + "]"@, Tone::Faint)]
        } else {
            seq![]
        }
    }
}

/// The search screen.
pub open spec fn search_view(t: UninstallTui) -> Seq<LineV> {
    seq![blank(), blank(), one("  mu uninstall  ("@ + dec(sel_count(t.selected@, t.selected@.len() as int)) + " selected)"@,
        Tone::BoldPrimary), blank(), one("  Search: "@ + t.query@ + "█"@ + (if t.loaded {
        seq![]
    } else {
        "  "@ + frame_text(t.spinner_idx as int)
    }), Tone::BoldPrimary), blank()] + (match t.discovery_err {
        Some(e) => seq![one("  Discovery warning: "@ + e@, Tone::Warn), blank()],
        None => seq![],
    }) + list_lines(t) + seq![blank(), blank(), one("  Type: search  •  ↑/↓: navigate  •  Space: select  •  Esc: quit"@,
        Tone::Plain)]
}

/// A package to be removed and its remnants.
pub open spec fn removal_lines(it: PkgItem) -> Seq<LineV> {
    seq![one("    • "@ + it.pkg.name@ + " ("@ + it.pkg.source@ + ")"@, Tone::Plain)] + it.pkg.remnants_found@.map_values(
        |r: String| one("      - "@ + r@, Tone::Plain),
    )
}

/// The removal lines of the first `n` selected packages.
pub open spec fn removals(items: Seq<PkgItem>, n: int) -> Seq<LineV>
    decreases n,
{
    if n <= 0 || n > items.len() {
        seq![]
    } else {
        removals(items, n - 1) + if items[n - 1].selected {
            removal_lines(items[n - 1])
        } else {
            seq![]
        }
    }
}

/// The screen for the current phase: the search list, the confirm dialog
/// over the selected packages, or the note that removal started.
pub open spec fn uninstall_view(t: UninstallTui) -> Seq<LineV> {
    match t.phase {
        Phase::Search => search_view(t),
        Phase::Confirm => seq![blank(), blank(), one("  Will remove:"@, Tone::Bold)] + removals(
            t.all_items@,
            t.all_items@.len() as int,
        ) + seq![blank(), button_line(t.confirm_cursor as int, "   "@), blank(), blank(), blank(), one(
            "  ←/→ navigate  •  Enter: confirm  •  q: quit"@,
            Tone::Plain,
        )],
        Phase::Done => seq![blank(), blank(), one("  Confirmed. Removing packages..."@, Tone::Plain), blank()],
    }
}

fn same_key(a: &String, b: &String) -> (r: bool)
    ensures
        r == (a@ == b@),
{
    let ac = chars_of(a.as_str());
    let bc = chars_of(b.as_str());
    crate::text::eq(ac.as_slice(), bc.as_slice())
}

/// The number of keys the selection log leaves selected.
fn count_selected(v: &Vec<(String, bool)>) -> (n: u64)
    ensures
        n == sel_count(v@, v@.len() as int),
{
    let mut n: u64 = 0;
    let mut j: usize = 0;
    while j < v.len()
        invariant
            j <= v@.len(),
            n == sel_count(v@, j as int),
            n <= j,
        decreases v.len() - j,
    {
        let mut last = true;
        let mut k: usize = j + 1;
        while k < v.len()
            invariant
                j < k <= v@.len(),
                last == (forall|m: int| j < m < k ==> #[trigger] v@[m].0@ != v@[j as int].0@),
            decreases v.len() - k,
        {
            if same_key(&v[k].0, &v[j].0) {
                last = false;
            }
            k += 1;
        }
        if v[j].1 && last {
            n += 1;
        }
        j += 1;
    }
    n
}

/// Appends `row_line` of an item.
fn push_row(ls: &mut Vec<Vec<Span>>, it: &PkgItem, here: bool)
    requires
        it.pkg.installed_kb + it.pkg.remnants_kb <= i64::MAX / 1024,
    ensures
        lines_view(final(ls)@) == lines_view(old(ls)@).push(row_line(*it, here)),
{
    let mut t = chars_of(if it.selected { "✓ " } else { "  " });
    let n = chars_of(it.pkg.name.as_str());
    push_all(&mut t, n.as_slice());
    push_str(&mut t, " [");
    let s = chars_of(it.pkg.source.as_str());
    push_all(&mut t, s.as_slice());
    push_str(&mut t, "] ");
    let bytes = ((it.pkg.installed_kb + it.pkg.remnants_kb) * 1024) as i64;
    let h = human_size(bytes);
    let hc = chars_of(h.as_str());
    push_all(&mut t, hc.as_slice());
    push_str(&mut t, "  ");
    let v = chars_of(it.pkg.version.as_str());
    push_all(&mut t, v.as_slice());
    assert(t@ == row_text(*it));
    let mut l = chars_of("  ");
    if here {
        let r = trimmed_start(t.as_slice());
        push_all(&mut l, r.as_slice());
        push_one(ls, l.as_slice(), Tone::Highlight);
    } else {
        push_all(&mut l, t.as_slice());
        push_one(ls, l.as_slice(), Tone::Plain);
    }
}

impl UninstallTui {
    fn push_list(&self, ls: &mut Vec<Vec<Span>>)
        requires
            sizes_fit(self.items@),
        ensures
            lines_view(final(ls)@) == lines_view(old(ls)@) + list_lines(*self),
    {
        let ghost before = lines_view(ls@);
        if self.loaded && self.all_items.len() == 0 && self.discovery_err.is_some() {
            push_lit(ls, "  No package source could be loaded.", Tone::Faint);
        } else if self.query.as_str().is_empty() {
            push_lit(ls, "  Type to search installed packages...", Tone::Faint);
        } else if self.items.len() == 0 {
            push_lit(ls, "  No packages found.", Tone::Faint);
        } else {
            let len = self.items.len();
            let vis = self.list_height();
            let end: usize = if self.scroll_off < len && len - self.scroll_off > vis {
                self.scroll_off + vis
            } else {
                len
            };
            assert(end == list_end(*self));
            let mut i = self.scroll_off;
            while i < end
                invariant
                    self.scroll_off <= i,
                    end > self.scroll_off ==> i <= end,
                    end <= self.scroll_off ==> i == self.scroll_off,
                    end == list_end(*self),
                    end <= self.items@.len(),
                    sizes_fit(self.items@),
                    lines_view(ls@) == before + Seq::new((i - self.scroll_off) as nat, |k: int| row_line(
                        self.items@[self.scroll_off + k],
                        self.scroll_off + k == self.cursor,
                    )),
                decreases end - i,
            {
                assert(self.items@[i as int] == self.items@[i as int]);
                push_row(ls, &self.items[i], i == self.cursor);
                assert(lines_view(ls@) =~= before + Seq::new((i + 1 - self.scroll_off) as nat, |k: int| row_line(
                    self.items@[self.scroll_off + k],
                    self.scroll_off + k == self.cursor,
                )));
                i += 1;
            }
            proof {
                if end > self.scroll_off {
                    assert(i == end);
                } else {
                    assert(i == self.scroll_off);
                }
                assert(Seq::new((i - self.scroll_off) as nat, |k: int| row_line(
                    self.items@[self.scroll_off + k],
                    self.scroll_off + k == self.cursor,
                )) =~= shown_rows(*self));
            }
            if len > vis {
                let mut t = chars_of("  [");
                let a = fmt_u128(self.scroll_off as u128 + 1);
                push_all(&mut t, a.as_slice());
                push_str(&mut t, "-");
                let b = fmt_u64(end as u64);
                push_all(&mut t, b.as_slice());
                push_str(&mut t, " of ");
                let c = fmt_u64(len as u64);
                push_all(&mut t, c.as_slice());
                push_str(&mut t, "]");
                push_one(ls, t.as_slice(), Tone::Faint);
            }
        }
        assert(lines_view(ls@) =~= before + list_lines(*self));
    }

    fn push_search(&self, ls: &mut Vec<Vec<Span>>)
        requires
            sizes_fit(self.items@),
        ensures
            lines_view(final(ls)@) == lines_view(old(ls)@) + search_view(*self),
    {
        let ghost before = lines_view(ls@);
        let ghost me = *self;
        push_blank(ls);
        push_blank(ls);
        let mut t = chars_of("  mu uninstall  (");
        let n = fmt_u64(count_selected(&self.selected));
        push_all(&mut t, n.as_slice());
        push_str(&mut t, " selected)");
        push_one(ls, t.as_slice(), Tone::BoldPrimary);
        push_blank(ls);
        let mut q = chars_of("  Search: ");
        let qc = chars_of(self.query.as_str());
        push_all(&mut q, qc.as_slice());
        push_str(&mut q, "█");
        if !self.loaded {
            push_str(&mut q, "  ");
            push_str(&mut q, spinner_frame(self.spinner_idx));
        }
        assert(q@ == "  Search: "@ + me.query@ + "█"@ + (if me.loaded {
            seq![]
        } else {
            "  "@ + frame_text(me.spinner_idx as int)
        }));
        push_one(ls, q.as_slice(), Tone::BoldPrimary);
        push_blank(ls);
        let ghost head = lines_view(ls@);
        assert(head =~= before + seq![blank(), blank(), one("  mu uninstall  ("@ + dec(sel_count(me.selected@, me.selected@.len() as int)) + " selected)"@,
            Tone::BoldPrimary), blank(), one("  Search: "@ + me.query@ + "█"@ + (if me.loaded {
            seq![]
        } else {
            "  "@ + frame_text(me.spinner_idx as int)
        }), Tone::BoldPrimary), blank()]);
        match &self.discovery_err {
            Some(e) => {
                let mut w = chars_of("  Discovery warning: ");
                let ec = chars_of(e.as_str());
                push_all(&mut w, ec.as_slice());
                push_one(ls, w.as_slice(), Tone::Warn);
                push_blank(ls);
            },
            None => {},
        }
        let ghost warned = lines_view(ls@);
        assert(warned =~= head + (match me.discovery_err {
            Some(e) => seq![one("  Discovery warning: "@ + e@, Tone::Warn), blank()],
            None => seq![],
        }));
        self.push_list(ls);
        push_blank(ls);
        push_blank(ls);
        push_lit(ls, "  Type: search  •  ↑/↓: navigate  •  Space: select  •  Esc: quit", Tone::Plain);
        assert(lines_view(ls@) =~= before + search_view(*self));
    }

    fn push_removals(&self, ls: &mut Vec<Vec<Span>>)
        ensures
            lines_view(final(ls)@) == lines_view(old(ls)@) + removals(self.all_items@, self.all_items@.len() as int),
    {
        let ghost before = lines_view(ls@);
        let mut i: usize = 0;
        while i < self.all_items.len()
            invariant
                i <= self.all_items@.len(),
                lines_view(ls@) == before + removals(self.all_items@, i as int),
            decreases self.all_items.len() - i,
        {
            let it = &self.all_items[i];
            let ghost mid = lines_view(ls@);
            if it.selected {
                let mut t = chars_of("    • ");
                let n = chars_of(it.pkg.name.as_str());
                push_all(&mut t, n.as_slice());
                push_str(&mut t, " (");
                let s = chars_of(it.pkg.source.as_str());
                push_all(&mut t, s.as_slice());
                push_str(&mut t, ")");
                push_one(ls, t.as_slice(), Tone::Plain);
                let mut j: usize = 0;
                while j < it.pkg.remnants_found.len()
                    invariant
                        j <= it.pkg.remnants_found@.len(),
                        lines_view(ls@) == mid + seq![one("    • "@ + it.pkg.name@ + " ("@ + it.pkg.source@ + ")"@, Tone::Plain)]
                            + it.pkg.remnants_found@.subrange(0, j as int).map_values(|r: String| one("      - "@ + r@, Tone::Plain)),
                    decreases it.pkg.remnants_found.len() - j,
                {
                    let mut r = chars_of("      - ");
                    let rc = chars_of(it.pkg.remnants_found[j].as_str());
                    push_all(&mut r, rc.as_slice());
                    push_one(ls, r.as_slice(), Tone::Plain);
                    assert(it.pkg.remnants_found@.subrange(0, j + 1).map_values(|r: String| one("      - "@ + r@, Tone::Plain))
                        =~= it.pkg.remnants_found@.subrange(0, j as int).map_values(|r: String| one("      - "@ + r@, Tone::Plain))
                        .push(one("      - "@ + it.pkg.remnants_found@[j as int]@, Tone::Plain)));
                    j += 1;
                }
                assert(it.pkg.remnants_found@.subrange(0, j as int) =~= it.pkg.remnants_found@);
            }
            assert(lines_view(ls@) =~= before + removals(self.all_items@, i + 1));
            i += 1;
        }
    }

    /// The screen for the current phase as styled lines.
    pub fn view_lines(&self) -> (ls: Vec<Vec<Span>>)
        requires
            sizes_fit(self.items@),
        ensures
            lines_view(ls@) == uninstall_view(*self),
    {
        let mut ls: Vec<Vec<Span>> = Vec::new();
        match self.phase {
            Phase::Search => self.push_search(&mut ls),
            Phase::Confirm => {
                push_blank(&mut ls);
                push_blank(&mut ls);
                push_lit(&mut ls, "  Will remove:", Tone::Bold);
                self.push_removals(&mut ls);
                push_blank(&mut ls);
                push_buttons(&mut ls, self.confirm_cursor, "   ");
                push_blank(&mut ls);
                push_blank(&mut ls);
                push_blank(&mut ls);
                push_lit(&mut ls, "  ←/→ navigate  •  Enter: confirm  •  q: quit", Tone::Plain);
            },
            Phase::Done => {
                push_blank(&mut ls);
                push_blank(&mut ls);
                push_lit(&mut ls, "  Confirmed. Removing packages...", Tone::Plain);
                push_blank(&mut ls);
            },
        }
        assert(lines_view(ls@) =~= uninstall_view(*self));
        ls
    }
}

/// A row of `dpkg-query -W -f '${Package}\t${Version}\t${Installed-Size}\n'`:
/// name, version and installed kilobytes (0 when not a number), for a line
/// of at least three tab-separated fields with a name.
pub open spec fn dpkg_row(line: Seq<char>) -> Option<(Seq<char>, Seq<char>, u64)> {
    let f = split(line, '\t');
    if f.len() >= 3 && f[0].len() > 0 {
        Some(
            (f[0], f[1], match parse_u64_spec(trim(f[2])) {
                Ok(v) => v as u64,
                Err(_) => 0,
            }),
        )
    } else {
        None
    }
}

/// The rows of the first `n` lines.
pub open spec fn dpkg_rows(ls: Seq<Seq<char>>, n: int) -> Seq<(Seq<char>, Seq<char>, u64)>
    decreases n,
{
    if n <= 0 || n > ls.len() {
        seq![]
    } else {
        dpkg_rows(ls, n - 1) + match dpkg_row(ls[n - 1]) {
            Some(r) => seq![r],
            None => seq![],
        }
    }
}

/// A row of `snap list` after its header: name and version, for a line of
/// at least two fields.
pub open spec fn snap_row(line: Seq<char>) -> Option<(Seq<char>, Seq<char>)> {
    let f = fields(line);
    if f.len() >= 2 {
        Some((f[0], f[1]))
    } else {
        None
    }
}

/// The rows of lines `1..n` (the first is the header).
pub open spec fn snap_rows(ls: Seq<Seq<char>>, n: int) -> Seq<(Seq<char>, Seq<char>)>
    decreases n,
{
    if n <= 1 || n > ls.len() {
        seq![]
    } else {
        snap_rows(ls, n - 1) + match snap_row(ls[n - 1]) {
            Some(r) => seq![r],
            None => seq![],
        }
    }
}

/// Whether a package was read bare: no remnants yet.
pub open spec fn bare(p: Package, source: Seq<char>) -> bool {
    p.source@ == source && p.remnants_kb == 0 && p.remnants_found@.len() == 0
}

/// The Debian packages `dpkg-query` lists, in order, with no remnants yet.
pub fn parse_dpkg_list(out: &str) -> (r: Vec<Package>)
    ensures
        r@.map_values(|p: Package| (p.name@, p.version@, p.installed_kb)) == dpkg_rows(lines(out@), lines(out@).len() as int),
        forall|i: int| 0 <= i < r@.len() ==> bare(#[trigger] r@[i], "apt"@),
{
    let c = chars_of(out);
    let ls = split_lines(c.as_slice());
    let ghost lv = views(ls@);
    let mut r: Vec<Package> = Vec::new();
    let mut i: usize = 0;
    while i < ls.len()
        invariant
            i <= ls@.len(),
            lv == views(ls@),
            lv == lines(out@),
            r@.map_values(|p: Package| (p.name@, p.version@, p.installed_kb)) == dpkg_rows(lv, i as int),
            forall|k: int| 0 <= k < r@.len() ==> bare(#[trigger] r@[k], "apt"@),
        decreases ls.len() - i,
    {
        let f = split_on(ls[i].as_slice(), '\t');
        let ghost before = r@;
        assert(lv[i as int] == ls@[i as int]@);
        if f.len() >= 3 && f[0].len() > 0 {
            assert(views(f@)[0] == f@[0]@ && views(f@)[1] == f@[1]@ && views(f@)[2] == f@[2]@);
            let t = trimmed(f[2].as_slice());
            let kb: u64 = match parse_u64(t.as_slice()) {
                Ok(v) => v,
                Err(_) => 0,
            };
            r.push(Package {
                name: string_of(f[0].as_slice()),
                source: String::from_str("apt"),
                version: string_of(f[1].as_slice()),
                installed_kb: kb,
                remnants_kb: 0,
                remnants_found: Vec::new(),
            });
            proof {
                reveal_strlit("apt");
            }
            assert(r@.map_values(|p: Package| (p.name@, p.version@, p.installed_kb)) =~= before.map_values(
                |p: Package| (p.name@, p.version@, p.installed_kb),
            ).push(dpkg_row(lv[i as int]).unwrap()));
        } else {
            assert(dpkg_row(lv[i as int]) is None);
        }
        i += 1;
    }
    r
}

/// The snaps `snap list` lists, in order, with no sizes or remnants yet.
pub fn parse_snap_list(out: &str) -> (r: Vec<Package>)
    ensures
        r@.map_values(|p: Package| (p.name@, p.version@)) == snap_rows(lines(out@), lines(out@).len() as int),
        forall|i: int| 0 <= i < r@.len() ==> bare(#[trigger] r@[i], "snap"@) && r@[i].installed_kb == 0,
{
    let c = chars_of(out);
    let ls = split_lines(c.as_slice());
    let ghost lv = views(ls@);
    let mut r: Vec<Package> = Vec::new();
    let mut i: usize = 1;
    if ls.len() == 0 {
        assert(snap_rows(lv, 0) =~= seq![]);
        return r;
    }
    while i < ls.len()
        invariant
            1 <= i <= ls@.len(),
            lv == views(ls@),
            lv == lines(out@),
            r@.map_values(|p: Package| (p.name@, p.version@)) == snap_rows(lv, i as int),
            forall|k: int| 0 <= k < r@.len() ==> bare(#[trigger] r@[k], "snap"@) && r@[k].installed_kb == 0,
        decreases ls.len() - i,
    {
        let f = split_fields(ls[i].as_slice());
        let ghost before = r@;
        assert(lv[i as int] == ls@[i as int]@);
        if f.len() >= 2 {
            assert(views(f@)[0] == f@[0]@ && views(f@)[1] == f@[1]@);
            r.push(Package {
                name: string_of(f[0].as_slice()),
                source: String::from_str("snap"),
                version: string_of(f[1].as_slice()),
                installed_kb: 0,
                remnants_kb: 0,
                remnants_found: Vec::new(),
            });
            proof {
                reveal_strlit("snap");
            }
            assert(r@.map_values(|p: Package| (p.name@, p.version@)) =~= before.map_values(
                |p: Package| (p.name@, p.version@),
            ).push(snap_row(lv[i as int]).unwrap()));
        } else {
            assert(snap_row(lv[i as int]) is None);
        }
        i += 1;
    }
    r
}

} // verus!

//! Filtering and keyboard navigation of the bottom panel's item list (the
//! slash-command menu and the pickers).

use vstd::prelude::*;
use vstd::string::StringExecFns;
use crate::chars::str_chars;

verus! {

/// What `str::to_lowercase` returns for a string: its Unicode lowercase
/// mapping.
pub uninterp spec fn lowercase_spec(s: Seq<char>) -> Seq<char>;

/// `str::to_lowercase`.
///
/// Trusted: std documents the result as the lowercase equivalent of the
/// string under Unicode's `Lowercase` property, a function of the string
/// alone; the contract names it and states nothing more.
#[verifier::external_body]
fn lowercase(s: &str) -> (r: String)
    ensures
        r@ == lowercase_spec(s@),
{
    s.to_lowercase()
}

/// `needle` occurs in `hay` at `k`.
pub open spec fn occurs_at(hay: Seq<char>, needle: Seq<char>, k: int) -> bool {
    0 <= k && k + needle.len() <= hay.len() && hay.subrange(k, k + needle.len()) == needle
}

/// `needle` occurs somewhere in `hay`.
pub open spec fn contains_seq(hay: Seq<char>, needle: Seq<char>) -> bool {
    exists|k: int| #[trigger] occurs_at(hay, needle, k)
}

fn occurs_at_exec(hay: &Vec<char>, needle: &Vec<char>, k: usize) -> (b: bool)
    requires
        k + needle@.len() <= hay@.len(),
    ensures
        b == occurs_at(hay@, needle@, k as int),
{
    let hl = hay.len();
    let mut j: usize = 0;
    while j < needle.len()
        invariant
            hl == hay@.len(),
            k + needle@.len() <= hay@.len(),
            j <= needle@.len(),
            forall|t: int| 0 <= t < j ==> hay@[k + t] == needle@[t],
        decreases needle@.len() - j,
    {
        if hay[k + j] != needle[j] {
            proof {
                assert(hay@.subrange(k as int, k + needle@.len())[j as int] != needle@[j as int]);
            }
            return false;
        }
        j = j + 1;
    }
    proof {
        assert(hay@.subrange(k as int, k + needle@.len()) =~= needle@);
    }
    true
}

/// Whether `needle` occurs in `hay`.
fn contains_exec(hay: &Vec<char>, needle: &Vec<char>) -> (b: bool)
    ensures
        b == contains_seq(hay@, needle@),
{
    if needle.len() > hay.len() {
        proof {
            assert forall|k: int| !#[trigger] occurs_at(hay@, needle@, k) by {}
        }
        return false;
    }
    let last = hay.len() - needle.len();
    let mut k: usize = 0;
    while k <= last
        invariant
            last + needle@.len() == hay@.len(),
            forall|t: int| 0 <= t < k ==> !#[trigger] occurs_at(hay@, needle@, t),
        decreases last + 1 - k,
    {
        if occurs_at_exec(hay, needle, k) {
            return true;
        }
        if k == last {
            proof {
                assert forall|t: int| !#[trigger] occurs_at(hay@, needle@, t) by {
                    if 0 <= t <= last {
                    }
                }
            }
            return false;
        }
        k = k + 1;
    }
    false
}

/// A panel entry as far as filtering sees it.
#[derive(Debug, Clone, PartialEq, Eq)]
pub struct PanelEntry {
    pub label: String,
    pub description: String,
    /// A non-navigable group header.
    pub is_header: bool,
}

/// The label without one leading `/`.
pub open spec fn command_name(label: Seq<char>) -> Seq<char> {
    if label.len() > 0 && label[0] == '/' {
        label.skip(1)
    } else {
        label
    }
}

/// An entry matches a lowercased query when the query occurs in its
/// lowercased command name or lowercased description.
pub open spec fn entry_matches(e: PanelEntry, lower: Seq<char>) -> bool {
    contains_seq(lowercase_spec(command_name(e.label@)), lower) || contains_seq(
        lowercase_spec(e.description@),
        lower,
    )
}

/// The lowercased command name starts with the lowercased query.
pub open spec fn entry_prefix_match(e: PanelEntry, lower: Seq<char>) -> bool {
    occurs_at(lowercase_spec(command_name(e.label@)), lower, 0)
}

/// `j` lies in the group that the header at `h` opens.
pub open spec fn in_group(items: Seq<PanelEntry>, h: int, j: int) -> bool {
    h < j < items.len() && forall|t: int| h < t <= j ==> !(#[trigger] items[t]).is_header
}

/// In a picker, an item is kept when it matches; a header is kept when some
/// item of its group matches.
pub open spec fn picker_keeps(items: Seq<PanelEntry>, lower: Seq<char>, i: int) -> bool {
    if items[i].is_header {
        exists|j: int| in_group(items, i, j) && #[trigger] entry_matches(items[j], lower)
    } else {
        entry_matches(items[i], lower)
    }
}

/// The indices below `k` satisfying `p`, ascending.
pub open spec fn indices_where(k: int, p: spec_fn(int) -> bool) -> Seq<usize>
    decreases k,
{
    if k <= 0 {
        Seq::empty()
    } else if p(k - 1) {
        indices_where(k - 1, p).push((k - 1) as usize)
    } else {
        indices_where(k - 1, p)
    }
}

/// The indices the panel shows under `query`: everything for an empty
/// query; in the slash menu the commands whose name starts with the query,
/// then the other matches; in a picker the matching items with the headers
/// of the groups that keep any.
pub open spec fn filtered_spec(items: Seq<PanelEntry>, is_slash: bool, query: Seq<char>) -> Seq<usize> {
    let n = items.len() as int;
    if query.len() == 0 {
        indices_where(n, |i: int| true)
    } else {
        let lower = lowercase_spec(query);
        if is_slash {
            indices_where(n, |i: int| entry_prefix_match(items[i], lower)) + indices_where(
                n,
                |i: int| !entry_prefix_match(items[i], lower) && entry_matches(items[i], lower),
            )
        } else {
            indices_where(n, |i: int| picker_keeps(items, lower, i))
        }
    }
}

/// The indices of `s` (in order) that do not point at a header.
pub open spec fn non_headers(items: Seq<PanelEntry>, s: Seq<usize>) -> Seq<usize>
    decreases s.len(),
{
    if s.len() == 0 {
        Seq::empty()
    } else if items[s.last() as int].is_header {
        non_headers(items, s.drop_last())
    } else {
        non_headers(items, s.drop_last()).push(s.last())
    }
}

/// The navigable indices: the shown ones that are not headers.
pub open spec fn navigable_spec(items: Seq<PanelEntry>, is_slash: bool, query: Seq<char>) -> Seq<usize> {
    non_headers(items, filtered_spec(items, is_slash, query))
}

/// The first position of `x` in `s`, or `-1`.
pub open spec fn position(s: Seq<usize>, x: usize) -> int
    decreases s.len(),
{
    if s.len() == 0 {
        -1
    } else if s[0] == x {
        0
    } else {
        let p = position(s.skip(1), x);
        if p < 0 {
            -1
        } else {
            p + 1
        }
    }
}

/// The selection after moving down: the next navigable item after the
/// selected one, wrapping to the first; the first when the selection is not
/// navigable; unchanged when nothing is navigable.
pub open spec fn next_selection(nav: Seq<usize>, selected: usize) -> usize {
    if nav.len() == 0 {
        selected
    } else {
        let p = position(nav, selected);
        if p < 0 {
            nav[0]
        } else {
            nav[(p + 1) % (nav.len() as int)]
        }
    }
}

/// The selection after moving up: the navigable item before the selected
/// one, wrapping to the last; the first when the selection is not
/// navigable; unchanged when nothing is navigable.
pub open spec fn prev_selection(nav: Seq<usize>, selected: usize) -> usize {
    if nav.len() == 0 {
        selected
    } else {
        let p = position(nav, selected);
        if p < 0 {
            nav[0]
        } else if p == 0 {
            nav[nav.len() - 1]
        } else {
            nav[p - 1]
        }
    }
}

/// The item list of an open panel with its selection.
#[derive(Debug, Clone)]
pub struct PanelList {
    /// Whether this is the slash-command menu (otherwise a picker).
    pub is_slash: bool,
    pub items: Vec<PanelEntry>,
    pub selected_index: usize,
}

proof fn indices_where_bounded(k: int, p: spec_fn(int) -> bool)
    ensures
        forall|t: int| 0 <= t < indices_where(k, p).len() ==> (#[trigger] indices_where(k, p)[t]) < k,
        k >= 0 ==> indices_where(k, p).len() <= k,
    decreases k,
{
    if k > 0 {
        indices_where_bounded(k - 1, p);
    }
}

/// The lowercased command name and description of each entry.
fn lowered_entries(items: &Vec<PanelEntry>) -> (r: (Vec<Vec<char>>, Vec<Vec<char>>))
    ensures
        r.0@.len() == items@.len(),
        r.1@.len() == items@.len(),
        forall|i: int| 0 <= i < items@.len() ==> (#[trigger] r.0@[i])@ == lowercase_spec(command_name(items@[i].label@)),
        forall|i: int| 0 <= i < items@.len() ==> (#[trigger] r.1@[i])@ == lowercase_spec(items@[i].description@),
{
    let mut names: Vec<Vec<char>> = Vec::new();
    let mut descs: Vec<Vec<char>> = Vec::new();
    let mut i: usize = 0;
    while i < items.len()
        invariant
            i <= items@.len(),
            names@.len() == i,
            descs@.len() == i,
            forall|t: int| 0 <= t < i ==> (#[trigger] names@[t])@ == lowercase_spec(command_name(items@[t].label@)),
            forall|t: int| 0 <= t < i ==> (#[trigger] descs@[t])@ == lowercase_spec(items@[t].description@),
        decreases items@.len() - i,
    {
        let label = str_chars(items[i].label.as_str());
        let mut name = String::new();
        let start: usize = if label.len() > 0 && label[0] == '/' { 1 } else { 0 };
        let mut k: usize = start;
        while k < label.len()
            invariant
                start <= k <= label@.len(),
                name@ == label@.subrange(start as int, k as int),
            decreases label@.len() - k,
        {
            name.push(label[k]);
            proof {
                assert(label@.subrange(start as int, k + 1) =~= label@.subrange(start as int, k as int).push(
                    label@[k as int],
                ));
            }
            k = k + 1;
        }
        proof {
            assert(name@ =~= command_name(items@[i as int].label@));
        }
        names.push(str_chars(lowercase(name.as_str()).as_str()));
        descs.push(str_chars(lowercase(items[i].description.as_str()).as_str()));
        i = i + 1;
    }
    (names, descs)
}

impl PanelList {
    /// The indices shown under `query` (see `filtered_spec`).
    pub fn filtered_indices(&self, query: &str) -> (r: Vec<usize>)
        ensures
            r@ == filtered_spec(self.items@, self.is_slash, query@),
    {
        let n = self.items.len();
        let q = str_chars(query);
        if q.len() == 0 {
            let mut all: Vec<usize> = Vec::new();
            let mut i: usize = 0;
            while i < n
                invariant
                    n == self.items@.len(),
                    i <= n,
                    all@ == indices_where(i as int, |t: int| true),
                decreases n - i,
            {
                all.push(i);
                i = i + 1;
            }
            return all;
        }
        let lower = str_chars(lowercase(query).as_str());
        let (names, descs) = lowered_entries(&self.items);
        let ghost lw = lowercase_spec(query@);
        if self.is_slash {
            let ghost pp = |i: int| entry_prefix_match(self.items@[i], lw);
            let ghost po = |i: int| !entry_prefix_match(self.items@[i], lw) && entry_matches(self.items@[i], lw);
            let mut prefix_matches: Vec<usize> = Vec::new();
            let mut other_matches: Vec<usize> = Vec::new();
            let mut i: usize = 0;
            while i < n
                invariant
                    n == self.items@.len(),
                    i <= n,
                    lower@ == lw,
                    names@.len() == n,
                    descs@.len() == n,
                    forall|t: int| 0 <= t < n ==> (#[trigger] names@[t])@ == lowercase_spec(command_name(self.items@[t].label@)),
                    forall|t: int| 0 <= t < n ==> (#[trigger] descs@[t])@ == lowercase_spec(self.items@[t].description@),
                    pp == (|i: int| entry_prefix_match(self.items@[i], lw)),
                    po == (|i: int| !entry_prefix_match(self.items@[i], lw) && entry_matches(self.items@[i], lw)),
                    prefix_matches@ == indices_where(i as int, pp),
                    other_matches@ == indices_where(i as int, po),
                decreases n - i,
            {
                let name = &names[i];
                let is_prefix = if lower.len() <= name.len() {
                    occurs_at_exec(name, &lower, 0)
                } else {
                    false
                };
                if is_prefix {
                    prefix_matches.push(i);
                } else if contains_exec(name, &lower) || contains_exec(&descs[i], &lower) {
                    other_matches.push(i);
                }
                i = i + 1;
            }
            let mut k: usize = 0;
            let ghost base = prefix_matches@;
            while k < other_matches.len()
                invariant
                    k <= other_matches@.len(),
                    prefix_matches@ == base + other_matches@.take(k as int),
                decreases other_matches@.len() - k,
            {
                prefix_matches.push(other_matches[k]);
                proof {
                    assert(other_matches@.take(k + 1) =~= other_matches@.take(k as int).push(other_matches@[k as int]));
                }
                k = k + 1;
            }
            proof {
                assert(other_matches@.take(other_matches@.len() as int) =~= other_matches@);
            }
            return prefix_matches;
        }
        let ghost keep = |i: int| picker_keeps(self.items@, lw, i);
        let mut result: Vec<usize> = Vec::new();
        let mut i: usize = 0;
        while i < n
            invariant
                n == self.items@.len(),
                i <= n,
                lower@ == lw,
                names@.len() == n,
                descs@.len() == n,
                forall|t: int| 0 <= t < n ==> (#[trigger] names@[t])@ == lowercase_spec(command_name(self.items@[t].label@)),
                forall|t: int| 0 <= t < n ==> (#[trigger] descs@[t])@ == lowercase_spec(self.items@[t].description@),
                keep == (|i: int| picker_keeps(self.items@, lw, i)),
                result@ == indices_where(i as int, keep),
            decreases n - i,
        {
            if self.items[i].is_header {
                let header_idx = i;
                i = i + 1;
                let group_start = i;
                let mut group_matches: Vec<usize> = Vec::new();
                let ghost before = result@;
                proof {
                    assert(indices_where(group_start as int, keep) == before + (if keep(header_idx as int) {
                        seq![header_idx]
                    } else {
                        Seq::<usize>::empty()
                    }));
                }
                while i < n && !self.items[i].is_header
                    invariant
                        n == self.items@.len(),
                        header_idx < group_start <= i <= n,
                        group_start == header_idx + 1,
                        self.items@[header_idx as int].is_header,
                        lower@ == lw,
                        names@.len() == n,
                        descs@.len() == n,
                        forall|t: int| 0 <= t < n ==> (#[trigger] names@[t])@ == lowercase_spec(command_name(self.items@[t].label@)),
                        forall|t: int| 0 <= t < n ==> (#[trigger] descs@[t])@ == lowercase_spec(self.items@[t].description@),
                        forall|t: int| group_start <= t < i ==> !(#[trigger] self.items@[t]).is_header,
                        forall|t: int| 0 <= t < group_matches@.len() ==> group_start <= #[trigger] group_matches@[t] < i,
                        (group_matches@.len() > 0) == exists|j: int| group_start <= j < i && #[trigger] entry_matches(self.items@[j], lw),
                        keep == (|i: int| picker_keeps(self.items@, lw, i)),
                        before == indices_where(header_idx as int, keep),
                        indices_where(i as int, keep) == before + (if keep(header_idx as int) {
                            seq![header_idx]
                        } else {
                            Seq::<usize>::empty()
                        }) + group_matches@,
                    decreases n - i,
                {
                    let m = contains_exec(&names[i], &lower) || contains_exec(&descs[i], &lower);
                    let ghost gm = group_matches@;
                    if m {
                        group_matches.push(i);
                    }
                    proof {
                        assert(keep(i as int) == m);
                        if m {
                            assert(group_matches@ =~= gm.push(i));
                            assert(entry_matches(self.items@[i as int], lw));
                        }
                    }
                    i = i + 1;
                }
                proof {
                    // The group ends at `i`: the header is kept exactly when
                    // some item scanned in the group matched.
                    let h = header_idx as int;
                    if keep(h) {
                        let j = choose|j: int| in_group(self.items@, h, j) && #[trigger] entry_matches(self.items@[j], lw);
                        if j >= i {
                            assert(!self.items@[i as int].is_header);
                        }
                        assert(group_start <= j < i);
                    }
                    if group_matches@.len() > 0 {
                        let j = choose|j: int| group_start <= j < i && #[trigger] entry_matches(self.items@[j], lw);
                        assert(in_group(self.items@, h, j));
                        assert(keep(h));
                    }
                }
                if group_matches.len() > 0 {
                    result.push(header_idx);
                }
                let mut k: usize = 0;
                while k < group_matches.len()
                    invariant
                        k <= group_matches@.len(),
                        result@ == before + (if group_matches@.len() > 0 {
                            seq![header_idx]
                        } else {
                            Seq::<usize>::empty()
                        }) + group_matches@.take(k as int),
                    decreases group_matches@.len() - k,
                {
                    result.push(group_matches[k]);
                    proof {
                        assert(group_matches@.take(k + 1) =~= group_matches@.take(k as int).push(group_matches@[k as int]));
                    }
                    k = k + 1;
                }
                proof {
                    assert(group_matches@.take(group_matches@.len() as int) =~= group_matches@);
                }
            } else {
                let m = contains_exec(&names[i], &lower) || contains_exec(&descs[i], &lower);
                if m {
                    result.push(i);
                }
                i = i + 1;
            }
        }
        result
    }

    /// The navigable indices under `query` (see `navigable_spec`).
    pub fn navigable_indices(&self, query: &str) -> (r: Vec<usize>)
        ensures
            r@ == navigable_spec(self.items@, self.is_slash, query@),
    {
        let shown = self.filtered_indices(query);
        let ghost f = shown@;
        proof {
            filtered_bounded(self.items@, self.is_slash, query@);
        }
        let mut r: Vec<usize> = Vec::new();
        let mut k: usize = 0;
        while k < shown.len()
            invariant
                shown@ == f,
                f == filtered_spec(self.items@, self.is_slash, query@),
                forall|t: int| 0 <= t < f.len() ==> (#[trigger] f[t]) < self.items@.len(),
                k <= f.len(),
                r@ == non_headers(self.items@, f.take(k as int)),
            decreases f.len() - k,
        {
            let idx = shown[k];
            proof {
                let t = f.take(k + 1);
                assert(t.drop_last() =~= f.take(k as int));
                assert(t.last() == idx);
            }
            if !self.items[idx].is_header {
                r.push(idx);
            }
            k = k + 1;
        }
        proof {
            assert(f.take(f.len() as int) =~= f);
        }
        r
    }

    /// Moves the selection down (see `next_selection`).
    pub fn select_next(&mut self, query: &str)
        ensures
            final(self).selected_index == next_selection(
                navigable_spec(old(self).items@, old(self).is_slash, query@),
                old(self).selected_index,
            ),
            final(self).items@ == old(self).items@,
            final(self).is_slash == old(self).is_slash,
    {
        let nav = self.navigable_indices(query);
        if nav.len() == 0 {
            return;
        }
        let p = find_position(&nav, self.selected_index);
        let next = match p {
            Some(pos) => (pos + 1) % nav.len(),
            None => 0,
        };
        self.selected_index = nav[next];
    }

    /// Moves the selection up (see `prev_selection`).
    pub fn select_prev(&mut self, query: &str)
        ensures
            final(self).selected_index == prev_selection(
                navigable_spec(old(self).items@, old(self).is_slash, query@),
                old(self).selected_index,
            ),
            final(self).items@ == old(self).items@,
            final(self).is_slash == old(self).is_slash,
    {
        let nav = self.navigable_indices(query);
        if nav.len() == 0 {
            return;
        }
        let p = find_position(&nav, self.selected_index);
        let prev = match p {
            Some(pos) => if pos == 0 {
                nav.len() - 1
            } else {
                pos - 1
            },
            None => 0,
        };
        self.selected_index = nav[prev];
    }

    /// Selects the first navigable item under `query`, or index zero.
    pub fn reset_selection_for_query(&mut self, query: &str)
        ensures
            final(self).selected_index == ({
                let nav = navigable_spec(old(self).items@, old(self).is_slash, query@);
                if nav.len() > 0 { nav[0] } else { 0 }
            }),
            final(self).items@ == old(self).items@,
            final(self).is_slash == old(self).is_slash,
    {
        let nav = self.navigable_indices(query);
        self.selected_index = if nav.len() > 0 { nav[0] } else { 0 };
    }
}

/// The first position of `x` in `s`.
pub(crate) fn find_position(s: &Vec<usize>, x: usize) -> (p: Option<usize>)
    ensures
        match p {
            Some(i) => i < s@.len() && i == position(s@, x),
            None => position(s@, x) < 0,
        },
{
    let mut i: usize = 0;
    proof {
        assert(s@.skip(0) =~= s@);
    }
    while i < s.len()
        invariant
            i <= s@.len(),
            position(s@, x) == (if position(s@.skip(i as int), x) < 0 {
                -1
            } else {
                position(s@.skip(i as int), x) + i
            }),
        decreases s@.len() - i,
    {
        proof {
            assert(s@.skip(i as int)[0] == s@[i as int]);
            assert(s@.skip(i as int).skip(1) =~= s@.skip(i + 1));
        }
        if s[i] == x {
            return Some(i);
        }
        i = i + 1;
    }
    proof {
        assert(s@.skip(i as int) =~= Seq::<usize>::empty());
    }
    None
}

pub(crate) proof fn filtered_bounded(items: Seq<PanelEntry>, is_slash: bool, query: Seq<char>)
    ensures
        forall|t: int|
            0 <= t < filtered_spec(items, is_slash, query).len() ==> (#[trigger] filtered_spec(
                items,
                is_slash,
                query,
            )[t]) < items.len(),
{
    let n = items.len() as int;
    let lower = lowercase_spec(query);
    indices_where_bounded(n, |i: int| true);
    indices_where_bounded(n, |i: int| entry_prefix_match(items[i], lower));
    indices_where_bounded(n, |i: int| !entry_prefix_match(items[i], lower) && entry_matches(items[i], lower));
    indices_where_bounded(n, |i: int| picker_keeps(items, lower, i));
}

proof fn non_headers_are_items(items: Seq<PanelEntry>, s: Seq<usize>)
    ensures
        forall|t: int| 0 <= t < non_headers(items, s).len() ==> !items[(#[trigger] non_headers(items, s)[t]) as int].is_header,
        forall|t: int| 0 <= t < non_headers(items, s).len() ==> s.contains(#[trigger] non_headers(items, s)[t]),
    decreases s.len(),
{
    if s.len() > 0 {
        non_headers_are_items(items, s.drop_last());
        assert forall|t: int| 0 <= t < non_headers(items, s).len() implies s.contains(#[trigger] non_headers(items, s)[t]) by {
            let v = non_headers(items, s)[t];
            if t < non_headers(items, s.drop_last()).len() {
                assert(s.drop_last().contains(v));
                let j = choose|j: int| 0 <= j < s.drop_last().len() && s.drop_last()[j] == v;
                assert(s[j] == v);
            } else {
                assert(s[s.len() - 1] == v);
            }
        }
    }
}

/// Moving the selection never lands on a group header: whenever the panel
/// has a navigable item, both directions select one.
pub proof fn selection_never_lands_on_a_header(
    items: Seq<PanelEntry>,
    is_slash: bool,
    query: Seq<char>,
    selected: usize,
)
    requires
        navigable_spec(items, is_slash, query).len() > 0,
    ensures
        !items[next_selection(navigable_spec(items, is_slash, query), selected) as int].is_header,
        !items[prev_selection(navigable_spec(items, is_slash, query), selected) as int].is_header,
        navigable_spec(items, is_slash, query).contains(next_selection(navigable_spec(items, is_slash, query), selected)),
        navigable_spec(items, is_slash, query).contains(prev_selection(navigable_spec(items, is_slash, query), selected)),
{
    let nav = navigable_spec(items, is_slash, query);
    non_headers_are_items(items, filtered_spec(items, is_slash, query));
    position_bounds(nav, selected);
    let p = position(nav, selected);
    if p >= 0 {
        let q = (p + 1) % (nav.len() as int);
        assert(0 <= q < nav.len());
        assert(nav.contains(nav[q]));
        if p > 0 {
            assert(nav.contains(nav[p - 1]));
        }
        assert(nav.contains(nav[nav.len() - 1]));
    }
    assert(nav.contains(nav[0]));
}

pub(crate) proof fn position_bounds(s: Seq<usize>, x: usize)
    ensures
        -1 <= position(s, x) < s.len(),
        position(s, x) >= 0 ==> s[position(s, x)] == x,
    decreases s.len(),
{
    if s.len() > 0 && s[0] != x {
        position_bounds(s.skip(1), x);
    }
}

/// Which panel is open, as far as typing and pasting are concerned.
#[derive(Debug, Clone, Copy, PartialEq, Eq)]
pub enum PanelMode {
    Closed,
    SlashMenu,
    Picker,
    CredentialInput,
    ProviderWizard,
}

/// The search query of the open panel: the slash menu filters by the
/// composer text after its leading `/` (nothing without one), a picker by
/// the raw composer text, any other panel by nothing.
pub open spec fn panel_query_spec(mode: PanelMode, buffer: Seq<char>) -> Seq<char> {
    match mode {
        PanelMode::SlashMenu => if buffer.len() > 0 && buffer[0] == '/' {
            buffer.skip(1)
        } else {
            Seq::empty()
        },
        PanelMode::Picker => buffer,
        _ => Seq::empty(),
    }
}

/// The query of the open panel (see `panel_query_spec`).
pub fn panel_query(mode: PanelMode, buffer: &str) -> (q: String)
    ensures
        q@ == panel_query_spec(mode, buffer@),
{
    match mode {
        PanelMode::SlashMenu => {
            let chars = str_chars(buffer);
            let mut q = String::new();
            if chars.len() > 0 && chars[0] == '/' {
                let mut k: usize = 1;
                while k < chars.len()
                    invariant
                        1 <= k <= chars@.len(),
                        q@ == chars@.subrange(1, k as int),
                    decreases chars@.len() - k,
                {
                    q.push(chars[k]);
                    proof {
                        assert(chars@.subrange(1, k + 1) =~= chars@.subrange(1, k as int).push(chars@[k as int]));
                    }
                    k = k + 1;
                }
                proof {
                    assert(q@ =~= buffer@.skip(1));
                }
            } else {
                proof {
                    assert(q@ =~= Seq::<char>::empty());
                }
            }
            q
        },
        PanelMode::Picker => String::from_str(buffer),
        _ => String::new(),
    }
}

/// Where pasted text goes.
#[derive(Debug, Clone, Copy, PartialEq, Eq)]
pub enum PasteTarget {
    /// An approval prompt is up: the paste is dropped.
    Ignored,
    /// Into the active credential field.
    Credential,
    /// Into the composer, which filters the open panel; the selection is
    /// reset for the new query.
    PanelFilter,
    /// Into the composer.
    Composer,
}

/// Routes a paste: dropped while an approval prompt is up, into the
/// credential field while one is open, and otherwise into the composer
/// (refiltering an open panel).
pub fn paste_target(approval_visible: bool, mode: PanelMode) -> (t: PasteTarget)
    ensures
        approval_visible ==> t == PasteTarget::Ignored,
        !approval_visible && mode == PanelMode::CredentialInput ==> t == PasteTarget::Credential,
        !approval_visible && mode != PanelMode::CredentialInput && mode != PanelMode::Closed ==> t
            == PasteTarget::PanelFilter,
        !approval_visible && mode == PanelMode::Closed ==> t == PasteTarget::Composer,
{
    if approval_visible {
        PasteTarget::Ignored
    } else {
        match mode {
            PanelMode::CredentialInput => PasteTarget::Credential,
            PanelMode::Closed => PasteTarget::Composer,
            _ => PasteTarget::PanelFilter,
        }
    }
}

} // verus!

//! The context walker: a directory tree, read into plain values, is laid
//! out as the sequence of entries that the daemon expects: depth first, a
//! directory before what it holds, the entries of one directory ascending
//! by the bytes of their names.

use crate::filemode::{S_IFDIR, S_IFMT, S_IFREG};
use crate::text::chars_of;
use vstd::prelude::*;

verus! {

/// One entry of a directory, with what it holds if it is a directory.
#[derive(Debug, PartialEq, Eq)]
pub struct Entry {
    /// The name within its directory.
    pub name: String,
    /// The POSIX mode, file type included.
    pub mode: u32,
    /// The length in bytes.
    pub size: u64,
    /// The entries below it. Only read where the mode is that of a directory.
    pub children: Vec<Entry>,
}

/// One entry as the walk yields it.
#[derive(Debug, Clone, PartialEq, Eq)]
pub struct WalkItem {
    /// The path relative to the root, with `/` between the names.
    pub path: String,
    /// The POSIX mode of the entry.
    pub mode: u32,
    /// The length of the entry in bytes.
    pub size: u64,
}

/// A yielded entry as plain values.
pub ghost struct ItemView {
    pub path: Seq<char>,
    pub mode: u32,
    pub size: u64,
}

impl View for WalkItem {
    type V = ItemView;

    open spec fn view(&self) -> ItemView {
        ItemView { path: self.path@, mode: self.mode, size: self.size }
    }
}

/// The yielded entries of a list as plain values.
pub open spec fn item_views(items: Seq<WalkItem>) -> Seq<ItemView> {
    items.map_values(|w: WalkItem| w@)
}

/// Whether a POSIX mode is that of a directory.
pub open spec fn mode_is_dir(mode: u32) -> bool {
    mode & S_IFMT == S_IFDIR
}

/// Whether a POSIX mode is that of a regular file.
pub open spec fn mode_is_regular(mode: u32) -> bool {
    mode & S_IFMT == S_IFREG
}

/// Whether a POSIX mode is that of a directory.
pub fn is_dir(mode: u32) -> (r: bool)
    ensures
        r == mode_is_dir(mode),
{
    mode & S_IFMT == S_IFDIR
}

/// Whether a POSIX mode is that of a regular file.
pub fn is_regular(mode: u32) -> (r: bool)
    ensures
        r == mode_is_regular(mode),
{
    mode & S_IFMT == S_IFREG
}

/// Lexicographic order on byte strings: at the first place where the two
/// differ the smaller byte decides, and a proper beginning comes first.
pub open spec fn bytes_lt(a: Seq<u8>, b: Seq<u8>) -> bool
    decreases a.len(),
{
    if b.len() == 0 {
        false
    } else if a.len() == 0 {
        true
    } else if a[0] != b[0] {
        a[0] < b[0]
    } else {
        bytes_lt(a.skip(1), b.skip(1))
    }
}

/// The order of names within a directory: by their UTF-8 bytes.
pub open spec fn name_lt(a: Seq<char>, b: Seq<char>) -> bool {
    bytes_lt(vstd::utf8::encode_utf8(a), vstd::utf8::encode_utf8(b))
}

/// Whether `a` comes before `b` in the order of bytes.
pub fn bytes_before(a: &[u8], b: &[u8]) -> (r: bool)
    ensures
        r == bytes_lt(a@, b@),
{
    let mut k: usize = 0;
    assert(a@.skip(0) =~= a@ && b@.skip(0) =~= b@);
    loop
        invariant
            k <= a.len(),
            k <= b.len(),
            bytes_lt(a@, b@) == bytes_lt(a@.skip(k as int), b@.skip(k as int)),
        decreases a.len() - k,
    {
        if k == b.len() {
            return false;
        }
        if k == a.len() {
            return true;
        }
        if a[k] != b[k] {
            return a[k] < b[k];
        }
        assert(a@.skip(k as int).skip(1) =~= a@.skip(k + 1));
        assert(b@.skip(k as int).skip(1) =~= b@.skip(k + 1));
        k += 1;
    }
}

/// Whether the name `a` comes before the name `b`.
pub fn name_before(a: &str, b: &str) -> (r: bool)
    ensures
        r == name_lt(a@, b@),
{
    bytes_before(a.as_bytes(), b.as_bytes())
}

/// The path of an entry named `name` in the directory `prefix`; the root
/// is the empty prefix.
pub open spec fn child_path(prefix: Seq<char>, name: Seq<char>) -> Seq<char> {
    if prefix.len() == 0 {
        name
    } else {
        prefix + seq!['/'] + name
    }
}

/// The position of the entry that comes first by name; among equal names,
/// the earliest.
pub open spec fn least_index(entries: Seq<Entry>) -> int
    decreases entries.len(),
{
    if entries.len() <= 1 {
        0
    } else {
        let m = least_index(entries.drop_last());
        if name_lt(entries.last().name@, entries[m].name@) {
            entries.len() - 1
        } else {
            m
        }
    }
}

/// The position found by `least_index` lies within the list.
pub proof fn lemma_least_index_in_range(entries: Seq<Entry>)
    requires
        entries.len() > 0,
    ensures
        0 <= least_index(entries) < entries.len(),
    decreases entries.len(),
{
    if entries.len() > 1 {
        lemma_least_index_in_range(entries.drop_last());
    }
}

/// The walk of the entries of one directory: the entry that comes first by
/// name with all below it, then the walk of the others. With a filter,
/// an entry whose path is not in it is left out together with all below it.
pub open spec fn walk(prefix: Seq<char>, entries: Seq<Entry>, filter: Option<Set<Seq<char>>>) -> Seq<
    ItemView,
>
    decreases entries,
{
    if entries.len() == 0 {
        Seq::empty()
    } else {
        let m = least_index(entries);
        proof {
            lemma_least_index_in_range(entries);
            vstd::seq::axiom_seq_len_decreases(entries, entries.remove(m));
        }
        visit(prefix, entries[m], filter) + walk(prefix, entries.remove(m), filter)
    }
}

/// The walk of one entry: the entry itself, then, if it is a directory,
/// the walk of what it holds.
pub open spec fn visit(prefix: Seq<char>, entry: Entry, filter: Option<Set<Seq<char>>>) -> Seq<
    ItemView,
>
    decreases entry,
{
    let path = child_path(prefix, entry.name@);
    if filter is Some && !filter->0.contains(path) {
        Seq::empty()
    } else {
        seq![ItemView { path, mode: entry.mode, size: entry.size }] + (if mode_is_dir(entry.mode) {
            walk(path, entry.children@, filter)
        } else {
            Seq::empty()
        })
    }
}

/// `a` is `p` cut off before one of its `/`.
pub open spec fn is_ancestor_of(a: Seq<char>, p: Seq<char>) -> bool {
    exists|i: int| 0 <= i < p.len() && p[i] == '/' && a == p.take(i)
}

/// The paths that a list of explicit paths admits: each path of the list
/// and each of its ancestors.
pub open spec fn include_closure(paths: Seq<Seq<char>>) -> Set<Seq<char>> {
    Set::new(
        |x: Seq<char>|
            exists|k: int|
                0 <= k < paths.len() && (x == paths[k] || is_ancestor_of(x, #[trigger] paths[k])),
    )
}

/// The ancestors of `p` that end before a `/` at a position below `j`.
pub open spec fn ancestors_upto(p: Seq<char>, j: int) -> Set<Seq<char>>
    decreases j,
{
    if j <= 0 {
        Set::empty()
    } else if p[j - 1] == '/' {
        ancestors_upto(p, j - 1).insert(p.take(j - 1))
    } else {
        ancestors_upto(p, j - 1)
    }
}

/// What the first `k` paths of a list admit.
pub open spec fn closure_upto(paths: Seq<Seq<char>>, k: int) -> Set<Seq<char>>
    decreases k,
{
    if k <= 0 {
        Set::empty()
    } else {
        closure_upto(paths, k - 1).insert(paths[k - 1]).union(
            ancestors_upto(paths[k - 1], paths[k - 1].len() as int),
        )
    }
}

/// `ancestors_upto` holds exactly the ancestors cut before a `/` below `j`.
pub proof fn lemma_ancestors_upto(p: Seq<char>, j: int, x: Seq<char>)
    requires
        0 <= j <= p.len(),
    ensures
        ancestors_upto(p, j).contains(x) <==> exists|i: int|
            0 <= i < j && p[i] == '/' && x == p.take(i),
    decreases j,
{
    if j > 0 {
        lemma_ancestors_upto(p, j - 1, x);
        if ancestors_upto(p, j).contains(x) {
            if p[j - 1] == '/' && x == p.take(j - 1) {
                assert(0 <= j - 1 < j && p[j - 1] == '/' && x == p.take(j - 1));
            } else {
                let i = choose|i: int| 0 <= i < j - 1 && p[i] == '/' && x == p.take(i);
                assert(0 <= i < j && p[i] == '/' && x == p.take(i));
            }
        }
        if exists|i: int| 0 <= i < j && p[i] == '/' && x == p.take(i) {
            let i = choose|i: int| 0 <= i < j && p[i] == '/' && x == p.take(i);
            if i < j - 1 {
                assert(0 <= i < j - 1 && p[i] == '/' && x == p.take(i));
            }
        }
    }
}

/// `closure_upto` over the whole list is the closure of the list.
pub proof fn lemma_closure_upto(paths: Seq<Seq<char>>, k: int, x: Seq<char>)
    requires
        0 <= k <= paths.len(),
    ensures
        closure_upto(paths, k).contains(x) <==> exists|i: int|
            0 <= i < k && (x == paths[i] || is_ancestor_of(x, #[trigger] paths[i])),
    decreases k,
{
    if k > 0 {
        lemma_closure_upto(paths, k - 1, x);
        let p = paths[k - 1];
        lemma_ancestors_upto(p, p.len() as int, x);
        if closure_upto(paths, k).contains(x) {
            if closure_upto(paths, k - 1).contains(x) {
                let i = choose|i: int|
                    0 <= i < k - 1 && (x == paths[i] || is_ancestor_of(x, #[trigger] paths[i]));
                assert(0 <= i < k && (x == paths[i] || is_ancestor_of(x, paths[i])));
            } else {
                assert(x == p || is_ancestor_of(x, p));
                assert(0 <= k - 1 < k && (x == paths[k - 1] || is_ancestor_of(x, paths[k - 1])));
            }
        }
        if exists|i: int|
            0 <= i < k && (x == paths[i] || is_ancestor_of(x, #[trigger] paths[i])) {
            let i = choose|i: int|
                0 <= i < k && (x == paths[i] || is_ancestor_of(x, #[trigger] paths[i]));
            if i < k - 1 {
                assert(0 <= i < k - 1 && (x == paths[i] || is_ancestor_of(x, paths[i])));
            }
        }
    }
}

/// The set of paths that a filter admits, held as a list.
#[derive(Debug, Clone, PartialEq, Eq)]
pub struct IncludeSet {
    pub paths: Vec<String>,
}

impl View for IncludeSet {
    type V = Set<Seq<char>>;

    open spec fn view(&self) -> Set<Seq<char>> {
        crate::text::views(self.paths@).to_set()
    }
}

impl IncludeSet {
    /// The filter for a list of explicit paths: each of them and each of
    /// its ancestors.
    pub fn from_followpaths(followpaths: &Vec<String>) -> (r: Self)
        ensures
            r@ == include_closure(crate::text::views(followpaths@)),
    {
        let ghost all = crate::text::views(followpaths@);
        let mut out: Vec<String> = Vec::new();
        let mut k: usize = 0;
        assert(crate::text::views(out@).to_set() =~= closure_upto(all, 0));
        while k < followpaths.len()
            invariant
                k <= followpaths.len(),
                all == crate::text::views(followpaths@),
                crate::text::views(out@).to_set() == closure_upto(all, k as int),
            decreases followpaths.len() - k,
        {
            let p = &followpaths[k];
            let chars = chars_of(p.as_str());
            let ghost base = closure_upto(all, k as int).insert(p@);
            let ghost before = crate::text::views(out@);
            out.push(p.clone());
            assert(crate::text::views(out@) =~= before.push(p@));
            proof {
                lemma_to_set_push(before, p@);
            }
            assert(crate::text::views(out@).to_set() =~= base.union(ancestors_upto(p@, 0)));
            let mut j: usize = 0;
            while j < chars.len()
                invariant
                    j <= chars.len(),
                    chars@ == p@,
                    crate::text::views(out@).to_set() == base.union(ancestors_upto(p@, j as int)),
                decreases chars.len() - j,
            {
                if chars[j] == '/' {
                    let ghost before = crate::text::views(out@);
                    let cut = String::from_str(p.as_str().substring_char(0, j));
                    assert(cut@ =~= p@.take(j as int));
                    out.push(cut);
                    assert(crate::text::views(out@) =~= before.push(p@.take(j as int)));
                    proof {
                        lemma_to_set_push(before, p@.take(j as int));
                    }
                    assert(crate::text::views(out@).to_set() =~= base.union(
                        ancestors_upto(p@, j + 1),
                    ));
                }
                j += 1;
            }
            assert(all[k as int] == p@);
            k += 1;
        }
        let r = IncludeSet { paths: out };
        proof {
            assert forall|x: Seq<char>| r@.contains(x) == include_closure(all).contains(x) by {
                lemma_closure_upto(all, all.len() as int, x);
            }
            assert(r@ =~= include_closure(all));
        }
        r
    }

    /// Whether the filter admits a path.
    pub fn contains(&self, path: &str) -> (r: bool)
        ensures
            r == self@.contains(path@),
    {
        let wanted = String::from_str(path);
        let ghost all = crate::text::views(self.paths@);
        let mut i: usize = 0;
        while i < self.paths.len()
            invariant
                i <= self.paths.len(),
                wanted@ == path@,
                all == crate::text::views(self.paths@),
                forall|j: int| 0 <= j < i ==> all[j] != path@,
            decreases self.paths.len() - i,
        {
            if self.paths[i] == wanted {
                assert(all[i as int] == path@);
                assert(all.contains(path@));
                return true;
            }
            i += 1;
        }
        assert(!all.contains(path@));
        false
    }
}

/// The set of a list with one more item is the set of the list with that
/// item added.
proof fn lemma_to_set_push(s: Seq<Seq<char>>, x: Seq<char>)
    ensures
        s.push(x).to_set() == s.to_set().insert(x),
{
    assert forall|y: Seq<char>| s.push(x).to_set().contains(y) == s.to_set().insert(x).contains(
        y,
    ) by {
        if s.push(x).contains(y) {
            let i = choose|i: int| 0 <= i < s.push(x).len() && s.push(x)[i] == y;
            if i < s.len() {
                assert(s[i] == y);
            }
        }
        if s.contains(y) {
            let i = choose|i: int| 0 <= i < s.len() && s[i] == y;
            assert(s.push(x)[i] == y);
        }
        if y == x {
            assert(s.push(x)[s.len() as int] == x);
        }
    }
    assert(s.push(x).to_set() =~= s.to_set().insert(x));
}

/// The entries at the given positions, in the order of the positions.
pub open spec fn selected(entries: Seq<Entry>, positions: Seq<usize>) -> Seq<Entry> {
    positions.map_values(|i: usize| entries[i as int])
}

/// The set of paths that an optional filter admits.
pub open spec fn filter_view(filter: Option<&IncludeSet>) -> Option<Set<Seq<char>>> {
    match filter {
        Some(f) => Some(f@),
        None => None,
    }
}

/// Among the entries at the given positions, the place of the one that
/// comes first by name.
fn find_least(entries: &Vec<Entry>, remaining: &Vec<usize>) -> (k: usize)
    requires
        remaining.len() > 0,
        forall|i: int| 0 <= i < remaining.len() ==> remaining[i] < entries.len(),
    ensures
        k < remaining.len(),
        k == least_index(selected(entries@, remaining@)),
{
    let ghost cur = selected(entries@, remaining@);
    let mut m: usize = 0;
    let mut j: usize = 1;
    assert(least_index(cur.take(1)) == 0);
    while j < remaining.len()
        invariant
            1 <= j <= remaining.len(),
            m < j,
            cur == selected(entries@, remaining@),
            forall|i: int| 0 <= i < remaining.len() ==> remaining[i] < entries.len(),
            m == least_index(cur.take(j as int)),
        decreases remaining.len() - j,
    {
        proof {
            let next = cur.take(j + 1);
            assert(next.drop_last() =~= cur.take(j as int));
            assert(next.last() == cur[j as int]);
            assert(next[m as int] == cur[m as int]);
        }
        let candidate = &entries[remaining[j]];
        let best = &entries[remaining[m]];
        if name_before(candidate.name.as_str(), best.name.as_str()) {
            m = j;
        }
        j += 1;
    }
    assert(cur.take(j as int) =~= cur);
    m
}

/// Appends the walk of one entry.
fn visit_into(prefix: &str, entry: &Entry, filter: Option<&IncludeSet>, out: &mut Vec<WalkItem>)
    ensures
        item_views(final(out)@) == item_views(old(out)@) + visit(
            prefix@,
            *entry,
            filter_view(filter),
        ),
    decreases entry,
{
    let ghost before = item_views(out@);
    let path = if prefix.is_empty() {
        entry.name.clone()
    } else {
        let mut joined = String::from_str(prefix);
        proof {
            reveal_strlit("/");
            assert("/"@ =~= seq!['/']);
        }
        joined.append("/");
        joined.append(entry.name.as_str());
        joined
    };
    assert(path@ == child_path(prefix@, entry.name@));
    let admitted = match filter {
        Some(f) => f.contains(path.as_str()),
        None => true,
    };
    if !admitted {
        assert(before + Seq::<ItemView>::empty() =~= before);
        return ;
    }
    let item = WalkItem { path: path.clone(), mode: entry.mode, size: entry.size };
    out.push(item);
    assert(item_views(out@) =~= before + seq![item@]);
    if is_dir(entry.mode) {
        walk_into(path.as_str(), &entry.children, filter, out);
        assert(item_views(out@) =~= before + (seq![item@] + walk(
            path@,
            entry.children@,
            filter_view(filter),
        )));
    } else {
        assert(before + (seq![item@] + Seq::<ItemView>::empty()) =~= before + seq![item@]);
    }
}

/// Appends the walk of the entries of one directory.
fn walk_into(prefix: &str, entries: &Vec<Entry>, filter: Option<&IncludeSet>, out: &mut Vec<WalkItem>)
    ensures
        item_views(final(out)@) == item_views(old(out)@) + walk(
            prefix@,
            entries@,
            filter_view(filter),
        ),
    decreases entries,
{
    let ghost before = item_views(out@);
    let ghost f = filter_view(filter);
    let mut remaining: Vec<usize> = Vec::new();
    let mut i: usize = 0;
    while i < entries.len()
        invariant
            i <= entries.len(),
            remaining.len() == i,
            forall|j: int| 0 <= j < i ==> remaining[j] == j,
        decreases entries.len() - i,
    {
        remaining.push(i);
        i += 1;
    }
    assert(selected(entries@, remaining@) =~= entries@);
    assert(before + Seq::<ItemView>::empty() =~= before);
    let ghost mut done: Seq<ItemView> = Seq::empty();
    while remaining.len() > 0
        invariant
            forall|j: int| 0 <= j < remaining.len() ==> remaining[j] < entries.len(),
            f == filter_view(filter),
            item_views(out@) == before + done,
            done + walk(prefix@, selected(entries@, remaining@), f) == walk(prefix@, entries@, f),
        decreases remaining.len(),
    {
        let ghost cur = selected(entries@, remaining@);
        let k = find_least(entries, &remaining);
        let at = remaining[k];
        visit_into(prefix, &entries[at], filter, out);
        remaining.remove(k);
        proof {
            let step = visit(prefix@, entries@[at as int], f);
            assert(cur[k as int] == entries@[at as int]);
            assert(selected(entries@, remaining@) =~= cur.remove(k as int));
            assert(item_views(out@) =~= before + (done + step));
            assert((done + step) + walk(prefix@, cur.remove(k as int), f) =~= done + (step + walk(
                prefix@,
                cur.remove(k as int),
                f,
            )));
            done = done + step;
        }
    }
    assert(done + Seq::<ItemView>::empty() =~= done);
}

/// The walk of a context whose root holds `entries`: every entry, or with
/// a filter every entry that it admits, depth first and ascending by name
/// within each directory.
pub fn walk_tree(entries: &Vec<Entry>, filter: Option<&IncludeSet>) -> (r: Vec<WalkItem>)
    ensures
        item_views(r@) == walk(Seq::empty(), entries@, filter_view(filter)),
{
    let mut out: Vec<WalkItem> = Vec::new();
    assert(item_views(out@) =~= Seq::<ItemView>::empty());
    walk_into("", entries, filter, &mut out);
    proof {
        reveal_strlit("");
        assert(""@ =~= Seq::<char>::empty());
        assert(Seq::<ItemView>::empty() + walk(Seq::empty(), entries@, filter_view(filter))
            =~= walk(Seq::empty(), entries@, filter_view(filter)));
    }
    out
}

} // verus!

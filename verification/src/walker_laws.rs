//! What holds of every walk: a filter only removes entries, a directory
//! stands before all below it, and the entries of one directory come out
//! ascending by name.

use crate::walker::{
    bytes_lt, child_path, include_closure, is_ancestor_of, least_index,
    lemma_least_index_in_range, mode_is_dir, name_lt, visit, walk, Entry, ItemView,
};
use vstd::prelude::*;

verus! {

/// A name of an entry: not empty, and without a `/`.
pub open spec fn plain_name(name: Seq<char>) -> bool {
    name.len() > 0 && forall|i: int| 0 <= i < name.len() ==> name[i] != '/'
}

/// Every name in the tree, at every depth, is a name of an entry.
pub open spec fn well_named(entries: Seq<Entry>) -> bool
    decreases entries,
{
    forall|i: int|
        0 <= i < entries.len() ==> plain_name((#[trigger] entries[i]).name@) && well_named(
            entries[i].children@,
        )
}

/// Whether a walk lists a path.
pub open spec fn lists(items: Seq<ItemView>, path: Seq<char>) -> bool {
    exists|j: int| 0 <= j < items.len() && (#[trigger] items[j]).path == path
}

/// Whether a walk lists a path before the place `k`.
pub open spec fn lists_before(items: Seq<ItemView>, path: Seq<char>, k: int) -> bool {
    exists|j: int| 0 <= j < k && j < items.len() && (#[trigger] items[j]).path == path
}

/// The paths that a walk lists.
pub open spec fn listed_paths(items: Seq<ItemView>) -> Set<Seq<char>> {
    Set::new(|p: Seq<char>| lists(items, p))
}

/// A set of paths that holds every ancestor of each of its paths.
pub open spec fn ancestor_closed(paths: Set<Seq<char>>) -> bool {
    forall|a: Seq<char>, p: Seq<char>|
        paths.contains(p) && #[trigger] is_ancestor_of(a, p) ==> paths.contains(a)
}

/// The test that a filter applies to a yielded entry.
pub open spec fn admitted_by(paths: Set<Seq<char>>) -> spec_fn(ItemView) -> bool {
    |item: ItemView| paths.contains(item.path)
}

/// An ancestor of an ancestor is an ancestor.
pub proof fn lemma_ancestor_transitive(a: Seq<char>, b: Seq<char>, c: Seq<char>)
    requires
        is_ancestor_of(a, b),
        is_ancestor_of(b, c),
    ensures
        is_ancestor_of(a, c),
{
    let i = choose|i: int| 0 <= i < b.len() && b[i] == '/' && a == b.take(i);
    let j = choose|j: int| 0 <= j < c.len() && c[j] == '/' && b == c.take(j);
    assert(c.take(j).take(i) =~= c.take(i));
    assert(c[i] == b[i]);
    assert(0 <= i < c.len() && c[i] == '/' && a == c.take(i));
}

/// The closure of a list of explicit paths holds every ancestor of each of
/// its paths.
pub proof fn lemma_closure_is_ancestor_closed(paths: Seq<Seq<char>>)
    ensures
        ancestor_closed(include_closure(paths)),
{
    let closure = include_closure(paths);
    assert forall|a: Seq<char>, p: Seq<char>|
        closure.contains(p) && #[trigger] is_ancestor_of(a, p) implies closure.contains(a) by {
        let k = choose|k: int|
            0 <= k < paths.len() && (p == paths[k] || is_ancestor_of(p, #[trigger] paths[k]));
        if p != paths[k] {
            lemma_ancestor_transitive(a, p, paths[k]);
        }
        assert(0 <= k < paths.len() && (a == paths[k] || is_ancestor_of(a, paths[k])));
    }
}

/// A directory's path is an ancestor of the path of each entry in it.
pub proof fn lemma_parent_is_ancestor(prefix: Seq<char>, name: Seq<char>)
    requires
        prefix.len() > 0,
    ensures
        is_ancestor_of(prefix, child_path(prefix, name)),
{
    let p = child_path(prefix, name);
    let i = prefix.len() as int;
    assert(p[i] == '/');
    assert(p.take(i) =~= prefix);
    assert(0 <= i < p.len() && p[i] == '/' && prefix == p.take(i));
}

/// In the unfiltered walk of a directory with a non-empty path, that path
/// is an ancestor of every path yielded.
pub proof fn lemma_walk_below_prefix(prefix: Seq<char>, entries: Seq<Entry>, k: int)
    requires
        prefix.len() > 0,
        0 <= k < walk(prefix, entries, None).len(),
    ensures
        is_ancestor_of(prefix, walk(prefix, entries, None)[k].path),
    decreases entries,
{
    let m = least_index(entries);
    lemma_least_index_in_range(entries);
    let first = visit(prefix, entries[m], None);
    if k < first.len() {
        lemma_visit_below_prefix(prefix, entries[m], k);
    } else {
        vstd::seq::axiom_seq_len_decreases(entries, entries.remove(m));
        lemma_walk_below_prefix(prefix, entries.remove(m), k - first.len());
    }
}

/// In the unfiltered walk of one entry of a directory with a non-empty
/// path, that path is an ancestor of every path yielded.
pub proof fn lemma_visit_below_prefix(prefix: Seq<char>, entry: Entry, k: int)
    requires
        prefix.len() > 0,
        0 <= k < visit(prefix, entry, None).len(),
    ensures
        is_ancestor_of(prefix, visit(prefix, entry, None)[k].path),
    decreases entry,
{
    let path = child_path(prefix, entry.name@);
    lemma_parent_is_ancestor(prefix, entry.name@);
    if k > 0 {
        lemma_walk_below_prefix(path, entry.children@, k - 1);
        lemma_ancestor_transitive(prefix, path, walk(path, entry.children@, None)[k - 1].path);
    }
}

/// With a filter that holds every ancestor of each of its paths, the walk
/// yields exactly those entries of the unfiltered walk that the filter
/// admits, in the same order.
pub proof fn lemma_filtered_walk(prefix: Seq<char>, entries: Seq<Entry>, paths: Set<Seq<char>>)
    requires
        well_named(entries),
        ancestor_closed(paths),
    ensures
        walk(prefix, entries, Some(paths)) == walk(prefix, entries, None).filter(
            admitted_by(paths),
        ),
    decreases entries,
{
    if entries.len() > 0 {
        let m = least_index(entries);
        lemma_least_index_in_range(entries);
        vstd::seq::axiom_seq_len_decreases(entries, entries.remove(m));
        lemma_filtered_visit(prefix, entries[m], paths);
        assert(well_named(entries.remove(m))) by {
            assert forall|i: int| 0 <= i < entries.remove(m).len() implies plain_name(
                (#[trigger] entries.remove(m)[i]).name@,
            ) && well_named(entries.remove(m)[i].children@) by {
                if i < m {
                    assert(entries.remove(m)[i] == entries[i]);
                } else {
                    assert(entries.remove(m)[i] == entries[i + 1]);
                }
            }
        }
        lemma_filtered_walk(prefix, entries.remove(m), paths);
        Seq::filter_distributes_over_add(
            visit(prefix, entries[m], None),
            walk(prefix, entries.remove(m), None),
            admitted_by(paths),
        );
    }
}

/// The same for the walk of one entry.
pub proof fn lemma_filtered_visit(prefix: Seq<char>, entry: Entry, paths: Set<Seq<char>>)
    requires
        plain_name(entry.name@),
        well_named(entry.children@),
        ancestor_closed(paths),
    ensures
        visit(prefix, entry, Some(paths)) == visit(prefix, entry, None).filter(admitted_by(paths)),
    decreases entry,
{
    let path = child_path(prefix, entry.name@);
    let item = ItemView { path, mode: entry.mode, size: entry.size };
    let below = if mode_is_dir(entry.mode) {
        walk(path, entry.children@, None)
    } else {
        Seq::empty()
    };
    let pred = admitted_by(paths);
    Seq::filter_distributes_over_add(seq![item], below, pred);
    assert(seq![item].filter(pred) =~= if pred(item) {
        seq![item]
    } else {
        Seq::empty()
    }) by {
        reveal_with_fuel(Seq::filter, 2);
        assert(seq![item].drop_last() =~= Seq::<ItemView>::empty());
    }
    if paths.contains(path) {
        if mode_is_dir(entry.mode) {
            lemma_filtered_walk(path, entry.children@, paths);
        } else {
            assert(below.filter(pred) =~= Seq::<ItemView>::empty());
        }
    } else {
        assert forall|k: int| 0 <= k < below.len() implies !pred(#[trigger] below[k]) by {
            lemma_walk_below_prefix(path, entry.children@, k);
        }
        below.lemma_all_neg_filter_empty(pred);
        assert(below.filter(pred).len() == 0);
        assert(seq![item].filter(pred) + below.filter(pred) =~= Seq::<ItemView>::empty());
    }
}

/// The entries of one directory in the order in which the walk takes
/// them: the one that comes first by name, then the others in their order.
pub open spec fn sorted_by_name(entries: Seq<Entry>) -> Seq<Entry>
    decreases entries.len(),
{
    if entries.len() == 0 {
        Seq::empty()
    } else {
        let m = least_index(entries);
        if 0 <= m < entries.len() {
            seq![entries[m]] + sorted_by_name(entries.remove(m))
        } else {
            Seq::empty()
        }
    }
}

/// The walks of the entries of a list, one after the other in the order of
/// the list.
pub open spec fn walk_in_order(
    prefix: Seq<char>,
    list: Seq<Entry>,
    filter: Option<Set<Seq<char>>>,
) -> Seq<ItemView>
    decreases list.len(),
{
    if list.len() == 0 {
        Seq::empty()
    } else {
        visit(prefix, list[0], filter) + walk_in_order(prefix, list.skip(1), filter)
    }
}

/// The order of bytes is transitive.
pub proof fn lemma_bytes_lt_transitive(a: Seq<u8>, b: Seq<u8>, c: Seq<u8>)
    requires
        bytes_lt(a, b),
        bytes_lt(b, c),
    ensures
        bytes_lt(a, c),
    decreases a.len(),
{
    if a.len() > 0 && a[0] == b[0] && b[0] == c[0] {
        lemma_bytes_lt_transitive(a.skip(1), b.skip(1), c.skip(1));
    }
}

/// No byte string comes before itself.
pub proof fn lemma_bytes_lt_irreflexive(a: Seq<u8>)
    ensures
        !bytes_lt(a, a),
    decreases a.len(),
{
    if a.len() > 0 {
        lemma_bytes_lt_irreflexive(a.skip(1));
    }
}

/// Of two different byte strings one comes before the other.
pub proof fn lemma_bytes_lt_total(a: Seq<u8>, b: Seq<u8>)
    ensures
        bytes_lt(a, b) || bytes_lt(b, a) || a == b,
    decreases a.len(),
{
    if a.len() > 0 && b.len() > 0 && a[0] == b[0] {
        lemma_bytes_lt_total(a.skip(1), b.skip(1));
        if a.skip(1) == b.skip(1) {
            assert(a =~= seq![a[0]] + a.skip(1));
            assert(b =~= seq![b[0]] + b.skip(1));
        }
    } else if a.len() == 0 && b.len() == 0 {
        assert(a =~= b);
    }
}

/// No entry of a list comes before the one that `least_index` finds.
pub proof fn lemma_least_index_is_least(entries: Seq<Entry>, i: int)
    requires
        0 <= i < entries.len(),
    ensures
        !name_lt(entries[i].name@, entries[least_index(entries)].name@),
    decreases entries.len(),
{
    let m = least_index(entries);
    let enc = |e: Entry| vstd::utf8::encode_utf8(e.name@);
    if entries.len() <= 1 {
        lemma_bytes_lt_irreflexive(enc(entries[0]));
    } else {
        let front = entries.drop_last();
        let m0 = least_index(front);
        lemma_least_index_in_range(front);
        let last = entries.last();
        if i < entries.len() - 1 {
            lemma_least_index_is_least(front, i);
            if name_lt(last.name@, entries[m0].name@) && name_lt(entries[i].name@, last.name@) {
                lemma_bytes_lt_transitive(enc(entries[i]), enc(last), enc(entries[m0]));
            }
        } else {
            lemma_bytes_lt_irreflexive(enc(last));
        }
    }
}

/// Every entry of the sorted list is an entry of the list.
pub proof fn lemma_sorted_from_list(entries: Seq<Entry>, i: int)
    requires
        0 <= i < sorted_by_name(entries).len(),
    ensures
        entries.contains(sorted_by_name(entries)[i]),
    decreases entries.len(),
{
    let m = least_index(entries);
    lemma_least_index_in_range(entries);
    if i == 0 {
        assert(entries[m] == sorted_by_name(entries)[0]);
    } else {
        let rest = entries.remove(m);
        lemma_sorted_from_list(rest, i - 1);
        let j = choose|j: int| 0 <= j < rest.len() && rest[j] == sorted_by_name(rest)[i - 1];
        if j < m {
            assert(entries[j] == rest[j]);
        } else {
            assert(entries[j + 1] == rest[j]);
        }
    }
}

/// The sorted list holds the entries of the list, each as often as the
/// list does.
pub proof fn lemma_sorted_is_permutation(entries: Seq<Entry>)
    ensures
        sorted_by_name(entries).len() == entries.len(),
        sorted_by_name(entries).to_multiset() == entries.to_multiset(),
    decreases entries.len(),
{
    broadcast use vstd::seq_lib::group_to_multiset_ensures;

    if entries.len() > 0 {
        let m = least_index(entries);
        lemma_least_index_in_range(entries);
        let rest = entries.remove(m);
        lemma_sorted_is_permutation(rest);
        let tail = sorted_by_name(rest);
        assert(sorted_by_name(entries) =~= tail.insert(0, entries[m]));
        vstd::seq_lib::to_multiset_insert(tail, 0, entries[m]);
        vstd::seq_lib::to_multiset_remove(entries, m);
        assert(entries.to_multiset().count(entries[m]) > 0) by {
            vstd::seq_lib::to_multiset_contains(entries, entries[m]);
            assert(entries.contains(entries[m]));
        }
        assert(entries.to_multiset().remove(entries[m]).insert(entries[m])
            =~= entries.to_multiset());
    } else {
        assert(sorted_by_name(entries) =~= entries);
    }
}

/// In the sorted list no entry comes before an earlier one by name.
pub proof fn lemma_sorted_is_ascending(entries: Seq<Entry>, i: int, j: int)
    requires
        0 <= i < j < sorted_by_name(entries).len(),
    ensures
        !name_lt(sorted_by_name(entries)[j].name@, sorted_by_name(entries)[i].name@),
    decreases entries.len(),
{
    let m = least_index(entries);
    lemma_least_index_in_range(entries);
    let rest = entries.remove(m);
    if i == 0 {
        lemma_sorted_from_list(entries, j);
        let k = choose|k: int| 0 <= k < entries.len() && entries[k] == sorted_by_name(entries)[j];
        lemma_least_index_is_least(entries, k);
    } else {
        lemma_sorted_is_ascending(rest, i - 1, j - 1);
    }
}

/// The walk of a directory is the walk of its entries one after the other
/// in ascending order of their names.
pub proof fn lemma_walk_is_in_sorted_order(
    prefix: Seq<char>,
    entries: Seq<Entry>,
    filter: Option<Set<Seq<char>>>,
)
    ensures
        walk(prefix, entries, filter) == walk_in_order(prefix, sorted_by_name(entries), filter),
    decreases entries.len(),
{
    if entries.len() > 0 {
        let m = least_index(entries);
        lemma_least_index_in_range(entries);
        let rest = entries.remove(m);
        lemma_walk_is_in_sorted_order(prefix, rest, filter);
        let sorted = sorted_by_name(entries);
        assert(sorted[0] == entries[m]);
        assert(sorted.skip(1) =~= sorted_by_name(rest));
    }
}

/// A directory stands directly before the walk of what it holds.
pub proof fn lemma_directory_before_contents(prefix: Seq<char>, entry: Entry)
    requires
        mode_is_dir(entry.mode),
    ensures
        visit(prefix, entry, None) == seq![
            ItemView {
                path: child_path(prefix, entry.name@),
                mode: entry.mode,
                size: entry.size,
            },
        ] + walk(child_path(prefix, entry.name@), entry.children@, None),
{
}

/// A well-named list without one of its entries is well named.
pub proof fn lemma_well_named_remove(entries: Seq<Entry>, m: int)
    requires
        well_named(entries),
        0 <= m < entries.len(),
    ensures
        well_named(entries.remove(m)),
        plain_name(entries[m].name@),
        well_named(entries[m].children@),
{
    assert forall|i: int| 0 <= i < entries.remove(m).len() implies plain_name(
        (#[trigger] entries.remove(m)[i]).name@,
    ) && well_named(entries.remove(m)[i].children@) by {
        if i < m {
            assert(entries.remove(m)[i] == entries[i]);
        } else {
            assert(entries.remove(m)[i] == entries[i + 1]);
        }
    }
}

/// The ancestors of the path of an entry are the path of its directory and
/// the ancestors of that path.
pub proof fn lemma_ancestors_of_child(prefix: Seq<char>, name: Seq<char>, a: Seq<char>)
    requires
        plain_name(name),
        is_ancestor_of(a, child_path(prefix, name)),
    ensures
        prefix.len() > 0,
        a == prefix || is_ancestor_of(a, prefix),
{
    let path = child_path(prefix, name);
    let i = choose|i: int| 0 <= i < path.len() && path[i] == '/' && a == path.take(i);
    if prefix.len() == 0 {
        assert(path[i] == name[i]);
    } else if i < prefix.len() {
        assert(path[i] == prefix[i]);
        assert(path.take(i) =~= prefix.take(i));
        assert(0 <= i < prefix.len() && prefix[i] == '/' && a == prefix.take(i));
    } else if i == prefix.len() {
        assert(path.take(i) =~= prefix);
    } else {
        assert(path[i] == name[i - prefix.len() - 1]);
    }
}

/// In the unfiltered walk of a well-named directory, every ancestor of a
/// listed path is listed before it, unless it is the path of the directory
/// or an ancestor of that.
pub proof fn lemma_ancestors_come_earlier(
    prefix: Seq<char>,
    entries: Seq<Entry>,
    k: int,
    a: Seq<char>,
)
    requires
        well_named(entries),
        0 <= k < walk(prefix, entries, None).len(),
        is_ancestor_of(a, walk(prefix, entries, None)[k].path),
    ensures
        lists_before(walk(prefix, entries, None), a, k) || (prefix.len() > 0 && (a == prefix
            || is_ancestor_of(a, prefix))),
    decreases entries,
{
    let m = least_index(entries);
    lemma_least_index_in_range(entries);
    lemma_well_named_remove(entries, m);
    let first = visit(prefix, entries[m], None);
    let rest = walk(prefix, entries.remove(m), None);
    let all = walk(prefix, entries, None);
    if k < first.len() {
        lemma_ancestor_comes_earlier_in_visit(prefix, entries[m], k, a);
        if lists_before(first, a, k) {
            let j = choose|j: int|
                0 <= j < k && j < first.len() && (#[trigger] first[j]).path == a;
            assert(all[j] == first[j]);
        }
    } else {
        vstd::seq::axiom_seq_len_decreases(entries, entries.remove(m));
        lemma_ancestors_come_earlier(prefix, entries.remove(m), k - first.len(), a);
        if lists_before(rest, a, k - first.len()) {
            let j = choose|j: int|
                0 <= j < k - first.len() && j < rest.len() && (#[trigger] rest[j]).path == a;
            assert(all[first.len() + j] == rest[j]);
        }
    }
}

/// The same for the walk of one entry.
pub proof fn lemma_ancestor_comes_earlier_in_visit(
    prefix: Seq<char>,
    entry: Entry,
    k: int,
    a: Seq<char>,
)
    requires
        plain_name(entry.name@),
        well_named(entry.children@),
        0 <= k < visit(prefix, entry, None).len(),
        is_ancestor_of(a, visit(prefix, entry, None)[k].path),
    ensures
        lists_before(visit(prefix, entry, None), a, k) || (prefix.len() > 0 && (a == prefix
            || is_ancestor_of(a, prefix))),
    decreases entry,
{
    let path = child_path(prefix, entry.name@);
    let all = visit(prefix, entry, None);
    if k == 0 {
        lemma_ancestors_of_child(prefix, entry.name@, a);
    } else {
        let below = walk(path, entry.children@, None);
        lemma_ancestors_come_earlier(path, entry.children@, k - 1, a);
        if lists_before(below, a, k - 1) {
            let j = choose|j: int|
                0 <= j < k - 1 && j < below.len() && (#[trigger] below[j]).path == a;
            assert(all[j + 1] == below[j]);
        } else if a == path {
            assert(all[0].path == a);
        } else {
            lemma_ancestors_of_child(prefix, entry.name@, a);
        }
    }
}

/// In the unfiltered walk of a well-named context, every ancestor of a
/// listed path is listed before it.
pub proof fn lemma_parents_are_listed_first(entries: Seq<Entry>, k: int, a: Seq<char>)
    requires
        well_named(entries),
        0 <= k < walk(Seq::empty(), entries, None).len(),
        is_ancestor_of(a, walk(Seq::empty(), entries, None)[k].path),
    ensures
        lists_before(walk(Seq::empty(), entries, None), a, k),
{
    lemma_ancestors_come_earlier(Seq::empty(), entries, k, a);
}

/// Where every followed path is listed by the unfiltered walk of a
/// well-named context, the walk filtered by the closure of the followed
/// paths lists exactly the followed paths and their ancestors.
pub proof fn lemma_filtered_walk_lists_the_closure(entries: Seq<Entry>, follow: Seq<Seq<char>>)
    requires
        well_named(entries),
        forall|k: int|
            0 <= k < follow.len() ==> lists(walk(Seq::empty(), entries, None), #[trigger] follow[k]),
    ensures
        listed_paths(walk(Seq::empty(), entries, Some(include_closure(follow))))
            == include_closure(follow),
{
    let closure = include_closure(follow);
    let full = walk(Seq::empty(), entries, None);
    let kept = walk(Seq::empty(), entries, Some(closure));
    let pred = admitted_by(closure);
    lemma_closure_is_ancestor_closed(follow);
    lemma_filtered_walk(Seq::empty(), entries, closure);
    assert forall|p: Seq<char>| listed_paths(kept).contains(p) == closure.contains(p) by {
        if lists(kept, p) {
            let j = choose|j: int| 0 <= j < kept.len() && (#[trigger] kept[j]).path == p;
            full.lemma_filter_pred(pred, j);
        }
        if closure.contains(p) {
            let k = choose|k: int|
                0 <= k < follow.len() && (p == follow[k] || is_ancestor_of(p, #[trigger] follow[k]));
            assert(lists(full, follow[k]));
            let j = choose|j: int| 0 <= j < full.len() && (#[trigger] full[j]).path == follow[k];
            if p != follow[k] {
                lemma_parents_are_listed_first(entries, j, p);
                let i0 = choose|i0: int|
                    0 <= i0 < j && i0 < full.len() && (#[trigger] full[i0]).path == p;
                assert(lists(full, p));
            }
            let i = choose|i: int| 0 <= i < full.len() && (#[trigger] full[i]).path == p;
            assert(pred(full[i]));
            full.lemma_filter_contains(pred, i);
            assert(kept.contains(full[i]));
            let i2 = choose|i2: int| 0 <= i2 < kept.len() && kept[i2] == full[i];
            assert(kept[i2].path == p);
        }
    }
    assert(listed_paths(kept) =~= closure);
}

} // verus!

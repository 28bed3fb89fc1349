//! Source-set construction for one folder: expanding glob patterns, building
//! the merged exclude-set, and building the deduplicated, exclusion-filtered
//! source list. Insertion order is first-match-wins: a path already present,
//! from an earlier pattern, is never re-added.

use crate::paths::join_pattern;
use crate::paths::joined_pattern;
use crate::settings::FolderSettings;
use crate::settings::WorkspaceSettings;
use vstd::prelude::*;

verus! {

/// `acc` extended with every entry of `xs`, in order, skipping entries that
/// are already present.
pub open spec fn add_unique(acc: Seq<Seq<char>>, xs: Seq<Seq<char>>) -> Seq<Seq<char>>
    decreases xs.len(),
{
    if xs.len() == 0 {
        acc
    } else if acc.contains(xs[0]) {
        add_unique(acc, xs.drop_first())
    } else {
        add_unique(acc.push(xs[0]), xs.drop_first())
    }
}

/// `add_unique` folded over a sequence of pattern expansions.
pub open spec fn add_unique_all(acc: Seq<Seq<char>>, lists: Seq<Seq<Seq<char>>>) -> Seq<Seq<char>>
    decreases lists.len(),
{
    if lists.len() == 0 {
        acc
    } else {
        add_unique_all(add_unique(acc, lists[0]), lists.drop_first())
    }
}

/// The merged exclude-set of a folder: the expansions of all exclude patterns,
/// deduplicated, in expansion order.
pub open spec fn merged_exclude_set(lists: Seq<Seq<Seq<char>>>) -> Seq<Seq<char>> {
    add_unique_all(Seq::<Seq<char>>::empty(), lists)
}

/// `acc` extended with every entry of `xs`, in order, skipping entries that
/// are already present or that belong to the exclude-set `excl`.
pub open spec fn add_filtered(acc: Seq<Seq<char>>, xs: Seq<Seq<char>>, excl: Seq<Seq<char>>) -> Seq<
    Seq<char>,
>
    decreases xs.len(),
{
    if xs.len() == 0 {
        acc
    } else if acc.contains(xs[0]) || excl.contains(xs[0]) {
        add_filtered(acc, xs.drop_first(), excl)
    } else {
        add_filtered(acc.push(xs[0]), xs.drop_first(), excl)
    }
}

/// `add_filtered` folded over a sequence of pattern expansions.
pub open spec fn add_filtered_all(
    acc: Seq<Seq<char>>,
    lists: Seq<Seq<Seq<char>>>,
    excl: Seq<Seq<char>>,
) -> Seq<Seq<char>>
    decreases lists.len(),
{
    if lists.len() == 0 {
        acc
    } else {
        add_filtered_all(add_filtered(acc, lists[0], excl), lists.drop_first(), excl)
    }
}

/// The resolved source list of a folder: the expansions of all source
/// patterns, in expansion order, with duplicates and excluded paths removed.
pub open spec fn merged_source_list(lists: Seq<Seq<Seq<char>>>, excl: Seq<Seq<char>>) -> Seq<
    Seq<char>,
> {
    add_filtered_all(Seq::<Seq<char>>::empty(), lists, excl)
}

/// No entry occurs twice.
pub open spec fn no_dups(s: Seq<Seq<char>>) -> bool {
    forall|i: int, j: int| 0 <= i < j < s.len() ==> s[i] != s[j]
}

proof fn lemma_contains_split(xs: Seq<Seq<char>>, p: Seq<char>)
    requires
        xs.len() > 0,
    ensures
        xs.contains(p) <==> (xs[0] == p || xs.drop_first().contains(p)),
{
    if xs.contains(p) {
        let i = choose|i: int| 0 <= i < xs.len() && xs[i] == p;
        if i > 0 {
            assert(xs.drop_first()[i - 1] == p);
            assert(xs.drop_first().contains(p));
        }
    }
    if xs.drop_first().contains(p) {
        let i = choose|i: int| 0 <= i < xs.drop_first().len() && xs.drop_first()[i] == p;
        assert(xs[i + 1] == p);
        assert(xs.contains(p));
    }
}

/// Appending one more entry to the input of `add_unique` appends it to the
/// output exactly when it is not yet present.
proof fn lemma_add_unique_snoc(acc: Seq<Seq<char>>, xs: Seq<Seq<char>>, x: Seq<char>)
    ensures
        add_unique(acc, xs.push(x)) == (if add_unique(acc, xs).contains(x) {
            add_unique(acc, xs)
        } else {
            add_unique(acc, xs).push(x)
        }),
    decreases xs.len(),
{
    let whole = xs.push(x);
    if xs.len() == 0 {
        assert(whole[0] == x);
        assert(whole.drop_first() =~= Seq::<Seq<char>>::empty());
        assert(add_unique(acc, xs) == acc);
        assert(add_unique(acc, whole.drop_first()) == acc);
        assert(add_unique(acc.push(x), whole.drop_first()) == acc.push(x));
    } else {
        assert(whole[0] == xs[0]);
        assert(whole.drop_first() =~= xs.drop_first().push(x));
        if acc.contains(xs[0]) {
            lemma_add_unique_snoc(acc, xs.drop_first(), x);
        } else {
            lemma_add_unique_snoc(acc.push(xs[0]), xs.drop_first(), x);
        }
    }
}

/// A path stands in `add_unique(acc, xs)` exactly when it stands in `acc` or
/// in `xs`.
proof fn lemma_add_unique_membership(acc: Seq<Seq<char>>, xs: Seq<Seq<char>>, p: Seq<char>)
    ensures
        add_unique(acc, xs).contains(p) <==> (acc.contains(p) || xs.contains(p)),
    decreases xs.len(),
{
    if xs.len() == 0 {
    } else {
        lemma_contains_split(xs, p);
        if acc.contains(xs[0]) {
            lemma_add_unique_membership(acc, xs.drop_first(), p);
        } else {
            lemma_add_unique_membership(acc.push(xs[0]), xs.drop_first(), p);
            assert(acc.push(xs[0]).contains(p) <==> (acc.contains(p) || xs[0] == p)) by {
                lemma_contains_last(acc, xs[0], p);
            }
        }
    }
}

proof fn lemma_contains_last(acc: Seq<Seq<char>>, x: Seq<char>, p: Seq<char>)
    ensures
        acc.push(x).contains(p) <==> (acc.contains(p) || x == p),
{
    let w = acc.push(x);
    if w.contains(p) {
        let i = choose|i: int| 0 <= i < w.len() && w[i] == p;
        if i < acc.len() {
            assert(acc[i] == p);
        }
    }
    if acc.contains(p) {
        let i = choose|i: int| 0 <= i < acc.len() && acc[i] == p;
        assert(w[i] == p);
    }
    if x == p {
        assert(w[acc.len() as int] == p);
    }
}

/// `add_unique` keeps the accumulator free of duplicates.
proof fn lemma_add_unique_no_dups(acc: Seq<Seq<char>>, xs: Seq<Seq<char>>)
    requires
        no_dups(acc),
    ensures
        no_dups(add_unique(acc, xs)),
    decreases xs.len(),
{
    if xs.len() == 0 {
    } else if acc.contains(xs[0]) {
        lemma_add_unique_no_dups(acc, xs.drop_first());
    } else {
        assert(no_dups(acc.push(xs[0]))) by {
            assert forall|i: int, j: int|
                0 <= i < j < acc.push(xs[0]).len() implies acc.push(xs[0])[i] != acc.push(
                xs[0],
            )[j] by {
                if j == acc.len() {
                    assert(acc.contains(acc[i]));
                }
            }
        }
        lemma_add_unique_no_dups(acc.push(xs[0]), xs.drop_first());
    }
}

proof fn lemma_add_unique_all_snoc(
    acc: Seq<Seq<char>>,
    lists: Seq<Seq<Seq<char>>>,
    l: Seq<Seq<char>>,
)
    ensures
        add_unique_all(acc, lists.push(l)) == add_unique(add_unique_all(acc, lists), l),
    decreases lists.len(),
{
    let whole = lists.push(l);
    if lists.len() == 0 {
        assert(whole[0] == l);
        assert(whole.drop_first() =~= Seq::<Seq<Seq<char>>>::empty());
        assert(add_unique_all(acc, lists) == acc);
        assert(add_unique_all(add_unique(acc, l), whole.drop_first()) == add_unique(acc, l));
    } else {
        assert(whole[0] == lists[0]);
        assert(whole.drop_first() =~= lists.drop_first().push(l));
        lemma_add_unique_all_snoc(add_unique(acc, lists[0]), lists.drop_first(), l);
    }
}

proof fn lemma_add_unique_all_membership(
    acc: Seq<Seq<char>>,
    lists: Seq<Seq<Seq<char>>>,
    p: Seq<char>,
)
    ensures
        add_unique_all(acc, lists).contains(p) <==> (acc.contains(p) || exists|k: int|
            0 <= k < lists.len() && lists[k].contains(p)),
    decreases lists.len(),
{
    if lists.len() == 0 {
    } else {
        lemma_add_unique_all_membership(add_unique(acc, lists[0]), lists.drop_first(), p);
        lemma_add_unique_membership(acc, lists[0], p);
        if exists|k: int| 0 <= k < lists.drop_first().len() && lists.drop_first()[k].contains(p) {
            let k = choose|k: int|
                0 <= k < lists.drop_first().len() && lists.drop_first()[k].contains(p);
            assert(lists[k + 1].contains(p));
        }
        if add_unique_all(acc, lists).contains(p) && !acc.contains(p) && !lists[0].contains(p) {
            let k = choose|k: int| 0 <= k < lists.len() && lists[k].contains(p);
            assert(lists.drop_first()[k - 1].contains(p));
        }
        if exists|k: int| 0 <= k < lists.len() && lists[k].contains(p) {
            let k = choose|k: int| 0 <= k < lists.len() && lists[k].contains(p);
            if k > 0 {
                assert(lists.drop_first()[k - 1].contains(p));
            }
        }
    }
}

proof fn lemma_add_unique_all_no_dups(acc: Seq<Seq<char>>, lists: Seq<Seq<Seq<char>>>)
    requires
        no_dups(acc),
    ensures
        no_dups(add_unique_all(acc, lists)),
    decreases lists.len(),
{
    if lists.len() == 0 {
    } else {
        lemma_add_unique_no_dups(acc, lists[0]);
        lemma_add_unique_all_no_dups(add_unique(acc, lists[0]), lists.drop_first());
    }
}

/// Appending one more entry to the input of `add_filtered` appends it to the
/// output exactly when it is neither present yet nor excluded.
proof fn lemma_add_filtered_snoc(
    acc: Seq<Seq<char>>,
    xs: Seq<Seq<char>>,
    excl: Seq<Seq<char>>,
    x: Seq<char>,
)
    ensures
        add_filtered(acc, xs.push(x), excl) == (if add_filtered(acc, xs, excl).contains(x)
            || excl.contains(x) {
            add_filtered(acc, xs, excl)
        } else {
            add_filtered(acc, xs, excl).push(x)
        }),
    decreases xs.len(),
{
    let whole = xs.push(x);
    if xs.len() == 0 {
        assert(whole[0] == x);
        assert(whole.drop_first() =~= Seq::<Seq<char>>::empty());
        assert(add_filtered(acc, xs, excl) == acc);
        assert(add_filtered(acc, whole.drop_first(), excl) == acc);
        assert(add_filtered(acc.push(x), whole.drop_first(), excl) == acc.push(x));
    } else {
        assert(whole[0] == xs[0]);
        assert(whole.drop_first() =~= xs.drop_first().push(x));
        if acc.contains(xs[0]) || excl.contains(xs[0]) {
            lemma_add_filtered_snoc(acc, xs.drop_first(), excl, x);
        } else {
            lemma_add_filtered_snoc(acc.push(xs[0]), xs.drop_first(), excl, x);
        }
    }
}

/// A path stands in `add_filtered(acc, xs, excl)` exactly when it stands in
/// `acc`, or stands in `xs` and is not excluded.
proof fn lemma_add_filtered_membership(
    acc: Seq<Seq<char>>,
    xs: Seq<Seq<char>>,
    excl: Seq<Seq<char>>,
    p: Seq<char>,
)
    ensures
        add_filtered(acc, xs, excl).contains(p) <==> (acc.contains(p) || (xs.contains(p)
            && !excl.contains(p))),
    decreases xs.len(),
{
    if xs.len() == 0 {
    } else {
        lemma_contains_split(xs, p);
        if acc.contains(xs[0]) || excl.contains(xs[0]) {
            lemma_add_filtered_membership(acc, xs.drop_first(), excl, p);
        } else {
            lemma_add_filtered_membership(acc.push(xs[0]), xs.drop_first(), excl, p);
            lemma_contains_last(acc, xs[0], p);
        }
    }
}

/// `add_filtered` keeps the accumulator free of duplicates.
proof fn lemma_add_filtered_no_dups(acc: Seq<Seq<char>>, xs: Seq<Seq<char>>, excl: Seq<Seq<char>>)
    requires
        no_dups(acc),
    ensures
        no_dups(add_filtered(acc, xs, excl)),
    decreases xs.len(),
{
    if xs.len() == 0 {
    } else if acc.contains(xs[0]) || excl.contains(xs[0]) {
        lemma_add_filtered_no_dups(acc, xs.drop_first(), excl);
    } else {
        assert(no_dups(acc.push(xs[0]))) by {
            assert forall|i: int, j: int|
                0 <= i < j < acc.push(xs[0]).len() implies acc.push(xs[0])[i] != acc.push(
                xs[0],
            )[j] by {
                if j == acc.len() {
                    assert(acc.contains(acc[i]));
                }
            }
        }
        lemma_add_filtered_no_dups(acc.push(xs[0]), xs.drop_first(), excl);
    }
}

proof fn lemma_add_filtered_all_snoc(
    acc: Seq<Seq<char>>,
    lists: Seq<Seq<Seq<char>>>,
    excl: Seq<Seq<char>>,
    l: Seq<Seq<char>>,
)
    ensures
        add_filtered_all(acc, lists.push(l), excl) == add_filtered(
            add_filtered_all(acc, lists, excl),
            l,
            excl,
        ),
    decreases lists.len(),
{
    let whole = lists.push(l);
    if lists.len() == 0 {
        assert(whole[0] == l);
        assert(whole.drop_first() =~= Seq::<Seq<Seq<char>>>::empty());
        assert(add_filtered_all(acc, lists, excl) == acc);
        assert(add_filtered_all(add_filtered(acc, l, excl), whole.drop_first(), excl)
            == add_filtered(acc, l, excl));
    } else {
        assert(whole[0] == lists[0]);
        assert(whole.drop_first() =~= lists.drop_first().push(l));
        lemma_add_filtered_all_snoc(add_filtered(acc, lists[0], excl), lists.drop_first(), excl, l);
    }
}

proof fn lemma_add_filtered_all_membership(
    acc: Seq<Seq<char>>,
    lists: Seq<Seq<Seq<char>>>,
    excl: Seq<Seq<char>>,
    p: Seq<char>,
)
    ensures
        add_filtered_all(acc, lists, excl).contains(p) <==> (acc.contains(p) || ((exists|k: int|
            0 <= k < lists.len() && lists[k].contains(p)) && !excl.contains(p))),
    decreases lists.len(),
{
    if lists.len() == 0 {
    } else {
        lemma_add_filtered_all_membership(add_filtered(acc, lists[0], excl), lists.drop_first(), excl, p);
        lemma_add_filtered_membership(acc, lists[0], excl, p);
        if add_filtered_all(acc, lists, excl).contains(p) && !acc.contains(p) && !lists[0].contains(
            p,
        ) {
            let k = choose|k: int|
                0 <= k < lists.drop_first().len() && lists.drop_first()[k].contains(p);
            assert(lists[k + 1].contains(p));
        }
        if lists[0].contains(p) {
            assert(exists|k: int| 0 <= k < lists.len() && lists[k].contains(p));
        }
        if exists|k: int| 0 <= k < lists.len() && lists[k].contains(p) {
            let k = choose|k: int| 0 <= k < lists.len() && lists[k].contains(p);
            if k > 0 {
                assert(lists.drop_first()[k - 1].contains(p));
            }
        }
    }
}

proof fn lemma_add_filtered_all_no_dups(
    acc: Seq<Seq<char>>,
    lists: Seq<Seq<Seq<char>>>,
    excl: Seq<Seq<char>>,
)
    requires
        no_dups(acc),
    ensures
        no_dups(add_filtered_all(acc, lists, excl)),
    decreases lists.len(),
{
    if lists.len() == 0 {
    } else {
        lemma_add_filtered_no_dups(acc, lists[0], excl);
        lemma_add_filtered_all_no_dups(add_filtered(acc, lists[0], excl), lists.drop_first(), excl);
    }
}

proof fn lemma_add_filtered_append(
    acc: Seq<Seq<char>>,
    xs: Seq<Seq<char>>,
    ys: Seq<Seq<char>>,
    excl: Seq<Seq<char>>,
)
    ensures
        add_filtered(acc, xs + ys, excl) == add_filtered(add_filtered(acc, xs, excl), ys, excl),
    decreases xs.len(),
{
    if xs.len() == 0 {
        assert(xs + ys =~= ys);
        assert(add_filtered(acc, xs, excl) == acc);
    } else {
        assert((xs + ys)[0] == xs[0]);
        assert((xs + ys).drop_first() =~= xs.drop_first() + ys);
        if acc.contains(xs[0]) || excl.contains(xs[0]) {
            lemma_add_filtered_append(acc, xs.drop_first(), ys, excl);
        } else {
            lemma_add_filtered_append(acc.push(xs[0]), xs.drop_first(), ys, excl);
        }
    }
}

proof fn lemma_add_filtered_all_flatten(
    acc: Seq<Seq<char>>,
    lists: Seq<Seq<Seq<char>>>,
    excl: Seq<Seq<char>>,
)
    ensures
        add_filtered_all(acc, lists, excl) == add_filtered(acc, lists.flatten(), excl),
    decreases lists.len(),
{
    if lists.len() == 0 {
        assert(lists.flatten() == Seq::<Seq<char>>::empty());
    } else {
        assert(lists.flatten() == lists[0] + lists.drop_first().flatten());
        lemma_add_filtered_append(acc, lists[0], lists.drop_first().flatten(), excl);
        lemma_add_filtered_all_flatten(add_filtered(acc, lists[0], excl), lists.drop_first(), excl);
    }
}

/// The resolved source list walks the concatenation of all pattern expansions
/// in one pass, in order: it equals the order-preserving, first-match-wins
/// dedup-and-filter of the expansions laid end to end.
pub proof fn lemma_source_list_single_pass(lists: Seq<Seq<Seq<char>>>, excl: Seq<Seq<char>>)
    ensures
        merged_source_list(lists, excl) == add_filtered(
            Seq::<Seq<char>>::empty(),
            lists.flatten(),
            excl,
        ),
{
    lemma_add_filtered_all_flatten(Seq::<Seq<char>>::empty(), lists, excl);
}

/// Excludes win: a path that stands in the exclude-set never stands in the
/// resolved source list, no matter how many source patterns match it.
pub proof fn lemma_excludes_win(lists: Seq<Seq<Seq<char>>>, excl: Seq<Seq<char>>, p: Seq<char>)
    requires
        excl.contains(p),
    ensures
        !merged_source_list(lists, excl).contains(p),
{
    lemma_add_filtered_all_membership(Seq::<Seq<char>>::empty(), lists, excl, p);
}

/// No path appears twice in a folder's resolved source list, regardless of how
/// many source patterns match it.
pub proof fn lemma_no_duplicate_sources(lists: Seq<Seq<Seq<char>>>, excl: Seq<Seq<char>>)
    ensures
        no_dups(merged_source_list(lists, excl)),
{
    lemma_add_filtered_all_no_dups(Seq::<Seq<char>>::empty(), lists, excl);
}

/// The merged exclude-set holds no duplicates either.
pub proof fn lemma_no_duplicate_excludes(lists: Seq<Seq<Seq<char>>>)
    ensures
        no_dups(merged_exclude_set(lists)),
{
    lemma_add_unique_all_no_dups(Seq::<Seq<char>>::empty(), lists);
}

/// Every path of the resolved source list is drawn verbatim from one of the
/// pattern expansions: the engine never rewrites a path it was handed.
pub proof fn lemma_sources_from_expansions(
    lists: Seq<Seq<Seq<char>>>,
    excl: Seq<Seq<char>>,
    p: Seq<char>,
)
    requires
        merged_source_list(lists, excl).contains(p),
    ensures
        exists|k: int| 0 <= k < lists.len() && lists[k].contains(p),
        !excl.contains(p),
{
    lemma_add_filtered_all_membership(Seq::<Seq<char>>::empty(), lists, excl, p);
}

/// A path stands in the merged exclude-set exactly when some exclude pattern
/// expansion holds it.
pub proof fn lemma_exclude_set_membership(lists: Seq<Seq<Seq<char>>>, p: Seq<char>)
    ensures
        merged_exclude_set(lists).contains(p) <==> exists|k: int|
            0 <= k < lists.len() && lists[k].contains(p),
{
    lemma_add_unique_all_membership(Seq::<Seq<char>>::empty(), lists, p);
}

/// Membership test over a vector of paths.
pub fn contains_string(v: &Vec<String>, s: &String) -> (r: bool)
    ensures
        r == v.deep_view().contains(s@),
{
    let mut i: usize = 0;
    while i < v.len()
        invariant
            i <= v.len(),
            forall|j: int| 0 <= j < i ==> v.deep_view()[j] != s@,
        decreases v.len() - i,
    {
        if v[i] == *s {
            proof {
                assert(v.deep_view()[i as int] == s@);
            }
            return true;
        }
        i += 1;
    }
    false
}

/// Appends each entry of `items` to `dst` unless it is already present.
fn push_unique(dst: &mut Vec<String>, items: &Vec<String>)
    ensures
        final(dst).deep_view() == add_unique(old(dst).deep_view(), items.deep_view()),
{
    let ghost orig = old(dst).deep_view();
    proof {
        assert(items.deep_view().take(0) =~= Seq::<Seq<char>>::empty());
    }
    let mut i: usize = 0;
    while i < items.len()
        invariant
            i <= items.len(),
            dst.deep_view() == add_unique(orig, items.deep_view().take(i as int)),
        decreases items.len() - i,
    {
        let ghost before = dst.deep_view();
        proof {
            lemma_add_unique_snoc(orig, items.deep_view().take(i as int), items.deep_view()[i as int]);
            assert(items.deep_view().take(i as int).push(items.deep_view()[i as int])
                =~= items.deep_view().take(i + 1 as int));
        }
        let x = &items[i];
        let present = contains_string(dst, x);
        if !present {
            dst.push(x.clone());
            proof {
                assert(dst.deep_view() =~= before.push(x@));
            }
        }
        i += 1;
    }
    proof {
        assert(items.deep_view().take(items.len() as int) =~= items.deep_view());
    }
}

/// Appends each entry of `items` to `dst` unless it is already present or
/// stands in `excl`.
fn push_filtered(dst: &mut Vec<String>, items: &Vec<String>, excl: &Vec<String>)
    ensures
        final(dst).deep_view() == add_filtered(old(dst).deep_view(), items.deep_view(), excl.deep_view()),
{
    let ghost orig = old(dst).deep_view();
    proof {
        assert(items.deep_view().take(0) =~= Seq::<Seq<char>>::empty());
    }
    let mut i: usize = 0;
    while i < items.len()
        invariant
            i <= items.len(),
            dst.deep_view() == add_filtered(orig, items.deep_view().take(i as int), excl.deep_view()),
        decreases items.len() - i,
    {
        let ghost before = dst.deep_view();
        proof {
            lemma_add_filtered_snoc(
                orig,
                items.deep_view().take(i as int),
                excl.deep_view(),
                items.deep_view()[i as int],
            );
            assert(items.deep_view().take(i as int).push(items.deep_view()[i as int])
                =~= items.deep_view().take(i + 1 as int));
        }
        let x = &items[i];
        let present = contains_string(dst, x);
        let excluded = contains_string(excl, x);
        if !present && !excluded {
            dst.push(x.clone());
            proof {
                assert(dst.deep_view() =~= before.push(x@));
            }
        }
        i += 1;
    }
    proof {
        assert(items.deep_view().take(items.len() as int) =~= items.deep_view());
    }
}

/// Builds the merged exclude-set from the exclude pattern expansions.
pub fn merge_unique(lists: &Vec<Vec<String>>) -> (r: Vec<String>)
    ensures
        r.deep_view() == merged_exclude_set(lists.deep_view()),
{
    let mut r: Vec<String> = Vec::new();
    proof {
        assert(r.deep_view() =~= Seq::<Seq<char>>::empty());
        assert(lists.deep_view().take(0) =~= Seq::<Seq<Seq<char>>>::empty());
    }
    let mut k: usize = 0;
    while k < lists.len()
        invariant
            k <= lists.len(),
            r.deep_view() == add_unique_all(
                Seq::<Seq<char>>::empty(),
                lists.deep_view().take(k as int),
            ),
        decreases lists.len() - k,
    {
        proof {
            lemma_add_unique_all_snoc(
                Seq::<Seq<char>>::empty(),
                lists.deep_view().take(k as int),
                lists.deep_view()[k as int],
            );
            assert(lists.deep_view().take(k as int).push(lists.deep_view()[k as int])
                =~= lists.deep_view().take(k + 1 as int));
        }
        push_unique(&mut r, &lists[k]);
        k += 1;
    }
    proof {
        assert(lists.deep_view().take(lists.len() as int) =~= lists.deep_view());
    }
    r
}

/// Builds the resolved source list from the source pattern expansions and the
/// merged exclude-set.
pub fn merge_filtered(lists: &Vec<Vec<String>>, excl: &Vec<String>) -> (r: Vec<String>)
    ensures
        r.deep_view() == merged_source_list(lists.deep_view(), excl.deep_view()),
{
    let mut r: Vec<String> = Vec::new();
    proof {
        assert(r.deep_view() =~= Seq::<Seq<char>>::empty());
        assert(lists.deep_view().take(0) =~= Seq::<Seq<Seq<char>>>::empty());
    }
    let mut k: usize = 0;
    while k < lists.len()
        invariant
            k <= lists.len(),
            r.deep_view() == add_filtered_all(
                Seq::<Seq<char>>::empty(),
                lists.deep_view().take(k as int),
                excl.deep_view(),
            ),
        decreases lists.len() - k,
    {
        proof {
            lemma_add_filtered_all_snoc(
                Seq::<Seq<char>>::empty(),
                lists.deep_view().take(k as int),
                excl.deep_view(),
                lists.deep_view()[k as int],
            );
            assert(lists.deep_view().take(k as int).push(lists.deep_view()[k as int])
                =~= lists.deep_view().take(k + 1 as int));
        }
        push_filtered(&mut r, &lists[k], excl);
        k += 1;
    }
    proof {
        assert(lists.deep_view().take(lists.len() as int) =~= lists.deep_view());
    }
    r
}

/// Concatenation of two settings lists: every workspace-level entry precedes
/// every folder-level entry.
pub fn merge_lists(first: &Vec<String>, second: &Vec<String>) -> (r: Vec<String>)
    ensures
        r.deep_view() == first.deep_view() + second.deep_view(),
{
    let mut r: Vec<String> = Vec::new();
    proof {
        assert(r.deep_view() =~= first.deep_view().take(0));
    }
    let mut i: usize = 0;
    while i < first.len()
        invariant
            i <= first.len(),
            r.deep_view() == first.deep_view().take(i as int),
        decreases first.len() - i,
    {
        let ghost before = r.deep_view();
        r.push(first[i].clone());
        proof {
            assert(r.deep_view() =~= before.push(first.deep_view()[i as int]));
            assert(first.deep_view().take(i + 1 as int) =~= first.deep_view().take(i as int).push(
                first.deep_view()[i as int],
            ));
        }
        i += 1;
    }
    proof {
        assert(first.deep_view().take(first.len() as int) =~= first.deep_view());
    }
    let mut j: usize = 0;
    while j < second.len()
        invariant
            j <= second.len(),
            r.deep_view() == first.deep_view() + second.deep_view().take(j as int),
        decreases second.len() - j,
    {
        let ghost before = r.deep_view();
        r.push(second[j].clone());
        proof {
            assert(r.deep_view() =~= before.push(second.deep_view()[j as int]));
            assert(first.deep_view() + second.deep_view().take(j + 1 as int) =~= (first.deep_view()
                + second.deep_view().take(j as int)).push(second.deep_view()[j as int]));
        }
        j += 1;
    }
    proof {
        assert(first.deep_view() + second.deep_view().take(second.len() as int)
            =~= first.deep_view() + second.deep_view());
    }
    r
}

// Whether glob accepts a pattern's text as well formed: `glob::glob` rejects
// a pattern by analysing its text alone, so validity is a function of the
// pattern.
pub uninterp spec fn glob_pattern_ok(pattern: Seq<char>) -> bool;

/// No path in the list holds a backslash.
pub open spec fn no_backslashes(paths: Seq<Seq<char>>) -> bool {
    forall|i: int, j: int| 0 <= i < paths.len() && 0 <= j < paths[i].len() ==> paths[i][j] != '\\'
}

/// Relies on `glob::glob`: expands one pattern against the filesystem, with
/// matches yielded in alphabetical order. A malformed pattern — whose
/// rejection depends on the pattern text alone, named `glob_pattern_ok` — or
/// a matched path that cannot be read, contributes nothing rather than
/// aborting the run. Which paths match depends on the filesystem, so nothing
/// more is promised of them; each match is handed back with the platform's
/// separator rewritten to `/`.
#[verifier::external_body]
fn glob_matches(pattern: &str) -> (r: Vec<String>)
    ensures
        no_backslashes(r.deep_view()),
        !glob_pattern_ok(pattern@) ==> r@.len() == 0,
{
    match glob::glob(pattern) {
        Ok(paths) => paths.filter_map(|entry| entry.ok()).map(
            |path| path.to_string_lossy().replace('\\', "/"),
        ).collect(),
        Err(_) => Vec::new(),
    }
}

/// Expands each pattern, joined under `root` and `folder`, into the list of
/// matching paths. One expansion per pattern, in pattern order; a pattern
/// that matches nothing, or that is malformed, contributes an empty
/// expansion, and resolution of the remaining patterns goes on.
pub fn expand_patterns(root: &String, folder: &String, patterns: &Vec<String>) -> (r: Vec<
    Vec<String>,
>)
    ensures
        r@.len() == patterns@.len(),
        forall|k: int| 0 <= k < r@.len() ==> no_backslashes(#[trigger] r.deep_view()[k]),
        forall|k: int|
            #![trigger r.deep_view()[k]]
            0 <= k < r@.len() && !glob_pattern_ok(
                joined_pattern(root@, folder@, patterns.deep_view()[k]),
            ) ==> r.deep_view()[k].len() == 0,
{
    let mut r: Vec<Vec<String>> = Vec::new();
    let mut i: usize = 0;
    while i < patterns.len()
        invariant
            i <= patterns.len(),
            r@.len() == i,
            forall|k: int| 0 <= k < i ==> no_backslashes(#[trigger] r.deep_view()[k]),
            forall|k: int|
                #![trigger r.deep_view()[k]]
                0 <= k < i && !glob_pattern_ok(
                    joined_pattern(root@, folder@, patterns.deep_view()[k]),
                ) ==> r.deep_view()[k].len() == 0,
        decreases patterns.len() - i,
    {
        let ghost before = r.deep_view();
        let joined = join_pattern(root.as_str(), folder.as_str(), patterns[i].as_str());
        let matches = glob_matches(joined.as_str());
        r.push(matches);
        proof {
            assert(r.deep_view() =~= before.push(matches.deep_view()));
        }
        i += 1;
    }
    r
}

/// Resolves one folder: expands its merged exclude patterns into the
/// exclude-set, then its merged source patterns into the deduplicated,
/// exclusion-filtered source list. Returns `(sources, exclude_set)`.
pub fn resolve_folder_sources(ws: &WorkspaceSettings, folder: &FolderSettings) -> (r: (
    Vec<String>,
    Vec<String>,
))
    ensures
        no_dups(r.0.deep_view()),
        no_dups(r.1.deep_view()),
        forall|p: Seq<char>| r.0.deep_view().contains(p) ==> !r.1.deep_view().contains(p),
        exists|ex: Seq<Seq<Seq<char>>>, sl: Seq<Seq<Seq<char>>>|
            ex.len() == ws@.exclude_pattern.len() + folder@.exclude_pattern.len() && sl.len()
                == ws@.src_pattern.len() + folder@.src_pattern.len() && r.1.deep_view()
                == #[trigger] merged_exclude_set(ex) && r.0.deep_view()
                == #[trigger] merged_source_list(sl, r.1.deep_view()),
{
    let all_exclude_patterns = merge_lists(&ws.exclude_pattern, &folder.exclude_pattern);
    let exclude_expansions = expand_patterns(
        &ws.root_folder_path,
        &folder.folder_path,
        &all_exclude_patterns,
    );
    let exclude_set = merge_unique(&exclude_expansions);
    let all_src_patterns = merge_lists(&ws.src_pattern, &folder.src_pattern);
    let src_expansions = expand_patterns(
        &ws.root_folder_path,
        &folder.folder_path,
        &all_src_patterns,
    );
    let sources = merge_filtered(&src_expansions, &exclude_set);
    proof {
        lemma_no_duplicate_sources(src_expansions.deep_view(), exclude_set.deep_view());
        lemma_no_duplicate_excludes(exclude_expansions.deep_view());
        assert forall|p: Seq<char>|
            sources.deep_view().contains(p) implies !exclude_set.deep_view().contains(p) by {
            lemma_sources_from_expansions(src_expansions.deep_view(), exclude_set.deep_view(), p);
        }
        assert(exclude_expansions.deep_view().len() == exclude_expansions@.len());
        assert(all_exclude_patterns@.len() == all_exclude_patterns.deep_view().len());
        assert(exclude_expansions.deep_view().len() == ws@.exclude_pattern.len()
            + folder@.exclude_pattern.len());
        assert(src_expansions.deep_view().len() == src_expansions@.len());
        assert(all_src_patterns@.len() == all_src_patterns.deep_view().len());
        assert(src_expansions.deep_view().len() == ws@.src_pattern.len()
            + folder@.src_pattern.len());
        assert(exclude_set.deep_view() == merged_exclude_set(exclude_expansions.deep_view())
            && sources.deep_view() == merged_source_list(
            src_expansions.deep_view(),
            exclude_set.deep_view(),
        ));
    }
    (sources, exclude_set)
}

} // verus!

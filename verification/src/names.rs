//! Names and ordered lists of names.

use vstd::prelude::*;


verus! {

/// Lexicographic order on characters, a proper prefix coming first.
pub open spec fn name_lt(a: Seq<char>, b: Seq<char>) -> bool
    decreases a.len(),
{
    if b.len() == 0 {
        false
    } else if a.len() == 0 {
        true
    } else if a[0] == b[0] {
        name_lt(a.drop_first(), b.drop_first())
    } else {
        a[0] < b[0]
    }
}

/// Every name comes strictly before the next.
pub open spec fn strictly_sorted(names: Seq<Seq<char>>) -> bool {
    forall|i: int, j: int| 0 <= i < j < names.len() ==> name_lt(#[trigger] names[i], #[trigger] names[j])
}

/// No name comes before one that stands earlier.
pub open spec fn sorted(names: Seq<Seq<char>>) -> bool {
    forall|i: int, j: int| 0 <= i < j < names.len() ==> !name_lt(#[trigger] names[j], #[trigger] names[i])
}

/// The list holds exactly the names of the set, in order, each once.
pub open spec fn lists_exactly(names: Seq<Seq<char>>, set: Set<Seq<char>>) -> bool {
    &&& strictly_sorted(names)
    &&& forall|name: Seq<char>| names.contains(name) <==> set.contains(name)
}

pub proof fn lemma_lt_irreflexive(a: Seq<char>)
    ensures
        !name_lt(a, a),
    decreases a.len(),
{
    if a.len() > 0 {
        lemma_lt_irreflexive(a.drop_first());
    }
}

pub proof fn lemma_lt_asymmetric(a: Seq<char>, b: Seq<char>)
    requires
        name_lt(a, b),
    ensures
        !name_lt(b, a),
    decreases a.len(),
{
    if a.len() > 0 && b.len() > 0 && a[0] == b[0] {
        lemma_lt_asymmetric(a.drop_first(), b.drop_first());
    }
}

pub proof fn lemma_lt_transitive(a: Seq<char>, b: Seq<char>, c: Seq<char>)
    requires
        name_lt(a, b),
        name_lt(b, c),
    ensures
        name_lt(a, c),
    decreases a.len(),
{
    if a.len() > 0 && b.len() > 0 && c.len() > 0 && a[0] == b[0] && b[0] == c[0] {
        lemma_lt_transitive(a.drop_first(), b.drop_first(), c.drop_first());
    }
}

pub proof fn lemma_lt_total(a: Seq<char>, b: Seq<char>)
    ensures
        a == b || name_lt(a, b) || name_lt(b, a),
    decreases a.len(),
{
    if a.len() > 0 && b.len() > 0 {
        if a[0] == b[0] {
            lemma_lt_total(a.drop_first(), b.drop_first());
            if a.drop_first() == b.drop_first() {
                assert(a =~= seq![a[0]] + a.drop_first());
                assert(b =~= seq![b[0]] + b.drop_first());
            }
        }
    } else if a.len() == 0 && b.len() == 0 {
        assert(a =~= b);
    }
}

/// Only one list holds exactly the names of a set in order.
pub proof fn ordered_listing_is_unique(a: Seq<Seq<char>>, b: Seq<Seq<char>>, set: Set<Seq<char>>)
    requires
        lists_exactly(a, set),
        lists_exactly(b, set),
    ensures
        a == b,
    decreases a.len(),
{
    if a.len() == 0 {
        if b.len() > 0 {
            assert(b.contains(b[0]));
        }
        assert(a =~= b);
    } else if b.len() == 0 {
        assert(a.contains(a[0]));
    } else {
        let x = a.last();
        let y = b.last();
        assert(a.contains(x) && b.contains(y));
        assert(b.contains(x) && a.contains(y));
        let i = choose|i: int| 0 <= i < b.len() && b[i] == x;
        let j = choose|j: int| 0 <= j < a.len() && a[j] == y;
        if x != y {
            assert(name_lt(b[i], b[b.len() - 1]));
            assert(name_lt(a[j], a[a.len() - 1]));
            lemma_lt_asymmetric(x, y);
        }
        let rest = set.remove(x);
        assert forall|name: Seq<char>| a.drop_last().contains(name) <==> rest.contains(name) by {
            if a.drop_last().contains(name) {
                let k = choose|k: int| 0 <= k < a.drop_last().len() && a.drop_last()[k] == name;
                assert(a[k] == name && a.contains(name));
                assert(name_lt(a[k], a[a.len() - 1]));
                lemma_lt_irreflexive(name);
            }
            if rest.contains(name) {
                assert(a.contains(name));
                let k = choose|k: int| 0 <= k < a.len() && a[k] == name;
                assert(a.drop_last()[k] == name);
            }
        }
        assert forall|name: Seq<char>| b.drop_last().contains(name) <==> rest.contains(name) by {
            if b.drop_last().contains(name) {
                let k = choose|k: int| 0 <= k < b.drop_last().len() && b.drop_last()[k] == name;
                assert(b[k] == name && b.contains(name));
                assert(name_lt(b[k], b[b.len() - 1]));
                lemma_lt_irreflexive(name);
            }
            if rest.contains(name) {
                assert(b.contains(name));
                let k = choose|k: int| 0 <= k < b.len() && b[k] == name;
                assert(b.drop_last()[k] == name);
            }
        }
        assert(strictly_sorted(a.drop_last()));
        assert(strictly_sorted(b.drop_last()));
        ordered_listing_is_unique(a.drop_last(), b.drop_last(), rest);
        assert(a =~= a.drop_last().push(x));
        assert(b =~= b.drop_last().push(y));
    }
}

pub proof fn lemma_take_contains(names: Seq<Seq<char>>, i: int)
    requires
        0 <= i < names.len(),
    ensures
        forall|name: Seq<char>| #[trigger]
            names.take(i + 1).contains(name) <==> names.take(i).contains(name) || name == names[i],
{
    let earlier = names.take(i);
    let next = names.take(i + 1);
    assert forall|name: Seq<char>| #[trigger]
        next.contains(name) <==> earlier.contains(name) || name == names[i] by {
        if earlier.contains(name) {
            let j = choose|j: int| 0 <= j < earlier.len() && earlier[j] == name;
            assert(next[j] == name);
        }
        assert(next[i] == names[i]);
        if next.contains(name) && name != names[i] {
            let j = choose|j: int| 0 <= j < next.len() && next[j] == name;
            assert(earlier[j] == name);
        }
    }
}

/// The characters of a text.
pub fn chars_of(text: &str) -> (chars: Vec<char>)
    ensures
        chars@ == text@,
{
    let mut chars: Vec<char> = Vec::new();
    for c in it: text.chars()
        invariant
            chars@ =~= it.seq().take(it.index() as int),
            it.seq() == text@,
    {
        chars.push(c);
    }
    chars
}

/// Whether two texts hold the same characters.
pub fn text_eq(a: &str, b: &str) -> (r: bool)
    ensures
        r == (a@ == b@),
{
    let left = chars_of(a);
    let right = chars_of(b);
    if left.len() != right.len() {
        return false;
    }
    let mut i: usize = 0;
    while i < left.len()
        invariant
            i <= left.len(),
            left.len() == right.len(),
            left@ == a@,
            right@ == b@,
            forall|j: int| 0 <= j < i ==> left@[j] == right@[j],
        decreases left.len() - i,
    {
        if left[i] != right[i] {
            return false;
        }
        i = i + 1;
    }
    proof {
        assert(left@ =~= right@);
    }
    true
}

/// Whether the first text comes before the second.
pub fn text_lt(a: &str, b: &str) -> (r: bool)
    ensures
        r == name_lt(a@, b@),
{
    let left = chars_of(a);
    let right = chars_of(b);
    let mut i: usize = 0;
    proof {
        assert(left@.skip(0) =~= left@);
        assert(right@.skip(0) =~= right@);
    }
    while i < left.len() && i < right.len()
        invariant
            i <= left.len(),
            i <= right.len(),
            left@ == a@,
            right@ == b@,
            name_lt(left@, right@) == name_lt(left@.skip(i as int), right@.skip(i as int)),
        decreases left.len() - i,
    {
        let x: char = left[i];
        let y: char = right[i];
        proof {
            assert(left@.skip(i as int)[0] == x);
            assert(right@.skip(i as int)[0] == y);
            assert(left@.skip(i as int).drop_first() =~= left@.skip(i + 1));
            assert(right@.skip(i as int).drop_first() =~= right@.skip(i + 1));
        }
        if x != y {
            return x < y;
        }
        i = i + 1;
    }
    i < right.len()
}

/// Number of leading names that come before `name`, in a sorted list.
fn rank(list: &Vec<String>, name: &String) -> (at: usize)
    requires
        sorted(list.deep_view()),
    ensures
        at <= list.len(),
        forall|i: int| 0 <= i < at ==> name_lt(#[trigger] list.deep_view()[i], name@),
        forall|i: int| at <= i < list.len() ==> !name_lt(#[trigger] list.deep_view()[i], name@),
{
    let mut at: usize = 0;
    while at < list.len()
        invariant
            at <= list.len(),
            sorted(list.deep_view()),
            forall|i: int| 0 <= i < at ==> name_lt(#[trigger] list.deep_view()[i], name@),
        decreases list.len() - at,
    {
        if !text_lt(list[at].as_str(), name.as_str()) {
            proof {
                assert forall|i: int| at <= i < list.len() implies !name_lt(
                    #[trigger] list.deep_view()[i],
                    name@,
                ) by {
                    let here = list.deep_view()[at as int];
                    let there = list.deep_view()[i];
                    if name_lt(there, name@) {
                        lemma_lt_total(here, there);
                        if name_lt(here, there) {
                            lemma_lt_transitive(here, there, name@);
                        }
                    }
                }
            }
            return at;
        }
        at = at + 1;
    }
    at
}

/// A name inserted at its rank leaves a sorted list sorted.
proof fn lemma_insert_at_rank(names: Seq<Seq<char>>, at: int, name: Seq<char>)
    requires
        sorted(names),
        0 <= at <= names.len(),
        forall|i: int| 0 <= i < at ==> name_lt(#[trigger] names[i], name),
        forall|i: int| at <= i < names.len() ==> !name_lt(#[trigger] names[i], name),
    ensures
        sorted(names.insert(at, name)),
        strictly_sorted(names) && !names.contains(name) ==> strictly_sorted(
            names.insert(at, name),
        ),
        forall|other: Seq<char>| #[trigger]
            names.insert(at, name).contains(other) <==> names.contains(other) || other == name,
{
    let after = names.insert(at, name);
    assert forall|i: int, j: int| 0 <= i < j < after.len() implies !name_lt(
        #[trigger] after[j],
        #[trigger] after[i],
    ) by {
        if j == at {
            lemma_lt_asymmetric(names[i], name);
        } else if i == at {
            assert(after[j] == names[j - 1]);
        } else {
            let a = if i < at { i } else { i - 1 };
            let b = if j < at { j } else { j - 1 };
            assert(after[i] == names[a] && after[j] == names[b]);
        }
    }
    if strictly_sorted(names) && !names.contains(name) {
        assert forall|i: int, j: int| 0 <= i < j < after.len() implies name_lt(
            #[trigger] after[i],
            #[trigger] after[j],
        ) by {
            if j == at {
            } else if i == at {
                assert(after[j] == names[j - 1]);
                assert(names.contains(names[j - 1]));
                lemma_lt_total(name, names[j - 1]);
            } else {
                let a = if i < at { i } else { i - 1 };
                let b = if j < at { j } else { j - 1 };
                assert(after[i] == names[a] && after[j] == names[b]);
            }
        }
    }
    assert forall|other: Seq<char>| #[trigger] after.contains(other) <==> names.contains(other)
        || other == name by {
        if after.contains(other) {
            let k = choose|k: int| 0 <= k < after.len() && after[k] == other;
            if k < at {
                assert(names[k] == other);
            } else if k > at {
                assert(names[k - 1] == other);
            }
        }
        if names.contains(other) {
            let k = choose|k: int| 0 <= k < names.len() && names[k] == other;
            if k < at {
                assert(after[k] == other);
            } else {
                assert(after[k + 1] == other);
            }
        }
        assert(after[at] == name);
    }
}

/// Put a name in its place in a sorted list, beside any equal names.
pub fn insert_sorted(list: &mut Vec<String>, name: String)
    requires
        sorted(old(list).deep_view()),
    ensures
        sorted(final(list).deep_view()),
        final(list).deep_view().to_multiset() == old(list).deep_view().to_multiset().insert(name@),
{
    let at: usize = rank(list, &name);
    let ghost before = list.deep_view();
    let ghost text = name@;
    list.insert(at, name);
    proof {
        assert(list.deep_view() =~= before.insert(at as int, text));
        lemma_insert_at_rank(before, at as int, text);
        vstd::seq_lib::to_multiset_insert(before, at as int, text);
    }
}

/// Put a name in its place in a list without repeats, unless it is there.
pub fn insert_unique(list: &mut Vec<String>, name: &String)
    requires
        strictly_sorted(old(list).deep_view()),
    ensures
        strictly_sorted(final(list).deep_view()),
        forall|other: Seq<char>| #[trigger]
            final(list).deep_view().contains(other) <==> old(list).deep_view().contains(other)
                || other == name@,
{
    proof {
        lemma_strict_is_sorted(list.deep_view());
    }
    let at: usize = rank(list, name);
    let ghost before = list.deep_view();
    if at < list.len() && list[at] == *name {
        proof {
            assert(before[at as int] == name@);
        }
        return;
    }
    proof {
        assert forall|i: int| 0 <= i < before.len() implies before[i] != name@ by {
            lemma_lt_irreflexive(name@);
            if at < i && before[i] == name@ {
                assert(name_lt(before[at as int], before[i]));
            }
        }
        lemma_insert_at_rank(before, at as int, name@);
    }
    list.insert(at, name.clone());
    proof {
        assert(list.deep_view() =~= before.insert(at as int, name@));
    }
}

pub proof fn lemma_strict_is_sorted(names: Seq<Seq<char>>)
    requires
        strictly_sorted(names),
    ensures
        sorted(names),
{
    assert forall|i: int, j: int| 0 <= i < j < names.len() implies !name_lt(
        #[trigger] names[j],
        #[trigger] names[i],
    ) by {
        lemma_lt_asymmetric(names[i], names[j]);
    }
}

/// The same names in order, repeats kept.
pub fn sort_names(list: &Vec<String>) -> (r: Vec<String>)
    ensures
        sorted(r.deep_view()),
        r.deep_view().to_multiset() == list.deep_view().to_multiset(),
{
    let mut out: Vec<String> = Vec::new();
    let mut i: usize = 0;
    proof {
        assert(out.deep_view() =~= list.deep_view().take(0));
    }
    while i < list.len()
        invariant
            i <= list.len(),
            sorted(out.deep_view()),
            out.deep_view().to_multiset() == list.deep_view().take(i as int).to_multiset(),
        decreases list.len() - i,
    {
        proof {
            let next = list.deep_view().take(i + 1);
            assert(next =~= list.deep_view().take(i as int).push(list.deep_view()[i as int]));
            list.deep_view().take(i as int).to_multiset_ensures();
        }
        insert_sorted(&mut out, list[i].clone());
        i = i + 1;
    }
    proof {
        assert(list.deep_view().take(list.len() as int) =~= list.deep_view());
    }
    out
}

/// The distinct names of a list, in order.
pub fn sort_unique(list: &Vec<String>) -> (r: Vec<String>)
    ensures
        lists_exactly(r.deep_view(), list.deep_view().to_set()),
{
    let mut out: Vec<String> = Vec::new();
    let mut i: usize = 0;
    while i < list.len()
        invariant
            i <= list.len(),
            strictly_sorted(out.deep_view()),
            forall|name: Seq<char>| #[trigger]
                out.deep_view().contains(name) <==> list.deep_view().take(i as int).contains(name),
        decreases list.len() - i,
    {
        let ghost before = out.deep_view();
        insert_unique(&mut out, &list[i]);
        proof {
            let here = list.deep_view()[i as int];
            let prefix = list.deep_view().take(i as int);
            let next = list.deep_view().take(i + 1);
            assert(next =~= prefix.push(here));
            assert forall|name: Seq<char>| #[trigger]
                out.deep_view().contains(name) <==> next.contains(name) by {
                assert(out.deep_view().contains(name) <==> before.contains(name) || name == here);
                if prefix.contains(name) {
                    let k = choose|k: int| 0 <= k < prefix.len() && prefix[k] == name;
                    assert(next[k] == name);
                }
                assert(next[i as int] == here);
                if next.contains(name) && name != here {
                    let k = choose|k: int| 0 <= k < next.len() && next[k] == name;
                    assert(prefix[k] == name);
                }
            }
        }
        i = i + 1;
    }
    proof {
        assert(list.deep_view().take(list.len() as int) =~= list.deep_view());
    }
    out
}

/// Whether the list holds a name.
pub fn has_name(list: &Vec<String>, name: &str) -> (b: bool)
    ensures
        b == list.deep_view().contains(name@),
{
    let mut i: usize = 0;
    while i < list.len()
        invariant
            i <= list.len(),
            forall|j: int| 0 <= j < i ==> #[trigger] list.deep_view()[j] != name@,
        decreases list.len() - i,
    {
        if text_eq(list[i].as_str(), name) {
            proof {
                assert(list.deep_view()[i as int] == name@);
            }
            return true;
        }
        i = i + 1;
    }
    false
}

/// Sorting pins the order: two sorted lists of the same names are equal.
pub proof fn sorted_order_is_unique(a: Seq<Seq<char>>, b: Seq<Seq<char>>)
    requires
        sorted(a),
        sorted(b),
        a.to_multiset() == b.to_multiset(),
    ensures
        a == b,
    decreases a.len(),
{
    a.to_multiset_ensures();
    b.to_multiset_ensures();
    assert(a.len() == b.len());
    if a.len() == 0 {
        assert(a =~= b);
    } else {
        let x = a.last();
        let y = b.last();
        assert(a.contains(x) && b.contains(y));
        vstd::seq_lib::to_multiset_contains(a, x);
        vstd::seq_lib::to_multiset_contains(b, x);
        vstd::seq_lib::to_multiset_contains(a, y);
        vstd::seq_lib::to_multiset_contains(b, y);
        assert(b.contains(x) && a.contains(y));
        let i = choose|i: int| 0 <= i < b.len() && b[i] == x;
        let j = choose|j: int| 0 <= j < a.len() && a[j] == y;
        lemma_lt_total(x, y);
        if x != y {
            if i < b.len() - 1 {
                assert(!name_lt(b[b.len() - 1], b[i]));
            }
            if j < a.len() - 1 {
                assert(!name_lt(a[a.len() - 1], a[j]));
            }
        }
        vstd::seq_lib::to_multiset_remove(a, a.len() - 1);
        vstd::seq_lib::to_multiset_remove(b, b.len() - 1);
        assert(a.remove(a.len() - 1) =~= a.drop_last());
        assert(b.remove(b.len() - 1) =~= b.drop_last());
        sorted_order_is_unique(a.drop_last(), b.drop_last());
        assert(a =~= a.drop_last().push(x));
        assert(b =~= b.drop_last().push(y));
    }
}

pub proof fn lemma_not_seen(names: Seq<Seq<char>>, i: int)
    requires
        names.no_duplicates(),
        0 <= i < names.len(),
    ensures
        !names.take(i).contains(names[i]),
{
    if names.take(i).contains(names[i]) {
        let j = choose|j: int| 0 <= j < i && names.take(i)[j] == names[i];
        assert(names[j] == names[i]);
    }
}

pub proof fn lemma_strict_has_no_repeats(names: Seq<Seq<char>>)
    requires
        strictly_sorted(names),
    ensures
        names.no_duplicates(),
{
    assert forall|i: int, j: int|
        0 <= i < names.len() && 0 <= j < names.len() && i != j implies names[i] != names[j] by {
        if i < j {
            assert(name_lt(names[i], names[j]));
            lemma_lt_irreflexive(names[i]);
        } else {
            assert(name_lt(names[j], names[i]));
            lemma_lt_irreflexive(names[i]);
        }
    }
}

/// A name comes before another where it is less at the first character that
/// differs, or where it ends there.
pub proof fn the_first_difference_decides(a: Seq<char>, b: Seq<char>, k: int)
    requires
        0 <= k <= a.len(),
        k <= b.len(),
        forall|i: int| 0 <= i < k ==> #[trigger] a[i] == b[i],
    ensures
        k < a.len() && k < b.len() && a[k] != b[k] ==> (name_lt(a, b) <==> a[k] < b[k]),
        k == a.len() && k < b.len() ==> name_lt(a, b),
        k == b.len() ==> !name_lt(a, b),
    decreases a.len(),
{
    if k > 0 {
        let s = a.drop_first();
        let t = b.drop_first();
        assert(a[0] == b[0]);
        assert forall|i: int| 0 <= i < k - 1 implies #[trigger] s[i] == t[i] by {
            assert(a[i + 1] == b[i + 1]);
        }
        the_first_difference_decides(s, t, k - 1);
    }
}

/// A list in strict order that has exactly the names of a set has each of them
/// once, and each after every smaller one.
pub proof fn exact_lists_hold_their_set(names: Seq<Seq<char>>, set: Set<Seq<char>>, name: Seq<char>)
    requires
        lists_exactly(names, set),
    ensures
        names.contains(name) <==> set.contains(name),
        forall|i: int, j: int|
            0 <= i < j < names.len() ==> name_lt(#[trigger] names[i], #[trigger] names[j]),
        forall|i: int, j: int|
            0 <= i < j < names.len() ==> #[trigger] names[i] != #[trigger] names[j],
{
    assert forall|i: int, j: int| 0 <= i < j < names.len() implies #[trigger] names[i]
        != #[trigger] names[j] by {
        lemma_lt_irreflexive(names[i]);
    }
}

/// A filter that lets every item pass leaves a list as it is.
pub proof fn lemma_filter_of_all<A>(items: Seq<A>, keep: spec_fn(A) -> bool)
    requires
        forall|i: int| 0 <= i < items.len() ==> keep(#[trigger] items[i]),
    ensures
        items.filter(keep) == items,
    decreases items.len(),
{
    reveal(Seq::filter);
    if items.len() > 0 {
        let front = items.drop_last();
        assert forall|i: int| 0 <= i < front.len() implies keep(#[trigger] front[i]) by {
            assert(front[i] == items[i]);
        }
        lemma_filter_of_all(front, keep);
        assert(keep(items[items.len() - 1]));
        assert(front.push(items.last()) =~= items);
    } else {
        assert(items.filter(keep) =~= items);
    }
}

} // verus!

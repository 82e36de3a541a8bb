//! A map from names to values, kept as a list of pairs.

use vstd::prelude::*;

use crate::names::text_eq;

verus! {

/// A map keyed by name. No name occurs twice among the pairs.
pub struct Assoc<T> {
    entries: Vec<(String, T)>,
}

/// The map that a list of pairs stands for, later pairs winning.
pub open spec fn pairs_map<T>(pairs: Seq<(String, T)>) -> Map<Seq<char>, T>
    decreases pairs.len(),
{
    if pairs.len() == 0 {
        Map::empty()
    } else {
        pairs_map(pairs.drop_last()).insert(pairs.last().0@, pairs.last().1)
    }
}

spec fn distinct<T>(pairs: Seq<(String, T)>) -> bool {
    forall|i: int, j: int|
        0 <= i < j < pairs.len() ==> #[trigger] pairs[i].0@ != #[trigger] pairs[j].0@
}

proof fn lemma_keys<T>(pairs: Seq<(String, T)>)
    requires
        distinct(pairs),
    ensures
        forall|i: int|
            0 <= i < pairs.len() ==> pairs_map(pairs).contains_pair(
                #[trigger] pairs[i].0@,
                pairs[i].1,
            ),
        forall|key: Seq<char>| #[trigger]
            pairs_map(pairs).contains_key(key) ==> exists|i: int|
                0 <= i < pairs.len() && #[trigger] pairs[i].0@ == key,
        pairs_map(pairs).dom().finite(),
        pairs_map(pairs).len() == pairs.len(),
    decreases pairs.len(),
{
    if pairs.len() > 0 {
        let front = pairs.drop_last();
        assert forall|i: int, j: int| 0 <= i < j < front.len() implies #[trigger] front[i].0@
            != #[trigger] front[j].0@ by {
            assert(pairs[i].0@ != pairs[j].0@);
        }
        lemma_keys(front);
        let last = pairs.last();
        assert forall|i: int| 0 <= i < pairs.len() implies pairs_map(pairs).contains_pair(
            #[trigger] pairs[i].0@,
            pairs[i].1,
        ) by {
            if i < front.len() {
                assert(front[i] == pairs[i]);
                assert(pairs[i].0@ != pairs[pairs.len() - 1].0@);
            }
        }
        assert forall|key: Seq<char>| #[trigger] pairs_map(pairs).contains_key(key) implies exists|
            i: int,
        |
            0 <= i < pairs.len() && #[trigger] pairs[i].0@ == key by {
            if key == last.0@ {
                assert(pairs[pairs.len() - 1].0@ == key);
            } else {
                assert(pairs_map(front).contains_key(key));
                let i = choose|i: int| 0 <= i < front.len() && #[trigger] front[i].0@ == key;
                assert(pairs[i].0@ == key);
            }
        }
        if pairs_map(front).contains_key(last.0@) {
            let i = choose|i: int| 0 <= i < front.len() && #[trigger] front[i].0@ == last.0@;
            assert(pairs[i].0@ != pairs[pairs.len() - 1].0@);
        }
    }
}

proof fn lemma_remove<T>(pairs: Seq<(String, T)>, at: int)
    requires
        distinct(pairs),
        0 <= at < pairs.len(),
    ensures
        distinct(pairs.remove(at)),
        pairs_map(pairs.remove(at)) == pairs_map(pairs).remove(pairs[at].0@),
{
    let rest = pairs.remove(at);
    assert forall|i: int, j: int| 0 <= i < j < rest.len() implies #[trigger] rest[i].0@
        != #[trigger] rest[j].0@ by {
        let a = if i < at { i } else { i + 1 };
        let b = if j < at { j } else { j + 1 };
        assert(rest[i] == pairs[a] && rest[j] == pairs[b]);
    }
    lemma_keys(pairs);
    lemma_keys(rest);
    let want = pairs_map(pairs).remove(pairs[at].0@);
    assert forall|key: Seq<char>| #[trigger]
        pairs_map(rest).contains_key(key) <==> want.contains_key(key) by {
        if pairs_map(rest).contains_key(key) {
            let i = choose|i: int| 0 <= i < rest.len() && #[trigger] rest[i].0@ == key;
            let a = if i < at { i } else { i + 1 };
            assert(rest[i] == pairs[a]);
            if a < at {
                assert(pairs[a].0@ != pairs[at].0@);
            } else {
                assert(pairs[at].0@ != pairs[a].0@);
            }
        }
        if want.contains_key(key) {
            let a = choose|a: int| 0 <= a < pairs.len() && #[trigger] pairs[a].0@ == key;
            let i = if a < at { a } else { a - 1 };
            assert(rest[i] == pairs[a]);
        }
    }
    assert forall|key: Seq<char>| #[trigger] want.contains_key(key) implies want[key] == pairs_map(
        rest,
    )[key] by {
        let a = choose|a: int| 0 <= a < pairs.len() && #[trigger] pairs[a].0@ == key;
        let i = if a < at { a } else { a - 1 };
        assert(rest[i] == pairs[a]);
        assert(pairs_map(rest).contains_pair(rest[i].0@, rest[i].1));
    }
    assert(pairs_map(rest) =~= want);
}

impl<T> View for Assoc<T> {
    type V = Map<Seq<char>, T>;

    closed spec fn view(&self) -> Map<Seq<char>, T> {
        pairs_map(self.entries@)
    }
}

impl<T> Assoc<T> {
    #[verifier::type_invariant]
    spec fn no_name_twice(self) -> bool {
        distinct(self.entries@)
    }

    pub fn new() -> (r: Self)
        ensures
            r@ == Map::<Seq<char>, T>::empty(),
    {
        Assoc { entries: Vec::new() }
    }

    pub fn len(&self) -> (n: usize)
        ensures
            n == self@.len(),
            self@.dom().finite(),
    {
        proof {
            use_type_invariant(self);
            lemma_keys(self.entries@);
        }
        self.entries.len()
    }

    fn find(&self, key: &str) -> (r: Option<usize>)
        ensures
            match r {
                Some(i) => i < self.entries.len() && self.entries@[i as int].0@ == key@,
                None => forall|i: int|
                    0 <= i < self.entries.len() ==> #[trigger] self.entries@[i].0@ != key@,
            },
    {
        let mut i: usize = 0;
        while i < self.entries.len()
            invariant
                i <= self.entries.len(),
                forall|j: int| 0 <= j < i ==> #[trigger] self.entries@[j].0@ != key@,
            decreases self.entries.len() - i,
        {
            if text_eq(self.entries[i].0.as_str(), key) {
                return Some(i);
            }
            i = i + 1;
        }
        None
    }

    pub fn contains_key(&self, key: &str) -> (b: bool)
        ensures
            b == self@.contains_key(key@),
    {
        proof {
            use_type_invariant(self);
            lemma_keys(self.entries@);
        }
        self.find(key).is_some()
    }

    pub fn get(&self, key: &str) -> (r: Option<&T>)
        ensures
            r is Some <==> self@.contains_key(key@),
            r is Some ==> *r->0 == self@[key@],
    {
        proof {
            use_type_invariant(self);
            lemma_keys(self.entries@);
        }
        match self.find(key) {
            Some(i) => Some(&self.entries[i].1),
            None => None,
        }
    }

    /// Take the value of a name out of the map.
    pub fn remove(&mut self, key: &str) -> (r: Option<T>)
        ensures
            final(self)@ == old(self)@.remove(key@),
            r is Some <==> old(self)@.contains_key(key@),
            r is Some ==> r->0 == old(self)@[key@],
    {
        proof {
            use_type_invariant(&*self);
            lemma_keys(self.entries@);
        }
        match self.find(key) {
            Some(i) => {
                proof {
                    lemma_remove(self.entries@, i as int);
                }
                let mut entries: Vec<(String, T)> = Vec::new();
                std::mem::swap(&mut self.entries, &mut entries);
                let (_, value) = entries.remove(i);
                self.entries = entries;
                Some(value)
            },
            None => {
                proof {
                    assert(self@.remove(key@) =~= self@);
                }
                None
            },
        }
    }

    pub fn insert(&mut self, key: String, value: T)
        ensures
            final(self)@ == old(self)@.insert(key@, value),
    {
        let ghost before = self@;
        let ghost text = key@;
        self.remove(key.as_str());
        proof {
            use_type_invariant(&*self);
            lemma_keys(self.entries@);
            let rest = self.entries@;
            let next = rest.push((key, value));
            assert(next.drop_last() =~= rest);
            assert forall|i: int, j: int| 0 <= i < j < next.len() implies #[trigger] next[i].0@
                != #[trigger] next[j].0@ by {
                if j == rest.len() {
                    assert(next[i] == rest[i]);
                    assert(self@.contains_key(rest[i].0@));
                } else {
                    assert(next[i] == rest[i] && next[j] == rest[j]);
                }
            }
        }
        let mut entries: Vec<(String, T)> = Vec::new();
        std::mem::swap(&mut self.entries, &mut entries);
        entries.push((key, value));
        self.entries = entries;
        proof {
            assert(self@ =~= before.insert(text, value));
        }
    }

    /// The names in the map, in no particular order, each once.
    pub fn keys(&self) -> (r: Vec<String>)
        ensures
            r.deep_view().to_set() == self@.dom(),
            r.deep_view().no_duplicates(),
            r.len() == self@.len(),
    {
        proof {
            use_type_invariant(self);
            lemma_keys(self.entries@);
        }
        let mut out: Vec<String> = Vec::new();
        let mut i: usize = 0;
        while i < self.entries.len()
            invariant
                i <= self.entries.len(),
                out.len() == i,
                forall|j: int| 0 <= j < i ==> #[trigger] out.deep_view()[j] == self.entries@[j].0@,
            decreases self.entries.len() - i,
        {
            let ghost before = out.deep_view();
            out.push(self.entries[i].0.clone());
            proof {
                assert(out.deep_view() =~= before.push(self.entries@[i as int].0@));
            }
            i = i + 1;
        }
        proof {
            let listed = out.deep_view();
            assert forall|key: Seq<char>| #[trigger]
                listed.to_set().contains(key) <==> self@.contains_key(key) by {
                if listed.contains(key) {
                    let j = choose|j: int| 0 <= j < listed.len() && listed[j] == key;
                    assert(self.entries@[j].0@ == key);
                }
                if self@.contains_key(key) {
                    let j = choose|j: int|
                        0 <= j < self.entries.len() && #[trigger] self.entries@[j].0@ == key;
                    assert(listed[j] == key);
                }
            }
            assert(listed.to_set() =~= self@.dom());
            assert forall|a: int, b: int|
                0 <= a < listed.len() && 0 <= b < listed.len() && a != b implies listed[a]
                != listed[b] by {
                if a < b {
                    assert(self.entries@[a].0@ != self.entries@[b].0@);
                } else {
                    assert(self.entries@[b].0@ != self.entries@[a].0@);
                }
            }
        }
        out
    }
}

impl Assoc<String> {
    /// A copy that maps the same names to the same texts.
    pub fn copy(&self) -> (r: Self)
        ensures
            r@.map_values(|text: String| text@) == self@.map_values(|text: String| text@),
    {
        let names = self.keys();
        let mut out: Assoc<String> = Assoc::new();
        let mut i: usize = 0;
        while i < names.len()
            invariant
                i <= names.len(),
                names.deep_view().to_set() == self@.dom(),
                forall|name: Seq<char>|
                    #![trigger out@.contains_key(name)]
                    {
                        &&& out@.contains_key(name) <==> names.deep_view().take(i as int).contains(
                            name,
                        )
                        &&& out@.contains_key(name) ==> self@.contains_key(name)
                            && out@[name]@ == self@[name]@
                    },
            decreases names.len() - i,
        {
            proof {
                crate::names::lemma_take_contains(names.deep_view(), i as int);
                assert(names.deep_view().to_set().contains(names.deep_view()[i as int]));
            }
            if let Some(text) = self.get(names[i].as_str()) {
                out.insert(names[i].clone(), text.clone());
            }
            i = i + 1;
        }
        proof {
            assert(names.deep_view().take(names.len() as int) =~= names.deep_view());
            assert forall|name: Seq<char>| #[trigger]
                out@.contains_key(name) <==> self@.contains_key(name) by {
                assert(names.deep_view().to_set().contains(name) <==> self@.contains_key(name));
            }
            assert(out@.map_values(|text: String| text@) =~= self@.map_values(
                |text: String| text@,
            ));
        }
        out
    }
}

/// A later pair of a key replaces an earlier one, and every other key keeps its
/// value.
pub proof fn later_pairs_replace_earlier_ones<T>(pairs: Seq<(String, T)>, key: String, value: T)
    ensures
        pairs_map(Seq::<(String, T)>::empty()) == Map::<Seq<char>, T>::empty(),
        pairs_map(pairs.push((key, value))) == pairs_map(pairs).insert(key@, value),
{
    assert(pairs.push((key, value)).drop_last() =~= pairs);
}

} // verus!

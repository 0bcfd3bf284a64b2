//! A map of HTTP header names to values, with the semantics of a
//! `HashMap<String, String>`: inserting a name that is present replaces its value.
use vstd::prelude::*;
use crate::text::str_eq;

verus! {

/// The map that a list of (name, value) pairs stands for, later pairs winning.
pub open spec fn pairs_map(s: Seq<(String, String)>) -> Map<Seq<char>, Seq<char>>
    decreases s.len(),
{
    if s.len() == 0 {
        Map::empty()
    } else {
        pairs_map(s.drop_last()).insert(s.last().0@, s.last().1@)
    }
}

/// No two pairs of `s` have the same name.
pub open spec fn distinct_names(s: Seq<(String, String)>) -> bool {
    forall|i: int, j: int| 0 <= i < j < s.len() ==> #[trigger] s[i].0@ != #[trigger] s[j].0@
}

/// The names that the map made of `s` holds are those of its pairs.
pub proof fn lemma_pairs_map_dom(s: Seq<(String, String)>, k: Seq<char>)
    ensures
        pairs_map(s).contains_key(k) <==> exists|i: int| 0 <= i < s.len() && #[trigger] s[i].0@ == k,
    decreases s.len(),
{
    if s.len() > 0 {
        lemma_pairs_map_dom(s.drop_last(), k);
        if pairs_map(s.drop_last()).contains_key(k) {
            let i = choose|i: int| 0 <= i < s.drop_last().len() && #[trigger] s.drop_last()[i].0@ == k;
            assert(s[i].0@ == k);
        }
        if exists|i: int| 0 <= i < s.len() && #[trigger] s[i].0@ == k {
            let i = choose|i: int| 0 <= i < s.len() && #[trigger] s[i].0@ == k;
            if i < s.len() - 1 {
                assert(s.drop_last()[i].0@ == k);
            }
        }
    }
}

/// With distinct names, the map gives each name the value of its pair.
pub proof fn lemma_pairs_map_value(s: Seq<(String, String)>, i: int)
    requires
        distinct_names(s),
        0 <= i < s.len(),
    ensures
        pairs_map(s).contains_key(s[i].0@),
        pairs_map(s)[s[i].0@] == s[i].1@,
    decreases s.len(),
{
    if i < s.len() - 1 {
        let t = s.drop_last();
        assert(t[i] == s[i]);
        assert forall|a: int, b: int| 0 <= a < b < t.len() implies #[trigger] t[a].0@
            != #[trigger] t[b].0@ by {
            assert(t[a] == s[a] && t[b] == s[b]);
        }
        lemma_pairs_map_value(t, i);
        assert(s[i].0@ != s[s.len() - 1].0@);
    }
}

/// HTTP headers: names mapped to values.
#[derive(Debug)]
pub struct Headers {
    entries: Vec<(String, String)>,
}

impl View for Headers {
    type V = Map<Seq<char>, Seq<char>>;

    closed spec fn view(&self) -> Map<Seq<char>, Seq<char>> {
        pairs_map(self.entries@)
    }
}

impl Headers {
    /// No name occurs twice.
    #[verifier::type_invariant]
    closed spec fn wf(&self) -> bool {
        distinct_names(self.entries@)
    }

    /// The (name, value) pairs, in the order the names were first inserted.
    pub closed spec fn pairs(&self) -> Seq<(String, String)> {
        self.entries@
    }

    /// The pairs of well-formed headers make up its map.
    pub proof fn lemma_pairs(&self)
        ensures
            self@ == pairs_map(self.pairs()),
    {
    }

    /// No headers.
    pub fn new() -> (h: Headers)
        ensures
            h@ == Map::<Seq<char>, Seq<char>>::empty(),
            h.pairs().len() == 0,
    {
        Headers { entries: Vec::new() }
    }

    /// The number of names.
    pub fn len(&self) -> (n: usize)
        ensures
            n == self@.len(),
            n == self.pairs().len(),
    {
        proof {
            use_type_invariant(self);
            lemma_pairs_map_len(self.entries@);
        }
        self.entries.len()
    }

    /// The (name, value) pairs, each name once.
    pub fn entries(&self) -> (e: &Vec<(String, String)>)
        ensures
            e@ == self.pairs(),
    {
        &self.entries
    }

    /// The position of `name` among `entries`, if it is there.
    fn find_in(&self, entries: &Vec<(String, String)>, name: &str) -> (r: Option<usize>)
        ensures
            match r {
                Some(i) => i < entries@.len() && entries@[i as int].0@ == name@,
                None => forall|i: int| 0 <= i < entries@.len() ==> #[trigger] entries@[i].0@ != name@,
            },
    {
        let mut i: usize = 0;
        while i < entries.len()
            invariant
                i <= entries@.len(),
                forall|j: int| 0 <= j < i ==> #[trigger] entries@[j].0@ != name@,
            decreases entries@.len() - i,
        {
            if str_eq(entries[i].0.as_str(), name) {
                return Some(i);
            }
            i = i + 1;
        }
        None
    }

    /// The value of `name` (`HashMap::get`).
    pub fn get(&self, name: &str) -> (r: Option<&String>)
        ensures
            match r {
                Some(v) => self@.contains_key(name@) && v@ == self@[name@],
                None => !self@.contains_key(name@),
            },
    {
        proof {
            use_type_invariant(self);
            lemma_pairs_map_dom(self.entries@, name@);
        }
        match self.find_in(&self.entries, name) {
            Some(i) => {
                proof {
                    lemma_pairs_map_value(self.entries@, i as int);
                }
                Some(&self.entries[i].1)
            },
            None => None,
        }
    }

    /// Whether `name` has a value.
    pub fn contains_key(&self, name: &str) -> (b: bool)
        ensures
            b == self@.contains_key(name@),
    {
        self.get(name).is_some()
    }

    /// Gives `name` the value `value`, replacing the one it had (`HashMap::insert`).
    pub fn insert(&mut self, name: String, value: String)
        ensures
            final(self)@ == old(self)@.insert(name@, value@),
    {
        proof {
            use_type_invariant(&*self);
        }
        let ghost old_entries = self.entries@;
        let mut entries: Vec<(String, String)> = Vec::new();
        std::mem::swap(&mut entries, &mut self.entries);
        match self.find_in(&entries, name.as_str()) {
            Some(i) => {
                entries[i] = (name, value);
                proof {
                    let s = entries@;
                    assert(distinct_names(s)) by {
                        assert forall|a: int, b: int| 0 <= a < b < s.len() implies #[trigger] s[a].0@
                            != #[trigger] s[b].0@ by {
                            assert(old_entries[a].0@ != old_entries[b].0@);
                        }
                    }
                    assert forall|k: Seq<char>| #[trigger] pairs_map(s).contains_key(k)
                        == pairs_map(old_entries).insert(name@, value@).contains_key(k) by {
                        lemma_pairs_map_dom(s, k);
                        lemma_pairs_map_dom(old_entries, k);
                        if exists|j: int| 0 <= j < s.len() && #[trigger] s[j].0@ == k {
                            let j = choose|j: int| 0 <= j < s.len() && #[trigger] s[j].0@ == k;
                            if j != i {
                                assert(old_entries[j].0@ == k);
                            }
                        }
                        if exists|j: int| 0 <= j < old_entries.len() && #[trigger] old_entries[j].0@ == k {
                            let j = choose|j: int| 0 <= j < old_entries.len() && #[trigger] old_entries[j].0@ == k;
                            assert(s[j].0@ == k);
                        }
                    }
                    assert forall|k: Seq<char>| #[trigger] pairs_map(s).contains_key(k) implies pairs_map(s)[k]
                        == pairs_map(old_entries).insert(name@, value@)[k] by {
                        lemma_pairs_map_dom(s, k);
                        let j = choose|j: int| 0 <= j < s.len() && #[trigger] s[j].0@ == k;
                        lemma_pairs_map_value(s, j);
                        if j != i {
                            lemma_pairs_map_value(old_entries, j);
                        }
                    }
                    assert(pairs_map(s) =~= pairs_map(old_entries).insert(name@, value@));
                }
            },
            None => {
                entries.push((name, value));
                proof {
                    let s = entries@;
                    assert(s.drop_last() == old_entries);
                    assert(distinct_names(s)) by {
                        assert forall|a: int, b: int| 0 <= a < b < s.len() implies #[trigger] s[a].0@
                            != #[trigger] s[b].0@ by {
                            if b < s.len() - 1 {
                                assert(old_entries[a].0@ != old_entries[b].0@);
                            } else {
                                assert(old_entries[a].0@ != name@);
                            }
                        }
                    }
                }
            },
        }
        self.entries = entries;
    }
}

/// A map made of pairs with distinct names has as many names as pairs.
pub proof fn lemma_pairs_map_len(s: Seq<(String, String)>)
    requires
        distinct_names(s),
    ensures
        pairs_map(s).dom().finite(),
        pairs_map(s).len() == s.len(),
    decreases s.len(),
{
    if s.len() > 0 {
        let t = s.drop_last();
        assert forall|a: int, b: int| 0 <= a < b < t.len() implies #[trigger] t[a].0@
            != #[trigger] t[b].0@ by {
            assert(t[a] == s[a] && t[b] == s[b]);
        }
        lemma_pairs_map_len(t);
        lemma_pairs_map_dom(t, s.last().0@);
        if pairs_map(t).contains_key(s.last().0@) {
            let i = choose|i: int| 0 <= i < t.len() && #[trigger] t[i].0@ == s.last().0@;
            assert(s[i].0@ != s[s.len() - 1].0@);
        }
    }
}

impl Clone for Headers {
    fn clone(&self) -> (r: Headers)
        ensures
            r@ == self@,
            r.pairs() == self.pairs(),
    {
        proof {
            use_type_invariant(self);
        }
        let mut entries: Vec<(String, String)> = Vec::new();
        let mut i: usize = 0;
        while i < self.entries.len()
            invariant
                i <= self.entries@.len(),
                entries@ == self.entries@.take(i as int),
            decreases self.entries@.len() - i,
        {
            let pair = (self.entries[i].0.clone(), self.entries[i].1.clone());
            entries.push(pair);
            assert(self.entries@.take(i + 1) == self.entries@.take(i as int).push(self.entries@[i as int]));
            i = i + 1;
        }
        assert(self.entries@.take(i as int) == self.entries@);
        Headers { entries }
    }
}

} // verus!

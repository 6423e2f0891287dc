//! The display names of the bridge's resources, by resource id.

use crate::text::same_text;
use vstd::prelude::*;

verus! {

/// The map that a list of `(id, name)` pairs stands for; where an id occurs
/// twice, the later pair counts.
pub open spec fn map_of(pairs: Seq<(String, String)>) -> Map<Seq<char>, Seq<char>>
    decreases pairs.len(),
{
    if pairs.len() == 0 {
        Map::empty()
    } else {
        map_of(pairs.drop_last()).insert(pairs.last().0@, pairs.last().1@)
    }
}

/// No id occurs twice in a list of pairs.
pub open spec fn has_distinct_ids(pairs: Seq<(String, String)>) -> bool {
    forall|i: int, j: int| 0 <= i < j < pairs.len() ==> pairs[i].0@ != pairs[j].0@
}

/// A map from resource ids to display names.
pub struct NameMap {
    pairs: Vec<(String, String)>,
}

impl View for NameMap {
    type V = Map<Seq<char>, Seq<char>>;

    closed spec fn view(&self) -> Map<Seq<char>, Seq<char>> {
        map_of(self.pairs@)
    }
}

/// What a list of pairs maps an id to: the name of the pair with that id.
pub proof fn lemma_map_of(pairs: Seq<(String, String)>)
    ensures
        forall|k: Seq<char>|
            map_of(pairs).contains_key(k) <==> exists|i: int|
                0 <= i < pairs.len() && (#[trigger] pairs[i]).0@ == k,
        has_distinct_ids(pairs) ==> forall|i: int|
            0 <= i < pairs.len() ==> map_of(pairs)[(#[trigger] pairs[i]).0@] == pairs[i].1@,
    decreases pairs.len(),
{
    if pairs.len() > 0 {
        let front = pairs.drop_last();
        let last = pairs.last();
        lemma_map_of(front);
        assert forall|k: Seq<char>|
            map_of(pairs).contains_key(k) <==> exists|i: int|
                0 <= i < pairs.len() && (#[trigger] pairs[i]).0@ == k by {
            assert(map_of(pairs) == map_of(front).insert(last.0@, last.1@));
            if map_of(pairs).contains_key(k) {
                if k == last.0@ {
                    assert(pairs[pairs.len() - 1].0@ == k);
                } else {
                    assert(map_of(front).contains_key(k));
                    let i = choose|i: int| 0 <= i < front.len() && (#[trigger] front[i]).0@ == k;
                    assert(pairs[i].0@ == k);
                }
            }
            if exists|i: int| 0 <= i < pairs.len() && (#[trigger] pairs[i]).0@ == k {
                let i = choose|i: int| 0 <= i < pairs.len() && (#[trigger] pairs[i]).0@ == k;
                if i < front.len() {
                    assert(front[i].0@ == k);
                    assert(map_of(front).contains_key(k));
                }
            }
        }
        if has_distinct_ids(pairs) {
            assert(has_distinct_ids(front)) by {
                assert forall|i: int, j: int| 0 <= i < j < front.len() implies front[i].0@
                    != front[j].0@ by {
                    assert(front[i] == pairs[i] && front[j] == pairs[j]);
                }
            }
            assert forall|i: int| 0 <= i < pairs.len() implies map_of(pairs)[(
            #[trigger] pairs[i]).0@] == pairs[i].1@ by {
                if i < front.len() {
                    assert(front[i] == pairs[i]);
                    assert(pairs[i].0@ != pairs[pairs.len() - 1].0@);
                }
            }
        }
    }
}

/// Putting a new name at the place of an id's pair maps the id to that name.
proof fn lemma_map_of_update(pairs: Seq<(String, String)>, i: int, pair: (String, String))
    requires
        0 <= i < pairs.len(),
        has_distinct_ids(pairs),
        pairs[i].0@ == pair.0@,
    ensures
        has_distinct_ids(pairs.update(i, pair)),
        map_of(pairs.update(i, pair)) == map_of(pairs).insert(pair.0@, pair.1@),
{
    let after = pairs.update(i, pair);
    assert forall|a: int, b: int| 0 <= a < b < after.len() implies after[a].0@ != after[b].0@ by {
        assert(pairs[a].0@ != pairs[b].0@);
    }
    lemma_map_of(pairs);
    lemma_map_of(after);
    let want = map_of(pairs).insert(pair.0@, pair.1@);
    assert forall|k: Seq<char>| map_of(after).contains_key(k) <==> want.contains_key(k) by {
        if map_of(after).contains_key(k) {
            let j = choose|j: int| 0 <= j < after.len() && (#[trigger] after[j]).0@ == k;
            assert(pairs[j].0@ == k);
        }
        if want.contains_key(k) {
            if k == pair.0@ {
                assert(after[i].0@ == k);
            } else {
                let j = choose|j: int| 0 <= j < pairs.len() && (#[trigger] pairs[j]).0@ == k;
                assert(after[j].0@ == k);
            }
        }
    }
    assert forall|k: Seq<char>| map_of(after).contains_key(k) implies map_of(after)[k]
        == want[k] by {
        let j = choose|j: int| 0 <= j < after.len() && (#[trigger] after[j]).0@ == k;
        assert(map_of(after)[after[j].0@] == after[j].1@);
        if j != i {
            assert(after[j] == pairs[j]);
            assert(map_of(pairs)[pairs[j].0@] == pairs[j].1@);
            assert(pairs[j].0@ != pairs[i].0@);
        }
    }
    assert(map_of(after) =~= want);
}

impl NameMap {
    #[verifier::type_invariant]
    spec fn distinct(&self) -> bool {
        has_distinct_ids(self.pairs@)
    }

    /// The empty map.
    pub fn new() -> (map: Self)
        ensures
            map@ == Map::<Seq<char>, Seq<char>>::empty(),
    {
        NameMap { pairs: Vec::new() }
    }

    /// The number of ids that have a name.
    pub fn len(&self) -> (n: usize)
        ensures
            n == self.pairs().len(),
    {
        self.pairs.len()
    }

    /// The pairs of the map, each id once.
    pub closed spec fn pairs(&self) -> Seq<(String, String)> {
        self.pairs@
    }

    /// The pairs of the map: each id once, with its name.
    pub fn as_pairs(&self) -> (pairs: &Vec<(String, String)>)
        ensures
            pairs@ == self.pairs(),
            map_of(pairs@) == self@,
            has_distinct_ids(pairs@),
    {
        proof {
            use_type_invariant(self);
        }
        &self.pairs
    }

    /// The place of the pair of `id`, if `id` has a name.
    fn find(&self, id: &str) -> (at: Option<usize>)
        ensures
            match at {
                Some(i) => i < self.pairs@.len() && self.pairs@[i as int].0@ == id@,
                None => forall|k: int| 0 <= k < self.pairs@.len() ==> (#[trigger] self.pairs@[k]).0@
                    != id@,
            },
    {
        let mut i: usize = 0;
        while i < self.pairs.len()
            invariant
                i <= self.pairs@.len(),
                forall|k: int| 0 <= k < i ==> (#[trigger] self.pairs@[k]).0@ != id@,
            decreases self.pairs@.len() - i,
        {
            if same_text(self.pairs[i].0.as_str(), id) {
                return Some(i);
            }
            i += 1;
        }
        None
    }

    /// The name of `id`, if it has one.
    pub fn get(&self, id: &str) -> (name: Option<&String>)
        ensures
            match name {
                Some(n) => self@.contains_key(id@) && self@[id@] == n@,
                None => !self@.contains_key(id@),
            },
    {
        proof {
            use_type_invariant(self);
            lemma_map_of(self.pairs@);
        }
        match self.find(id) {
            Some(i) => Some(&self.pairs[i].1),
            None => None,
        }
    }

    /// Gives `id` the name `name`, in place of the name it had.
    pub fn insert(&mut self, id: String, name: String)
        ensures
            final(self)@ == old(self)@.insert(id@, name@),
    {
        proof {
            use_type_invariant(&*self);
        }
        let at = self.find(id.as_str());
        let mut taken = NameMap::new();
        std::mem::swap(self, &mut taken);
        let mut pairs = taken.pairs;
        let ghost before = pairs@;
        match at {
            Some(i) => {
                proof {
                    lemma_map_of_update(before, i as int, (id, name));
                }
                pairs[i] = (id, name);
                assert(pairs@ =~= before.update(i as int, (id, name)));
            },
            None => {
                pairs.push((id, name));
                assert(pairs@.drop_last() =~= before);
                assert forall|a: int, b: int| 0 <= a < b < pairs@.len() implies pairs@[a].0@
                    != pairs@[b].0@ by {
                    assert(before[a].0@ != id@);
                    if b < before.len() {
                        assert(before[a].0@ != before[b].0@);
                    }
                }
            },
        }
        *self = NameMap { pairs };
    }
}

} // verus!

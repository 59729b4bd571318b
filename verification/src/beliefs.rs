//! The beliefs that an agent holds, one for each concept key.

use vstd::prelude::*;
use vstd::string::StringExecFns;
use crate::text::same_text;

verus! {

/// The number by which an agent is known.
#[derive(Debug, Clone, Copy, PartialEq, Eq, Hash)]
pub struct AgentId(pub u64);

/// How firmly a belief is held.
#[derive(Debug, Clone, Copy, PartialEq, Eq)]
pub enum BeliefStrength {
    Weak,
    Moderate,
    Strong,
}

/// A belief in the concept named by `key`.
#[derive(Debug, Clone, PartialEq, Eq)]
pub struct Belief {
    pub key: String,
    pub strength: BeliefStrength,
}

/// The beliefs of one agent: at most one for each key.
#[derive(Debug)]
pub struct BeliefMap {
    entries: Vec<Belief>,
}

/// Some entry of the list has the key.
pub open spec fn holds_key(entries: Seq<Belief>, key: Seq<char>) -> bool {
    exists|i: int| 0 <= i < entries.len() && (#[trigger] entries[i]).key@ == key
}

/// No key stands twice in the list.
pub open spec fn keys_distinct(entries: Seq<Belief>) -> bool {
    forall|i: int, j: int|
        0 <= i < j < entries.len() ==> (#[trigger] entries[i]).key@ != (#[trigger] entries[j]).key@
}

/// The strength that each key of the list is held with.
pub open spec fn strengths_of(entries: Seq<Belief>) -> Map<Seq<char>, BeliefStrength> {
    Map::new(
        |key: Seq<char>| holds_key(entries, key),
        |key: Seq<char>|
            entries[choose|i: int| 0 <= i < entries.len() && (#[trigger] entries[i]).key@ == key].strength,
    )
}

impl BeliefMap {
    /// The entries as they are kept.
    pub closed spec fn entries(&self) -> Seq<Belief> {
        self.entries@
    }

    /// No key is held twice.
    #[verifier::type_invariant]
    spec fn keys_are_distinct(&self) -> bool {
        keys_distinct(self.entries@)
    }

    /// No beliefs.
    pub fn new() -> (beliefs: BeliefMap)
        ensures
            beliefs@ == Map::<Seq<char>, BeliefStrength>::empty(),
    {
        let beliefs = BeliefMap { entries: Vec::new() };
        assert(beliefs@ =~= Map::<Seq<char>, BeliefStrength>::empty());
        beliefs
    }

    /// How many beliefs are held.
    pub fn len(&self) -> (n: usize)
        ensures
            self@.dom().finite(),
            n == self@.dom().len(),
    {
        proof {
            use_type_invariant(self);
            lemma_one_key_each(self.entries@);
        }
        self.entries.len()
    }

    /// The place of the entry with the key.
    fn position(&self, key: &str) -> (found: Option<usize>)
        ensures
            match found {
                Some(i) => i < self.entries().len() && self.entries()[i as int].key@ == key@,
                None => !holds_key(self.entries(), key@),
            },
    {
        let mut i: usize = 0;
        while i < self.entries.len()
            invariant
                i <= self.entries@.len(),
                forall|k: int| 0 <= k < i ==> (#[trigger] self.entries@[k]).key@ != key@,
            decreases self.entries.len() - i,
        {
            if same_text(self.entries[i].key.as_str(), key) {
                return Some(i);
            }
            i += 1;
        }
        None
    }

    /// The belief held under `key`.
    pub fn get(&self, key: &str) -> (found: Option<&Belief>)
        ensures
            match found {
                Some(belief) => self@.dom().contains(key@) && belief.key@ == key@ && belief.strength
                    == self@[key@],
                None => !self@.dom().contains(key@),
            },
    {
        proof {
            use_type_invariant(self);
        }
        match self.position(key) {
            Some(i) => {
                assert(holds_key(self.entries(), key@));
                Some(&self.entries[i])
            },
            None => None,
        }
    }

    /// Holds `belief` under its key, in place of what was held under that
    /// key before.
    pub fn insert(&mut self, belief: Belief)
        ensures
            final(self)@ == old(self)@.insert(belief.key@, belief.strength),
    {
        proof {
            use_type_invariant(&*self);
        }
        let ghost before = self.entries@;
        let ghost key = belief.key@;
        let ghost strength = belief.strength;
        let place = self.position(belief.key.as_str());
        let mut entries: Vec<Belief> = Vec::new();
        core::mem::swap(&mut entries, &mut self.entries);
        match place {
            Some(i) => {
                entries.set(i, belief);
                proof {
                    let after = entries@;
                    assert forall|k: Seq<char>| holds_key(after, k) <==> (k == key || holds_key(
                        before,
                        k,
                    )) by {
                        if holds_key(after, k) {
                            let j = choose|j: int| 0 <= j < after.len() && (#[trigger] after[j]).key@ == k;
                            assert(before[j].key@ == k);
                        }
                        if holds_key(before, k) {
                            let j = choose|j: int|
                                0 <= j < before.len() && (#[trigger] before[j]).key@ == k;
                            assert(after[j].key@ == k);
                        }
                        if k == key {
                            assert(after[i as int].key@ == k);
                        }
                    }
                    assert forall|k: Seq<char>| holds_key(after, k) implies #[trigger] strengths_of(
                        after,
                    )[k] == before_or_new(before, key, strength, k) by {
                        let j = choose|j: int| 0 <= j < after.len() && (#[trigger] after[j]).key@ == k;
                        if k != key {
                            assert(before[j].key@ == k);
                            let b = choose|b: int|
                                0 <= b < before.len() && (#[trigger] before[b]).key@ == k;
                            assert(b == j);
                        } else {
                            assert(j == i);
                        }
                    }
                    assert(strengths_of(after) =~= strengths_of(before).insert(key, strength));
                }
            },
            None => {
                entries.push(belief);
                proof {
                    let after = entries@;
                    let last = before.len() as int;
                    assert forall|k: Seq<char>| holds_key(after, k) <==> (k == key || holds_key(
                        before,
                        k,
                    )) by {
                        if holds_key(after, k) {
                            let j = choose|j: int| 0 <= j < after.len() && (#[trigger] after[j]).key@ == k;
                            if j < last {
                                assert(before[j].key@ == k);
                            }
                        }
                        if holds_key(before, k) {
                            let j = choose|j: int|
                                0 <= j < before.len() && (#[trigger] before[j]).key@ == k;
                            assert(after[j].key@ == k);
                        }
                        if k == key {
                            assert(after[last].key@ == k);
                        }
                    }
                    assert forall|k: Seq<char>| holds_key(after, k) implies #[trigger] strengths_of(
                        after,
                    )[k] == before_or_new(before, key, strength, k) by {
                        let j = choose|j: int| 0 <= j < after.len() && (#[trigger] after[j]).key@ == k;
                        if k != key {
                            assert(j < last);
                            assert(before[j].key@ == k);
                            let b = choose|b: int|
                                0 <= b < before.len() && (#[trigger] before[b]).key@ == k;
                            assert(after[b].key@ == k);
                            assert(b == j);
                        } else {
                            if j < last {
                                assert(before[j].key@ == key);
                            }
                            assert(j == last);
                        }
                    }
                    assert(strengths_of(after) =~= strengths_of(before).insert(key, strength));
                }
            },
        }
        self.entries = entries;
    }

    /// One step of an agent towards a concept: where the transition is not
    /// forbidden, the agent comes to hold the concept with the proposed
    /// strength; where it is forbidden, nothing changes.
    pub fn adopt(&mut self, key: &str, proposed: BeliefStrength, forbidden: bool)
        ensures
            forbidden ==> final(self)@ == old(self)@,
            !forbidden ==> final(self)@ == old(self)@.insert(key@, proposed),
    {
        if forbidden {
            return ;
        }
        self.insert(Belief { key: String::from_str(key), strength: proposed });
    }
}

impl Clone for BeliefMap {
    fn clone(&self) -> (copy: BeliefMap)
        ensures
            copy@ == self@,
    {
        proof {
            use_type_invariant(self);
        }
        let mut entries: Vec<Belief> = Vec::new();
        let mut i: usize = 0;
        while i < self.entries.len()
            invariant
                i <= self.entries@.len(),
                entries@ == self.entries@.take(i as int),
            decreases self.entries@.len() - i,
        {
            let belief = Belief {
                key: self.entries[i].key.clone(),
                strength: self.entries[i].strength,
            };
            entries.push(belief);
            assert(entries@ =~= self.entries@.take(i + 1));
            i += 1;
        }
        assert(entries@ =~= self.entries@);
        BeliefMap { entries }
    }
}

impl View for BeliefMap {
    type V = Map<Seq<char>, BeliefStrength>;

    open spec fn view(&self) -> Map<Seq<char>, BeliefStrength> {
        strengths_of(self.entries())
    }
}

/// A list in which no key stands twice holds as many keys as entries.
pub proof fn lemma_one_key_each(entries: Seq<Belief>)
    requires
        keys_distinct(entries),
    ensures
        strengths_of(entries).dom().finite(),
        strengths_of(entries).dom().len() == entries.len(),
    decreases entries.len(),
{
    let keys = strengths_of(entries).dom();
    if entries.len() == 0 {
        assert(keys =~= Set::<Seq<char>>::empty());
    } else {
        let init = entries.drop_last();
        let last = entries.last();
        lemma_one_key_each(init);
        let before = strengths_of(init).dom();
        assert forall|k: Seq<char>| keys.contains(k) <==> before.insert(last.key@).contains(k) by {
            if holds_key(entries, k) {
                let i = choose|i: int| 0 <= i < entries.len() && (#[trigger] entries[i]).key@ == k;
                if i < init.len() {
                    assert(init[i].key@ == k);
                }
            }
            if holds_key(init, k) {
                let i = choose|i: int| 0 <= i < init.len() && (#[trigger] init[i]).key@ == k;
                assert(entries[i].key@ == k);
            }
            if k == last.key@ {
                assert(entries[entries.len() - 1].key@ == k);
            }
        }
        assert(keys =~= before.insert(last.key@));
        if holds_key(init, last.key@) {
            let i = choose|i: int| 0 <= i < init.len() && (#[trigger] init[i]).key@ == last.key@;
            assert(entries[i].key@ == entries[entries.len() - 1].key@);
        }
        assert(!before.contains(last.key@));
    }
}

/// The strength held under `k` once `key` is held with `strength`.
pub open spec fn before_or_new(
    before: Seq<Belief>,
    key: Seq<char>,
    strength: BeliefStrength,
    k: Seq<char>,
) -> BeliefStrength {
    if k == key {
        strength
    } else {
        strengths_of(before)[k]
    }
}

} // verus!

//! A set of keys that remembers the order in which they came.

use vstd::prelude::*;

use crate::text;

verus! {

/// A set of keys, in the order in which they were first inserted.
#[derive(Debug)]
pub struct KeySet {
    keys: Vec<String>,
}

impl View for KeySet {
    type V = Seq<Seq<char>>;

    closed spec fn view(&self) -> Seq<Seq<char>> {
        text::texts(self.keys@)
    }
}

impl KeySet {
    #[verifier::type_invariant]
    spec fn holds_each_key_once(self) -> bool {
        text::texts(self.keys@).no_duplicates()
    }

    /// A set without keys.
    pub fn new() -> (set: KeySet)
        ensures
            set@ == Seq::<Seq<char>>::empty(),
    {
        let keys: Vec<String> = Vec::new();
        assert(text::texts(keys@) =~= Seq::empty());
        KeySet { keys }
    }

    /// Whether there are no keys.
    pub fn is_empty(&self) -> (empty: bool)
        ensures
            empty == (self@.len() == 0),
    {
        self.keys.is_empty()
    }

    /// The keys, in the order in which they were first inserted. None occurs twice.
    pub fn keys(&self) -> (keys: &Vec<String>)
        ensures
            text::texts(keys@) == self@,
            self@.no_duplicates(),
    {
        proof {
            use_type_invariant(self);
        }
        &self.keys
    }

    /// Whether the set holds `key`.
    pub fn contains(&self, key: &String) -> (found: bool)
        ensures
            found == self@.contains(key@),
    {
        let mut i: usize = 0;
        while i < self.keys.len()
            invariant
                i <= self.keys@.len(),
                forall|j: int| 0 <= j < i ==> #[trigger] self@[j] != key@,
            decreases self.keys@.len() - i,
        {
            if self.keys[i] == *key {
                assert(self@[i as int] == key@);
                return true;
            }
            i += 1;
        }
        false
    }

    /// Inserts `key` at the end, unless the set holds it already. Returns whether it was new.
    pub fn insert(&mut self, key: String) -> (new: bool)
        ensures
            new == !old(self)@.contains(key@),
            final(self)@ == if new {
                old(self)@.push(key@)
            } else {
                old(self)@
            },
    {
        if self.contains(&key) {
            return false;
        }
        proof {
            use_type_invariant(&*self);
        }
        let ghost before = self@;
        let mut keys: Vec<String> = Vec::new();
        std::mem::swap(&mut self.keys, &mut keys);
        proof {
            assert(text::texts(keys@.push(key)) =~= before.push(key@));
            assert(before.push(key@).no_duplicates());
        }
        keys.push(key);
        self.keys = keys;
        true
    }
}

} // verus!

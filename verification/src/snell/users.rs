//! The users of a Snell inbound, by their keys.

use vstd::prelude::*;

use crate::text::same_bytes;

verus! {

/// Names by user key. No key occurs twice.
pub struct UserTable {
    pub entries: Vec<(Vec<u8>, String)>,
}

impl View for UserTable {
    type V = Seq<(Seq<u8>, Seq<char>)>;

    open spec fn view(&self) -> Seq<(Seq<u8>, Seq<char>)> {
        Seq::new(self.entries@.len(), |i: int| (self.entries@[i].0@, self.entries@[i].1@))
    }
}

impl UserTable {
    pub open spec fn wf(&self) -> bool {
        forall|i: int, j: int|
            0 <= i < j < self@.len() ==> (#[trigger] self@[i]).0 != (#[trigger] self@[j]).0
    }

    pub open spec fn has_key(&self, key: Seq<u8>) -> bool {
        exists|i: int| 0 <= i < self@.len() && (#[trigger] self@[i]).0 == key
    }

    /// The name that a key stands for.
    pub open spec fn name_of(&self, key: Seq<u8>) -> Option<Seq<char>> {
        if self.has_key(key) {
            let i = choose|i: int| 0 <= i < self@.len() && (#[trigger] self@[i]).0 == key;
            Some(self@[i].1)
        } else {
            None
        }
    }

    pub fn new() -> (table: Self)
        ensures
            table.wf(),
            table@ == Seq::<(Seq<u8>, Seq<char>)>::empty(),
    {
        let table = UserTable { entries: Vec::new() };
        assert(table@ =~= Seq::<(Seq<u8>, Seq<char>)>::empty());
        table
    }

    pub fn is_empty(&self) -> (empty: bool)
        ensures
            empty == (self@.len() == 0),
    {
        self.entries.len() == 0
    }

    fn find(&self, key: &[u8]) -> (found: Option<usize>)
        ensures
            match found {
                Some(i) => i < self@.len() && self@[i as int].0 == key@,
                None => !self.has_key(key@),
            },
    {
        let mut i: usize = 0;
        while i < self.entries.len()
            invariant
                i <= self.entries@.len(),
                forall|j: int| 0 <= j < i ==> (#[trigger] self@[j]).0 != key@,
            decreases self.entries@.len() - i,
        {
            assert(self@[i as int].0 == self.entries@[i as int].0@);
            if same_bytes(self.entries[i].0.as_slice(), key) {
                return Some(i);
            }
            i += 1;
        }
        None
    }

    pub fn get(&self, key: &[u8]) -> (name: Option<String>)
        requires
            self.wf(),
        ensures
            match name {
                Some(text) => self.name_of(key@) == Some(text@),
                None => self.name_of(key@) is None,
            },
    {
        match self.find(key) {
            Some(i) => {
                let text = self.entries[i].1.clone();
                proof {
                    let k = choose|k: int| 0 <= k < self@.len() && (#[trigger] self@[k]).0 == key@;
                    assert(self@[i as int].0 == key@);
                    assert(k == i);
                }
                Some(text)
            },
            None => None,
        }
    }

    /// Adds a user, unless the key is taken.
    pub fn insert(&mut self, key: Vec<u8>, name: String) -> (added: bool)
        requires
            old(self).wf(),
        ensures
            final(self).wf(),
            added == !old(self).has_key(key@),
            final(self)@ == if added {
                old(self)@.push((key@, name@))
            } else {
                old(self)@
            },
    {
        match self.find(key.as_slice()) {
            Some(_) => false,
            None => {
                let ghost before = self@;
                self.entries.push((key, name));
                assert(self@ =~= before.push((key@, name@)));
                true
            },
        }
    }
}

} // verus!

//! Process-wide index from scene identity to a forced-termination handle.
//!
//! The registry is an explicit, injectable instance owned by the runtime
//! host, not a process global. `request_termination` hands back the handle
//! under which the host interrupts the scene's engine from any thread; asking
//! for an identity that is not (or no longer) registered is a no-op, not an
//! error, so termination races safely with normal teardown.

use vstd::prelude::*;

use crate::keyed::{
    assoc_map, lemma_assoc_map_dom, lemma_assoc_map_index, lemma_assoc_map_push,
    lemma_assoc_map_remove, lemma_assoc_map_update, lemma_unique_keys_remove, unique_keys,
};
use crate::scene::SceneId;

verus! {

/// Index from scene identity to that scene's forced-termination handle.
pub struct CancellationRegistry<H> {
    entries: Vec<(SceneId, H)>,
}

impl<H> View for CancellationRegistry<H> {
    type V = Map<SceneId, H>;

    closed spec fn view(&self) -> Map<SceneId, H> {
        assoc_map(self.entries@)
    }
}

impl<H> CancellationRegistry<H> {
    /// One handle per scene identity.
    pub closed spec fn inv(self) -> bool {
        unique_keys(self.entries@)
    }

    pub fn new() -> (r: CancellationRegistry<H>)
        ensures
            r.inv(),
            r@ == Map::<SceneId, H>::empty(),
    {
        let r = CancellationRegistry { entries: Vec::new() };
        proof {
            assert(r.entries@ =~= Seq::<(SceneId, H)>::empty());
        }
        r
    }

    /// Index of the handle registered under `id`, if any.
    fn find_index(&self, id: SceneId) -> (r: Option<usize>)
        requires
            self.inv(),
        ensures
            match r {
                Some(i) => {
                    &&& i < self.entries@.len()
                    &&& self.entries@[i as int].0 == id
                    &&& self@.contains_key(id)
                    &&& self@[id] == self.entries@[i as int].1
                },
                None => !self@.contains_key(id),
            },
    {
        let n = self.entries.len();
        let mut i: usize = 0;
        while i < n
            invariant
                self.inv(),
                n == self.entries@.len(),
                i <= n,
                forall|j: int| 0 <= j < i ==> (#[trigger] self.entries@[j]).0 != id,
            decreases n - i,
        {
            if self.entries[i].0 == id {
                proof {
                    lemma_assoc_map_index(self.entries@, i as int);
                }
                return Some(i);
            }
            i += 1;
        }
        proof {
            lemma_assoc_map_dom(self.entries@);
        }
        None
    }

    /// Registers the handle under which `id`'s engine can be interrupted; a
    /// handle already registered under the same identity is superseded.
    pub fn register(&mut self, id: SceneId, handle: H)
        requires
            old(self).inv(),
        ensures
            final(self).inv(),
            final(self)@ == old(self)@.insert(id, handle),
    {
        match self.find_index(id) {
            Some(i) => {
                let ghost s = self.entries@;
                proof {
                    lemma_assoc_map_update(s, i as int, handle);
                }
                self.entries[i] = (id, handle);
                proof {
                    assert(self.entries@ =~= s.update(i as int, (s[i as int].0, handle)));
                    assert forall|p: int, q: int|
                        0 <= p < q < self.entries@.len() implies (#[trigger] self.entries@[p]).0
                        != (#[trigger] self.entries@[q]).0 by {
                        assert(s[p].0 == self.entries@[p].0 || p == i as int);
                        assert(s[q].0 == self.entries@[q].0 || q == i as int);
                    }
                }
            },
            None => {
                let ghost s = self.entries@;
                proof {
                    lemma_assoc_map_push(s, id, handle);
                    lemma_assoc_map_dom(s);
                }
                self.entries.push((id, handle));
                proof {
                    assert(self.entries@ =~= s.push((id, handle)));
                    assert forall|p: int, q: int|
                        0 <= p < q < self.entries@.len() implies (#[trigger] self.entries@[p]).0
                        != (#[trigger] self.entries@[q]).0 by {
                        if q == s.len() as int {
                            assert(s[p].0 != id);
                        }
                    }
                }
            },
        }
    }

    /// Drops whatever is registered under `id`; unknown identities are left
    /// alone, so teardown and termination may race.
    pub fn unregister(&mut self, id: SceneId)
        requires
            old(self).inv(),
        ensures
            final(self).inv(),
            final(self)@ == old(self)@.remove(id),
    {
        match self.find_index(id) {
            Some(i) => {
                let ghost s = self.entries@;
                proof {
                    lemma_assoc_map_remove(s, i as int);
                    lemma_unique_keys_remove(s, i as int);
                }
                let _ = self.entries.remove(i);
                proof {
                    assert(self.entries@ =~= s.remove(i as int));
                }
            },
            None => {
                proof {
                    assert(old(self)@.remove(id) =~= old(self)@);
                }
            },
        }
    }

    /// The handle to interrupt `id`'s engine with, from any thread; `None`
    /// for an identity that is not registered — a no-op for the caller, not
    /// an error.
    pub fn request_termination(&self, id: SceneId) -> (r: Option<&H>)
        requires
            self.inv(),
        ensures
            match r {
                Some(h) => self@.contains_key(id) && *h == self@[id],
                None => !self@.contains_key(id),
            },
    {
        match self.find_index(id) {
            Some(i) => Some(&self.entries[i].1),
            None => None,
        }
    }
}

} // verus!

use vstd::prelude::*;

use crate::errors::LoadBalancerError;
use crate::server::Server;
use crate::server::ServerView;

verus! {

/// The value a sequence of live entries stands for: key and server value,
/// in insertion order.
pub open spec fn entries_view(s: Seq<(u64, Server)>) -> Seq<(u64, ServerView)> {
    s.map(|i: int, p: (u64, Server)| (p.0, p.1@))
}

/// No two live entries carry the same key.
pub open spec fn keys_unique(s: Seq<(u64, ServerView)>) -> bool {
    forall|i: int, j: int| 0 <= i < j < s.len() ==> s[i].0 != s[j].0
}

/// Some live entry carries the key.
pub open spec fn has_key(s: Seq<(u64, ServerView)>, key: u64) -> bool {
    exists|i: int| 0 <= i < s.len() && s[i].0 == key
}

/// The position of the live entry carrying the key; meaningful only when
/// `has_key(s, key)` holds, and unique once the keys are unique.
pub open spec fn key_index(s: Seq<(u64, ServerView)>, key: u64) -> int {
    choose|i: int| 0 <= i < s.len() && s[i].0 == key
}

/// The keyed collection of currently live backends, in insertion order.
///
/// Keys are opaque and stable while an entry lives: they come from a
/// monotonically increasing allocation counter and are never reused for the
/// registry's lifetime, so no interleaving of adds and removals can hand two
/// simultaneously-live entries the same key.
#[derive(Debug)]
pub struct Registry {
    entries: Vec<(u64, Server)>,
    next_key: u64,
}

impl View for Registry {
    type V = Seq<(u64, ServerView)>;

    closed spec fn view(&self) -> Seq<(u64, ServerView)> {
        entries_view(self.entries@)
    }
}

impl Registry {
    /// The key the allocation counter will hand out next.
    pub closed spec fn next_key(&self) -> u64 {
        self.next_key
    }

    /// Well-formed: live keys are pairwise distinct and all precede the
    /// allocation counter.
    pub closed spec fn wf(&self) -> bool {
        &&& keys_unique(self@)
        &&& forall|i: int| 0 <= i < self@.len() ==> (#[trigger] self@[i]).0 < self.next_key
    }

    /// Key non-collision under churn: however adds and removals were
    /// interleaved, a well-formed registry never holds two live entries with
    /// the same key.
    pub proof fn lemma_live_keys_distinct(&self)
        requires
            self.wf(),
        ensures
            keys_unique(self@),
    {
    }

    /// An empty registry whose counter starts at zero.
    pub fn new() -> (r: Registry)
        ensures
            r.wf(),
            r@ == Seq::<(u64, ServerView)>::empty(),
            r.next_key() == 0,
    {
        let r = Registry { entries: Vec::new(), next_key: 0 };
        proof {
            assert(r@ =~= Seq::<(u64, ServerView)>::empty());
        }
        r
    }

    /// The number of live entries.
    pub fn count(&self) -> (n: usize)
        ensures
            n == self@.len(),
    {
        self.entries.len()
    }

    /// Insert a server under a fresh key, guaranteed unused among live
    /// entries, and return the key. Fails only once the allocation counter
    /// is exhausted, when any further key could collide with a live one.
    pub fn add(&mut self, server: Server) -> (r: Result<u64, LoadBalancerError>)
        requires
            old(self).wf(),
        ensures
            final(self).wf(),
            r is Ok <==> old(self).next_key() < u64::MAX,
            r matches Ok(k) ==> {
                &&& k == old(self).next_key()
                &&& final(self).next_key() == old(self).next_key() + 1
                &&& final(self)@ == old(self)@.push((k, server@))
            },
            r matches Err(e) ==> {
                &&& e == LoadBalancerError::AlreadyExists
                &&& final(self)@ == old(self)@
                &&& final(self).next_key() == old(self).next_key()
            },
    {
        if self.next_key == u64::MAX {
            return Err(LoadBalancerError::AlreadyExists);
        }
        let key = self.next_key;
        self.next_key = self.next_key + 1;
        self.entries.push((key, server));
        proof {
            assert(self@ =~= old(self)@.push((key, server@)));
        }
        Ok(key)
    }

    /// Delete the entry carrying the key, keeping the order of the others;
    /// fails with `NotFound` exactly when no live entry carries it.
    pub fn remove(&mut self, key: u64) -> (r: Result<(), LoadBalancerError>)
        requires
            old(self).wf(),
        ensures
            final(self).wf(),
            final(self).next_key() == old(self).next_key(),
            r is Ok <==> has_key(old(self)@, key),
            r is Ok ==> final(self)@ == old(self)@.remove(key_index(old(self)@, key)),
            r matches Err(e) ==> e == LoadBalancerError::NotFound && final(self)@ == old(self)@,
    {
        let n = self.entries.len();
        let mut i: usize = 0;
        while i < n
            invariant
                self == old(self),
                old(self).wf(),
                n == self.entries@.len(),
                i <= n,
                forall|j: int| 0 <= j < i ==> (#[trigger] self@[j]).0 != key,
            decreases n - i,
        {
            if self.entries[i].0 == key {
                self.entries.remove(i);
                proof {
                    let ghost idx = i as int;
                    let ghost olde = old(self).entries@;
                    let ghost oldv = old(self)@;
                    assert(oldv[idx].0 == key);
                    olde.remove_ensures(idx);
                    oldv.remove_ensures(idx);
                    assert(self@ =~= oldv.remove(idx));
                    let j = key_index(oldv, key);
                    assert(0 <= j < oldv.len() && oldv[j].0 == key);
                    if j < idx {
                        assert(oldv[j].0 != oldv[idx].0);
                        assert(false);
                    } else if j > idx {
                        assert(oldv[idx].0 != oldv[j].0);
                        assert(false);
                    }
                    assert forall|p: int, q: int|
                        0 <= p < q < self@.len() implies (#[trigger] self@[p]).0 != (
                    #[trigger] self@[q]).0 by {
                        let p0 = if p < idx {
                            p
                        } else {
                            p + 1
                        };
                        let q0 = if q < idx {
                            q
                        } else {
                            q + 1
                        };
                        assert(self@[p] == oldv[p0]);
                        assert(self@[q] == oldv[q0]);
                        assert(oldv[p0].0 != oldv[q0].0);
                    }
                    assert forall|p: int| 0 <= p < self@.len() implies (#[trigger] self@[p]).0
                        < self.next_key by {
                        let p0 = if p < idx {
                            p
                        } else {
                            p + 1
                        };
                        assert(self@[p] == oldv[p0]);
                        assert(oldv[p0].0 < old(self).next_key());
                    }
                }
                return Ok(());
            }
            i = i + 1;
        }
        assert(!has_key(self@, key));
        Err(LoadBalancerError::NotFound)
    }

    /// A consistent point-in-time copy of the live entries, in insertion
    /// order, for strategies that need a stable iteration order.
    pub fn snapshot(&self) -> (r: Vec<(u64, Server)>)
        ensures
            entries_view(r@) == self@,
    {
        let n = self.entries.len();
        let mut out: Vec<(u64, Server)> = Vec::new();
        let mut i: usize = 0;
        while i < n
            invariant
                n == self.entries@.len(),
                i <= n,
                out@.len() == i,
                forall|j: int|
                    0 <= j < i ==> (#[trigger] out@[j]).0 == self.entries@[j].0 && out@[j].1@
                        == self.entries@[j].1@,
            decreases n - i,
        {
            let p = &self.entries[i];
            out.push((p.0, p.1.clone()));
            i = i + 1;
        }
        proof {
            assert(entries_view(out@) =~= self@);
        }
        out
    }

    /// The live entries themselves, in insertion order, for a selection pass
    /// that needs no copy.
    pub fn live_entries(&self) -> (r: &Vec<(u64, Server)>)
        ensures
            entries_view(r@) == self@,
    {
        &self.entries
    }
}

} // verus!

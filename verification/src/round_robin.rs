use vstd::prelude::*;

use vstd::arithmetic::div_mod::lemma_add_mod_noop_right;
use vstd::arithmetic::div_mod::lemma_basic_div;
use vstd::arithmetic::div_mod::lemma_div_multiples_vanish_fancy;
use vstd::arithmetic::div_mod::lemma_fundamental_div_mod;
use vstd::arithmetic::div_mod::lemma_mod_division_less_than_divisor;
use vstd::arithmetic::div_mod::lemma_mod_self_0;
use vstd::arithmetic::div_mod::lemma_small_mod;

use crate::errors::LoadBalancerError;
use crate::registry::entries_view;
use crate::server::Server;
use crate::server::ServerView;
use crate::strategy::SelectionStrategy;

verus! {

/// Round-robin selection: a single cursor walks the snapshot positions in
/// cyclic order. Selection over a snapshot of size `n` picks the element at
/// `cursor % n` and advances the cursor to `(cursor + 1) % n`, so the cursor
/// never indexes past the size it last selected from.
#[derive(Debug)]
pub struct RoundRobin {
    /// The ordinal position the next selection starts from.
    pub current_index: usize,
}

impl RoundRobin {
    /// A fresh round-robin strategy whose cursor is at the first position.
    pub fn new() -> (r: RoundRobin)
        ensures
            r.current_index == 0,
    {
        RoundRobin { current_index: 0 }
    }
}

impl Default for RoundRobin {
    fn default() -> (r: RoundRobin)
        ensures
            r.current_index == 0,
    {
        RoundRobin::new()
    }
}

impl SelectionStrategy for RoundRobin {
    open spec fn spec_selection(&self, snap: Seq<(u64, ServerView)>) -> Option<int> {
        if snap.len() == 0 {
            None
        } else {
            Some(self.current_index as int % snap.len() as int)
        }
    }

    open spec fn spec_advance(&self, snap: Seq<(u64, ServerView)>) -> RoundRobin {
        if snap.len() == 0 {
            *self
        } else {
            RoundRobin {
                current_index: ((self.current_index as int + 1) % snap.len() as int) as usize,
            }
        }
    }

    open spec fn spec_revalidate(&self, n: nat) -> RoundRobin {
        if self.current_index as nat >= n {
            RoundRobin { current_index: 0 }
        } else {
            *self
        }
    }

    open spec fn spec_report(&self, server: ServerView, delta: int) -> RoundRobin {
        *self
    }

    fn next(&mut self, snapshot: &Vec<(u64, Server)>) -> (r: Result<Server, LoadBalancerError>) {
        let n = snapshot.len();
        if n == 0 {
            return Err(LoadBalancerError::Empty);
        }
        let i = self.current_index % n;
        let server = snapshot[i].1.clone();
        self.current_index = if i + 1 == n {
            0
        } else {
            i + 1
        };
        proof {
            let c = old(self).current_index as int;
            let ni = n as int;
            lemma_add_mod_noop_right(1, c, ni);
            if i + 1 == n {
                lemma_mod_self_0(ni);
            } else {
                lemma_small_mod((i + 1) as nat, n as nat);
            }
            assert(self.current_index as int == (c + 1) % ni);
            assert(entries_view(snapshot@)[i as int].1 == snapshot@[i as int].1@);
        }
        Ok(server)
    }

    fn revalidate(&mut self, n: usize) {
        if self.current_index >= n {
            self.current_index = 0;
        }
    }

    fn report_outcome(&mut self, server: &Server, delta: i64) {
    }
}

/// The round-robin state after `k` successive selections over a snapshot
/// that does not change in between. Each exec selection is bound to one
/// `spec_advance` step by its contract, so the laws below speak of runs of
/// `next` — and of `LoadBalancerCore::next_server` — with no registry
/// mutation in between.
pub open spec fn state_after(s: RoundRobin, snap: Seq<(u64, ServerView)>, k: nat) -> RoundRobin
    decreases k,
{
    if k == 0 {
        s
    } else {
        state_after(s, snap, (k - 1) as nat).spec_advance(snap)
    }
}

/// The position the `k`-th of those selections picks (counting from zero).
pub open spec fn selection_at(s: RoundRobin, snap: Seq<(u64, ServerView)>, k: nat) -> Option<
    int,
> {
    state_after(s, snap, k).spec_selection(snap)
}

/// After `k` selections over an unchanged non-empty snapshot, a cursor that
/// started at the first position stands at `k % n`.
pub proof fn lemma_cursor_after(snap: Seq<(u64, ServerView)>, k: nat)
    requires
        0 < snap.len() <= usize::MAX,
    ensures
        state_after(RoundRobin { current_index: 0 }, snap, k).current_index == k as int
            % snap.len() as int,
    decreases k,
{
    let n = snap.len() as int;
    if k == 0 {
        lemma_small_mod(0, snap.len());
    } else {
        lemma_cursor_after(snap, (k - 1) as nat);
        let prev = state_after(RoundRobin { current_index: 0 }, snap, (k - 1) as nat);
        lemma_add_mod_noop_right(1, k - 1, n);
        assert(state_after(RoundRobin { current_index: 0 }, snap, k) == prev.spec_advance(snap));
    }
}

/// Cyclic order: over a registry of `n` live entries and no further
/// mutation, successive selections starting from a fresh cursor return the
/// positions `0, 1, ..., n - 1, 0, 1, ...` — the `k`-th selection picks
/// position `k % n`.
pub proof fn lemma_cyclic_order(snap: Seq<(u64, ServerView)>, k: nat)
    requires
        0 < snap.len() <= usize::MAX,
    ensures
        selection_at(RoundRobin { current_index: 0 }, snap, k) == Some(
            k as int % snap.len() as int,
        ),
{
    lemma_cursor_after(snap, k);
    let s = state_after(RoundRobin { current_index: 0 }, snap, k);
    let n = snap.len() as int;
    lemma_small_mod((k as int % n) as nat, snap.len());
}

/// Removal mid-cycle never strands the cursor: once re-validated against a
/// non-empty registry of `n` entries, the cursor indexes inside it — it was
/// either still in range or has been reset to the first position.
pub proof fn lemma_revalidated_cursor_in_range(s: RoundRobin, n: nat)
    requires
        n > 0,
    ensures
        s.spec_revalidate(n).current_index < n,
{
}

/// How many of the first `m` selections pick position `p`.
pub open spec fn selection_count(
    s: RoundRobin,
    snap: Seq<(u64, ServerView)>,
    m: nat,
    p: int,
) -> nat
    decreases m,
{
    if m == 0 {
        0
    } else {
        selection_count(s, snap, (m - 1) as nat, p) + (if selection_at(s, snap, (m - 1) as nat)
            == Some(p) {
            1 as nat
        } else {
            0 as nat
        })
    }
}

/// Fairness under strict serialization: of `m` serialized selections over
/// an unchanged registry of `n` entries, the entry at position `p` is
/// picked exactly `(m + n - 1 - p) / n` times — that is `m / n` or
/// `m / n + 1`, matching the deterministic single-threaded cycle however
/// the callers interleave.
pub proof fn lemma_selection_count(snap: Seq<(u64, ServerView)>, m: nat, p: int)
    requires
        0 < snap.len() <= usize::MAX,
        0 <= p < snap.len(),
    ensures
        selection_count(RoundRobin { current_index: 0 }, snap, m, p) as int == (m as int
            + snap.len() as int - 1 - p) / snap.len() as int,
    decreases m,
{
    let n = snap.len() as int;
    if m == 0 {
        lemma_basic_div(n - 1 - p, n);
    } else {
        lemma_selection_count(snap, (m - 1) as nat, p);
        lemma_cyclic_order(snap, (m - 1) as nat);
        lemma_mod_division_less_than_divisor((m - 1) as int, n);
        lemma_fundamental_div_mod((m - 1) as int, n);
        let r = (m - 1) as int % n;
        let q = (m - 1) as int / n;
        let x = m as int - 1 + n - 1 - p;
        let y = m as int + n - 1 - p;
        assert(n * (q + 1) == n * q + n) by (nonlinear_arith);
        if r == p {
            assert(x == n * q + (n - 1));
            lemma_div_multiples_vanish_fancy(q, n - 1, n);
            assert(y == n * (q + 1) + 0);
            lemma_div_multiples_vanish_fancy(q + 1, 0, n);
        } else if r > p {
            assert(x == n * (q + 1) + (r - 1 - p));
            lemma_div_multiples_vanish_fancy(q + 1, r - 1 - p, n);
            assert(y == n * (q + 1) + (r - p));
            lemma_div_multiples_vanish_fancy(q + 1, r - p, n);
        } else {
            assert(x == n * q + (n - 1 - p + r));
            lemma_div_multiples_vanish_fancy(q, n - 1 - p + r, n);
            assert(y == n * q + (n - p + r));
            lemma_div_multiples_vanish_fancy(q, n - p + r, n);
        }
    }
}

} // verus!

use vstd::prelude::*;

use crate::errors::LoadBalancerError;
use crate::registry::entries_view;
use crate::server::Server;
use crate::server::ServerView;

verus! {

/// A pluggable selection algorithm over a snapshot of the live entries.
///
/// Each strategy describes its own transitions with spec functions, and the
/// exec methods are bound to them. A strategy is therefore deterministic
/// given the snapshot and its own prior state, and it can never hand out an
/// entry absent from the snapshot.
pub trait SelectionStrategy: Sized {
    /// The position the strategy selects from a snapshot, if any: `None`
    /// exactly when the snapshot is empty, a position inside it otherwise.
    spec fn spec_selection(&self, snap: Seq<(u64, ServerView)>) -> Option<int>;

    /// The strategy state after one selection over the snapshot.
    spec fn spec_advance(&self, snap: Seq<(u64, ServerView)>) -> Self;

    /// The strategy state after its cursor was re-validated against a
    /// registry that now holds `n` live entries.
    spec fn spec_revalidate(&self, n: nat) -> Self;

    /// The strategy state after an outcome report for `server` with signed
    /// load delta `delta`.
    spec fn spec_report(&self, server: ServerView, delta: int) -> Self;

    /// Select the next server to use from a snapshot of the live entries.
    /// Fails with `Empty`, and only with `Empty`, exactly when the snapshot
    /// holds no entry; otherwise the selected entry is one of the snapshot's
    /// own, at the position `spec_selection` names.
    fn next(&mut self, snapshot: &Vec<(u64, Server)>) -> (r: Result<
        Server,
        LoadBalancerError,
    >)
        ensures
            *final(self) == old(self).spec_advance(entries_view(snapshot@)),
            r is Ok <==> snapshot@.len() > 0,
            r matches Ok(s) ==> (old(self).spec_selection(entries_view(snapshot@)) matches Some(i)
                && 0 <= i < snapshot@.len() && s@ == entries_view(snapshot@)[i].1),
            r matches Err(e) ==> e == LoadBalancerError::Empty && old(self).spec_selection(
                entries_view(snapshot@),
            ) is None,
    ;

    /// Re-validate strategy state after a structural change left the
    /// registry with `n` live entries, so that a stale cursor is never left
    /// out of range.
    fn revalidate(&mut self, n: usize)
        ensures
            *final(self) == old(self).spec_revalidate(n as nat),
    ;

    /// Outcome feedback for load-aware strategies: called after a forward
    /// completes, with a signed load delta. Never fails; a strategy that
    /// tracks no load leaves its state unchanged.
    fn report_outcome(&mut self, server: &Server, delta: i64)
        ensures
            *final(self) == old(self).spec_report(server@, delta as int),
    ;
}

} // verus!

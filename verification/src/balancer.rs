use vstd::prelude::*;

use crate::errors::LoadBalancerError;
use crate::registry::has_key;
use crate::registry::key_index;
use crate::registry::Registry;
use crate::server::parsed_server;
use crate::server::Server;
use crate::strategy::SelectionStrategy;

verus! {

/// The load-balancing core: exactly one registry and one selection
/// strategy, composed behind one contract. Both share the same lifetime,
/// created together at startup; mutation of the registry and of the
/// strategy's cursor happens only through these operations, so a caller
/// that serializes them (for instance behind one exclusive lock) never
/// observes the two in an inconsistent combination.
#[derive(Debug)]
pub struct LoadBalancerCore<S: SelectionStrategy> {
    pub registry: Registry,
    pub strategy: S,
}

impl<S: SelectionStrategy> LoadBalancerCore<S> {
    /// Well-formed: the registry's key discipline holds.
    pub open spec fn wf(&self) -> bool {
        self.registry.wf()
    }

    /// A core with no live backends and the given strategy.
    pub fn new(strategy: S) -> (r: LoadBalancerCore<S>)
        ensures
            r.wf(),
            r.registry@ == Seq::<(u64, crate::server::ServerView)>::empty(),
            r.registry.next_key() == 0,
            r.strategy == strategy,
    {
        LoadBalancerCore { registry: Registry::new(), strategy }
    }

    /// A core populated from the startup configuration's initial backend
    /// addresses, in their order. Fails fast with `InvalidAddress`, adding
    /// nothing, exactly when some address does not validate.
    pub fn with_backends(strategy: S, addresses: &Vec<String>) -> (r: Result<
        LoadBalancerCore<S>,
        LoadBalancerError,
    >)
        requires
            addresses@.len() < u64::MAX,
        ensures
            r is Ok <==> (forall|i: int|
                0 <= i < addresses@.len() ==> parsed_server(#[trigger] addresses@[i]@) is Some),
            r matches Ok(c) ==> {
                &&& c.wf()
                &&& c.strategy == strategy
                &&& c.registry@.len() == addresses@.len()
                &&& c.registry.next_key() == addresses@.len()
                &&& forall|i: int|
                    0 <= i < addresses@.len() ==> (#[trigger] c.registry@[i]).0 == i as u64
                        && Some(c.registry@[i].1) == parsed_server(addresses@[i]@)
            },
            r matches Err(e) ==> e == LoadBalancerError::InvalidAddress,
    {
        let mut core = LoadBalancerCore { registry: Registry::new(), strategy };
        let n = addresses.len();
        let mut i: usize = 0;
        while i < n
            invariant
                core.wf(),
                n == addresses@.len() < u64::MAX,
                i <= n,
                core.registry.next_key() == i as u64,
                core.registry@.len() == i as int,
                forall|j: int|
                    0 <= j < i ==> (#[trigger] core.registry@[j]).0 == j as u64 && Some(
                        core.registry@[j].1,
                    ) == parsed_server(addresses@[j]@),
                forall|j: int| 0 <= j < i ==> parsed_server(#[trigger] addresses@[j]@) is Some,
                core.strategy == strategy,
            decreases n - i,
        {
            let server = match Server::new(addresses[i].as_str()) {
                Ok(server) => server,
                Err(_) => {
                    return Err(LoadBalancerError::InvalidAddress);
                },
            };
            let added = core.registry.add(server);
            proof {
                assert(added is Ok);
            }
            match added {
                Ok(_) => (),
                Err(_) => {
                    return Err(LoadBalancerError::InvalidAddress);
                },
            }
            i = i + 1;
        }
        Ok(core)
    }

    /// Register one backend under a fresh key and return the key.
    pub fn add_server(&mut self, server: Server) -> (r: Result<u64, LoadBalancerError>)
        requires
            old(self).wf(),
        ensures
            final(self).wf(),
            final(self).strategy == old(self).strategy,
            r is Ok <==> old(self).registry.next_key() < u64::MAX,
            r matches Ok(k) ==> {
                &&& k == old(self).registry.next_key()
                &&& final(self).registry@ == old(self).registry@.push((k, server@))
                &&& final(self).registry.next_key() == old(self).registry.next_key() + 1
            },
            r matches Err(e) ==> {
                &&& e == LoadBalancerError::AlreadyExists
                &&& final(self).registry@ == old(self).registry@
                &&& final(self).registry.next_key() == old(self).registry.next_key()
            },
    {
        self.registry.add(server)
    }

    /// Drop the backend registered under `key`; the strategy then
    /// re-validates its cursor against the shrunken registry, so it is never
    /// left out of range.
    pub fn remove_server(&mut self, key: u64) -> (r: Result<(), LoadBalancerError>)
        requires
            old(self).wf(),
        ensures
            final(self).wf(),
            final(self).registry.next_key() == old(self).registry.next_key(),
            r is Ok <==> has_key(old(self).registry@, key),
            r is Ok ==> {
                &&& final(self).registry@ == old(self).registry@.remove(
                    key_index(old(self).registry@, key),
                )
                &&& final(self).strategy == old(self).strategy.spec_revalidate(
                    final(self).registry@.len(),
                )
            },
            r matches Err(e) ==> {
                &&& e == LoadBalancerError::NotFound
                &&& final(self).registry@ == old(self).registry@
                &&& final(self).strategy == old(self).strategy
            },
    {
        match self.registry.remove(key) {
            Ok(()) => {
                let n = self.registry.count();
                self.strategy.revalidate(n);
                Ok(())
            },
            Err(e) => Err(e),
        }
    }

    /// Select the backend the next request goes to. This is the single
    /// serialization point: it reads a consistent snapshot and advances the
    /// strategy state, and nothing else. Fails with `Empty`, without
    /// blocking, exactly when no backend is live.
    pub fn next_server(&mut self) -> (r: Result<Server, LoadBalancerError>)
        ensures
            final(self).registry == old(self).registry,
            final(self).strategy == old(self).strategy.spec_advance(old(self).registry@),
            r is Ok <==> old(self).registry@.len() > 0,
            r matches Ok(s) ==> (old(self).strategy.spec_selection(old(self).registry@) matches Some(
                i,
            ) && 0 <= i < old(self).registry@.len() && s@ == old(self).registry@[i].1),
            r matches Err(e) ==> e == LoadBalancerError::Empty,
    {
        let strat = &mut self.strategy;
        let snapshot = self.registry.live_entries();
        strat.next(snapshot)
    }

    /// The number of live backends.
    pub fn server_count(&self) -> (n: usize)
        ensures
            n == self.registry@.len(),
    {
        self.registry.count()
    }

    /// Post-forward feedback for load-aware strategies; touches nothing but
    /// the strategy's own state and never fails.
    pub fn report_outcome(&mut self, server: &Server, delta: i64)
        ensures
            final(self).registry == old(self).registry,
            final(self).strategy == old(self).strategy.spec_report(server@, delta as int),
    {
        self.strategy.report_outcome(server, delta);
    }
}

} // verus!

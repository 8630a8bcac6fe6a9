use adaptive_load_balancer::balancer::LoadBalancerCore;
use adaptive_load_balancer::errors::LoadBalancerError;
use adaptive_load_balancer::round_robin::RoundRobin;
use adaptive_load_balancer::server::Server;

fn three_server_core() -> (LoadBalancerCore<RoundRobin>, Vec<u64>, Vec<Server>) {
    let servers = vec![
        Server::new("http://10.0.0.1:8001").unwrap(),
        Server::new("http://10.0.0.2:8002").unwrap(),
        Server::new("http://10.0.0.3:8003").unwrap(),
    ];
    let mut core = LoadBalancerCore::new(RoundRobin::new());
    let mut keys = Vec::new();
    for server in &servers {
        keys.push(core.add_server(server.clone()).unwrap());
    }
    (core, keys, servers)
}

#[test]
fn cyclic_order_over_three_servers() {
    let (mut core, _, servers) = three_server_core();
    let expected = [0usize, 1, 2, 0, 1];
    for position in expected {
        let next = core.next_server().unwrap();
        assert_eq!(next, servers[position]);
    }
}

#[test]
fn empty_registry_yields_empty_error() {
    let mut core = LoadBalancerCore::new(RoundRobin::new());
    assert_eq!(core.server_count(), 0);
    assert_eq!(core.next_server().unwrap_err(), LoadBalancerError::Empty);
    // Selection failed without blocking and without state damage: a backend
    // added afterwards is served normally.
    let server = Server::new("http://10.0.0.1:8001").unwrap();
    core.add_server(server.clone()).unwrap();
    assert_eq!(core.next_server().unwrap(), server);
}

#[test]
fn removal_mid_cycle_keeps_selection_inside_the_registry() {
    let (mut core, keys, servers) = three_server_core();
    // One selection consumed: the cursor now stands at the second entry.
    assert_eq!(core.next_server().unwrap(), servers[0]);
    // Remove that second entry.
    core.remove_server(keys[1]).unwrap();
    assert_eq!(core.server_count(), 2);
    // Every further selection returns only servers still present, and the
    // cursor keeps cycling inside the shrunken registry: the cursor stood at
    // position one, so the cycle continues with the entry now there.
    let expected = [2usize, 0, 2, 0, 2, 0];
    for position in expected {
        let next = core.next_server().unwrap();
        assert_eq!(next, servers[position]);
        assert_ne!(next, servers[1]);
    }
}

#[test]
fn removal_past_the_cursor_resets_it() {
    let (mut core, keys, servers) = three_server_core();
    // Consume two selections: cursor at the third position.
    core.next_server().unwrap();
    core.next_server().unwrap();
    // Shrink the registry to two entries twice over; the cursor would be out
    // of range and is clamped to the first position.
    core.remove_server(keys[1]).unwrap();
    core.remove_server(keys[2]).unwrap();
    assert_eq!(core.server_count(), 1);
    assert_eq!(core.next_server().unwrap(), servers[0]);
}

#[test]
fn keys_stay_distinct_under_churn() {
    let mut core = LoadBalancerCore::new(RoundRobin::new());
    let mut live_keys: Vec<u64> = Vec::new();
    let mut all_keys: Vec<u64> = Vec::new();
    let address = "http://10.1.0.1:9000";
    // Interleave adds and removals, including non-trailing removals, the
    // pattern count-based key assignment breaks under.
    for round in 0..6 {
        let key = core
            .add_server(Server::new(address).unwrap())
            .unwrap();
        // A key is fresh not only among live keys but among all keys ever
        // handed out.
        assert!(!all_keys.contains(&key));
        all_keys.push(key);
        live_keys.push(key);
        if round % 2 == 1 {
            // Remove the oldest live entry, not the newest.
            let victim = live_keys.remove(0);
            core.remove_server(victim).unwrap();
        }
    }
    // The live entries carry pairwise distinct keys.
    let snapshot = core.registry.snapshot();
    assert_eq!(snapshot.len(), core.server_count());
    for a in 0..snapshot.len() {
        for b in (a + 1)..snapshot.len() {
            assert_ne!(snapshot[a].0, snapshot[b].0);
        }
    }
}

#[test]
fn removing_an_unknown_key_fails() {
    let (mut core, keys, _) = three_server_core();
    assert_eq!(
        core.remove_server(999).unwrap_err(),
        LoadBalancerError::NotFound
    );
    core.remove_server(keys[0]).unwrap();
    // The same key a second time: the entry is gone.
    assert_eq!(
        core.remove_server(keys[0]).unwrap_err(),
        LoadBalancerError::NotFound
    );
    assert_eq!(core.server_count(), 2);
}

#[test]
fn with_backends_populates_in_order() {
    let addresses = vec![
        "http://10.0.0.1:8001".to_string(),
        "http://10.0.0.2:8002".to_string(),
    ];
    let mut core = LoadBalancerCore::with_backends(RoundRobin::new(), &addresses).unwrap();
    assert_eq!(core.server_count(), 2);
    assert_eq!(
        core.next_server().unwrap(),
        Server::new("http://10.0.0.1:8001").unwrap()
    );
    assert_eq!(
        core.next_server().unwrap(),
        Server::new("http://10.0.0.2:8002").unwrap()
    );
}

#[test]
fn with_backends_fails_fast_on_an_invalid_address() {
    let addresses = vec!["http://10.0.0.1:8001".to_string(), "".to_string()];
    assert_eq!(
        LoadBalancerCore::with_backends(RoundRobin::new(), &addresses).unwrap_err(),
        LoadBalancerError::InvalidAddress
    );
}

#[test]
fn serialized_selections_share_the_load_evenly() {
    // Seven serialized selections over a stable three-server registry pick
    // each server its share of the deterministic cycle: 7/3 rounded up or
    // down, here 3, 2 and 2 times.
    let (mut core, _, servers) = three_server_core();
    let mut counts = [0usize; 3];
    for _ in 0..7 {
        let next = core.next_server().unwrap();
        let position = servers.iter().position(|s| *s == next).unwrap();
        counts[position] += 1;
    }
    assert_eq!(counts, [3, 2, 2]);
}

#[test]
fn report_outcome_never_disturbs_selection() {
    let (mut core, _, servers) = three_server_core();
    let first = core.next_server().unwrap();
    assert_eq!(first, servers[0]);
    core.report_outcome(&first, 1);
    core.report_outcome(&first, -1);
    // Round robin tracks no load: the cycle is exactly where it was.
    assert_eq!(core.next_server().unwrap(), servers[1]);
}

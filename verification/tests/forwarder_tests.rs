use adaptive_load_balancer::balancer::LoadBalancerCore;
use adaptive_load_balancer::errors::LoadBalancerError;
use adaptive_load_balancer::forwarder::io_failure_error;
use adaptive_load_balancer::forwarder::is_host_header;
use adaptive_load_balancer::forwarder::plan_forward;
use adaptive_load_balancer::forwarder::rewrite_headers;
use adaptive_load_balancer::forwarder::ForwardIoStage;
use adaptive_load_balancer::round_robin::RoundRobin;
use adaptive_load_balancer::server::Server;

fn pairs(raw: &[(&str, &str)]) -> Vec<(String, String)> {
    raw.iter()
        .map(|(name, value)| (name.to_string(), value.to_string()))
        .collect()
}

#[test]
fn header_fidelity() {
    let mut core = LoadBalancerCore::new(RoundRobin::new());
    core.add_server(Server::new("http://10.0.0.1:8001").unwrap())
        .unwrap();
    let method = "GET".to_string();
    let target = "/hello/world?q=1".to_string();
    let headers = pairs(&[("X-Test", "1"), ("Accept", "*/*"), ("Host", "client.example")]);
    let plan = plan_forward(&mut core, &method, &target, &headers).unwrap();
    // Method and path-and-query go out unchanged.
    assert_eq!(plan.method, "GET");
    assert_eq!(plan.target, "/hello/world?q=1");
    // The connect target and authority come from the selected server.
    assert_eq!(plan.host, "10.0.0.1");
    assert_eq!(plan.port, 8001);
    assert_eq!(plan.authority, "10.0.0.1:8001");
    // Every inbound header arrives verbatim except the authority, which is
    // recomputed for the new destination.
    assert_eq!(
        plan.headers,
        pairs(&[("X-Test", "1"), ("Accept", "*/*"), ("host", "10.0.0.1:8001")])
    );
}

#[test]
fn rewrite_drops_every_spelling_of_host() {
    let headers = pairs(&[("HOST", "a"), ("host", "b"), ("hOsT", "c"), ("hosts", "keep")]);
    let authority = "10.0.0.9:80".to_string();
    let rewritten = rewrite_headers(&headers, &authority);
    assert_eq!(
        rewritten,
        pairs(&[("hosts", "keep"), ("host", "10.0.0.9:80")])
    );
}

#[test]
fn host_header_test_is_case_insensitive() {
    assert!(is_host_header("host"));
    assert!(is_host_header("Host"));
    assert!(is_host_header("HOST"));
    assert!(!is_host_header("hosts"));
    assert!(!is_host_header("hos"));
    assert!(!is_host_header("x-host"));
}

#[test]
fn no_backend_available_when_registry_is_empty() {
    let mut core = LoadBalancerCore::new(RoundRobin::new());
    let headers = pairs(&[]);
    let err = plan_forward(&mut core, &"GET".to_string(), &"/".to_string(), &headers)
        .unwrap_err();
    assert_eq!(err, LoadBalancerError::NoBackendAvailable);
}

#[test]
fn io_failures_map_to_typed_errors() {
    assert_eq!(
        io_failure_error(ForwardIoStage::Connect),
        LoadBalancerError::BackendUnreachable
    );
    assert_eq!(
        io_failure_error(ForwardIoStage::Exchange),
        LoadBalancerError::BackendCommunicationError
    );
}

#[test]
fn one_failed_forward_does_not_corrupt_the_core() {
    // One backend that a real exchange could not reach.
    let unreachable = Server::new("http://10.255.255.1:81").unwrap();
    let mut core = LoadBalancerCore::new(RoundRobin::new());
    let bad_key = core.add_server(unreachable.clone()).unwrap();
    let headers = pairs(&[("X-Test", "1")]);
    let plan = plan_forward(&mut core, &"GET".to_string(), &"/".to_string(), &headers).unwrap();
    assert_eq!(plan.server, unreachable);
    // The connect fails; the failure maps to its typed error and is
    // reported, and nothing of the core is damaged.
    let err = io_failure_error(ForwardIoStage::Connect);
    assert_eq!(err, LoadBalancerError::BackendUnreachable);
    core.report_outcome(&plan.server, -1);
    assert_eq!(core.server_count(), 1);
    // A later request against a healthy registry succeeds.
    let healthy = Server::new("http://10.0.0.7:8007").unwrap();
    core.add_server(healthy.clone()).unwrap();
    core.remove_server(bad_key).unwrap();
    let plan = plan_forward(&mut core, &"GET".to_string(), &"/".to_string(), &headers).unwrap();
    assert_eq!(plan.server, healthy);
    assert_eq!(plan.authority, "10.0.0.7:8007");
}

use vstd::prelude::*;

use vstd::string::StrSliceExecFns;

use crate::balancer::LoadBalancerCore;
use crate::errors::LoadBalancerError;
use crate::server::authority_of;
use crate::server::Server;
use crate::strategy::SelectionStrategy;

verus! {

/// The value a header list stands for: field names and values, in order.
/// Duplicate names are preserved; the order is that of the inbound request.
pub open spec fn headers_view(h: Seq<(String, String)>) -> Seq<(Seq<char>, Seq<char>)> {
    h.map(|i: int, p: (String, String)| (p.0@, p.1@))
}

/// Case-insensitive test for the one field name that must be recomputed for
/// the new destination: `host` (HTTP field names are ASCII).
pub open spec fn is_host_name(s: Seq<char>) -> bool {
    &&& s.len() == 4
    &&& (s[0] == 'h' || s[0] == 'H')
    &&& (s[1] == 'o' || s[1] == 'O')
    &&& (s[2] == 's' || s[2] == 'S')
    &&& (s[3] == 't' || s[3] == 'T')
}

/// The canonical spelling of the rewritten authority field name.
pub open spec fn host_header_name() -> Seq<char> {
    seq!['h', 'o', 's', 't']
}

/// The inbound headers that go out verbatim: all but the authority.
pub open spec fn spec_keep_headers(h: Seq<(Seq<char>, Seq<char>)>) -> Seq<
    (Seq<char>, Seq<char>),
> {
    h.filter(|p: (Seq<char>, Seq<char>)| !is_host_name(p.0))
}

/// The outbound header list: every inbound header copied verbatim except
/// the authority, which is recomputed for the new destination.
pub open spec fn spec_rewrite_headers(
    h: Seq<(Seq<char>, Seq<char>)>,
    authority: Seq<char>,
) -> Seq<(Seq<char>, Seq<char>)> {
    spec_keep_headers(h).push((host_header_name(), authority))
}

proof fn lemma_keep_headers_step(h: Seq<(Seq<char>, Seq<char>)>, i: int)
    requires
        0 <= i < h.len(),
    ensures
        !is_host_name(h[i].0) ==> spec_keep_headers(h.take(i + 1)) == spec_keep_headers(
            h.take(i),
        ).push(h[i]),
        is_host_name(h[i].0) ==> spec_keep_headers(h.take(i + 1)) == spec_keep_headers(h.take(i)),
{
    reveal_with_fuel(Seq::filter, 2);
    assert(h.take(i + 1).drop_last() =~= h.take(i));
    assert(h.take(i + 1).last() == h[i]);
}

/// Whether a header field name is the authority name, however it is cased.
pub fn is_host_header(name: &str) -> (r: bool)
    ensures
        r == is_host_name(name@),
{
    let n = name.unicode_len();
    if n != 4 {
        return false;
    }
    let c0 = name.get_char(0);
    let c1 = name.get_char(1);
    let c2 = name.get_char(2);
    let c3 = name.get_char(3);
    (c0 == 'h' || c0 == 'H') && (c1 == 'o' || c1 == 'O') && (c2 == 's' || c2 == 'S') && (c3 == 't'
        || c3 == 'T')
}

/// Copy the inbound headers verbatim, dropping every spelling of the
/// authority field and appending one rewritten for the new destination.
pub fn rewrite_headers(headers: &Vec<(String, String)>, authority: &String) -> (r: Vec<
    (String, String),
>)
    ensures
        headers_view(r@) == spec_rewrite_headers(headers_view(headers@), authority@),
{
    let ghost hv = headers_view(headers@);
    let n = headers.len();
    let mut out: Vec<(String, String)> = Vec::new();
    let mut i: usize = 0;
    while i < n
        invariant
            n == headers@.len(),
            i <= n,
            hv == headers_view(headers@),
            headers_view(out@) =~= spec_keep_headers(hv.take(i as int)),
        decreases n - i,
    {
        let p = &headers[i];
        proof {
            assert(hv[i as int] == (headers@[i as int].0@, headers@[i as int].1@));
            lemma_keep_headers_step(hv, i as int);
            assert(hv.take(i as int + 1).drop_last() =~= hv.take(i as int));
        }
        if !is_host_header(p.0.as_str()) {
            out.push((p.0.clone(), p.1.clone()));
            proof {
                assert(headers_view(out@) =~= spec_keep_headers(hv.take(i as int + 1)));
            }
        } else {
            proof {
                assert(headers_view(out@) =~= spec_keep_headers(hv.take(i as int + 1)));
            }
        }
        i = i + 1;
    }
    proof {
        assert(hv.take(n as int) =~= hv);
    }
    let host_name: &str = "host";
    proof {
        reveal_strlit("host");
        assert(host_name@ =~= host_header_name());
    }
    out.push((host_name.to_owned(), authority.clone()));
    proof {
        assert(headers_view(out@) =~= spec_rewrite_headers(hv, authority@));
    }
    out
}

/// Which step of the outbound exchange failed: opening the connection, or
/// sending the request and receiving the response once connected.
#[derive(Clone, Copy, Debug, PartialEq, Eq, Structural)]
pub enum ForwardIoStage {
    Connect,
    Exchange,
}

/// The typed error each I/O failure of the outbound exchange maps to: a
/// failed connect is `BackendUnreachable`, a failure mid-flight is
/// `BackendCommunicationError`. Both are surfaced to the inbound caller,
/// never allowed to end the listener or another in-flight request.
pub fn io_failure_error(stage: ForwardIoStage) -> (e: LoadBalancerError)
    ensures
        stage == ForwardIoStage::Connect ==> e == LoadBalancerError::BackendUnreachable,
        stage == ForwardIoStage::Exchange ==> e == LoadBalancerError::BackendCommunicationError,
{
    match stage {
        ForwardIoStage::Connect => LoadBalancerError::BackendUnreachable,
        ForwardIoStage::Exchange => LoadBalancerError::BackendCommunicationError,
    }
}

/// Everything the outbound round trip needs, computed before any I/O: the
/// selected server, its connect target and rewritten authority, and the
/// outbound request envelope (same method, original path and query, inbound
/// headers verbatim with the authority recomputed). The body goes out
/// unchanged beside this plan.
#[derive(Debug)]
pub struct ForwardPlan {
    /// The server selected for this request, for the outcome report.
    pub server: Server,
    /// The host the outbound connection goes to.
    pub host: String,
    /// The port the outbound connection goes to.
    pub port: u16,
    /// The rewritten `host:port` authority.
    pub authority: String,
    /// The inbound method, unchanged.
    pub method: String,
    /// The inbound path and query, unchanged.
    pub target: String,
    /// The outbound header list.
    pub headers: Vec<(String, String)>,
}

/// Turn one inbound request into the plan for one outbound round trip.
///
/// Selects a backend — the one serialization point, consuming exactly one
/// selection — and derives the connect target and the outbound envelope.
/// Fails with `NoBackendAvailable`, never blocking, when no backend is
/// live, and with `InvalidBackendAddress` when the selected server's
/// address has no usable host; either way the registry is untouched, so one
/// request's failure cannot corrupt later selections.
pub fn plan_forward<S: SelectionStrategy>(
    core: &mut LoadBalancerCore<S>,
    method: &String,
    target: &String,
    headers: &Vec<(String, String)>,
) -> (r: Result<ForwardPlan, LoadBalancerError>)
    ensures
        final(core).registry == old(core).registry,
        final(core).strategy == old(core).strategy.spec_advance(old(core).registry@),
        r is Ok <==> (old(core).registry@.len() > 0 && (old(core).strategy.spec_selection(
            old(core).registry@,
        ) matches Some(i) && 0 <= i < old(core).registry@.len() && old(
            core,
        ).registry@[i].1.host.len() > 0)),
        r matches Ok(p) ==> (old(core).strategy.spec_selection(old(core).registry@) matches Some(i)
            && {
            let sel = old(core).registry@[i].1;
            &&& 0 <= i < old(core).registry@.len()
            &&& p.server@ == sel
            &&& p.host@ == sel.host
            &&& p.port == sel.port
            &&& p.authority@ == authority_of(sel)
            &&& p.method@ == method@
            &&& p.target@ == target@
            &&& headers_view(p.headers@) == spec_rewrite_headers(
                headers_view(headers@),
                authority_of(sel),
            )
        }),
        r matches Err(e) ==> {
            ||| (e == LoadBalancerError::NoBackendAvailable && old(core).registry@.len() == 0)
            ||| (e == LoadBalancerError::InvalidBackendAddress && (old(
                core,
            ).strategy.spec_selection(old(core).registry@) matches Some(i) && 0 <= i < old(
                core,
            ).registry@.len() && old(core).registry@[i].1.host.len() == 0))
        },
{
    let server = match core.next_server() {
        Ok(server) => server,
        Err(_) => {
            return Err(LoadBalancerError::NoBackendAvailable);
        },
    };
    if server.host().as_str().is_empty() {
        return Err(LoadBalancerError::InvalidBackendAddress);
    }
    let host = server.host().clone();
    let port = server.port();
    let authority = server.authority();
    let out_headers = rewrite_headers(headers, &authority);
    Ok(
        ForwardPlan {
            server,
            host,
            port,
            authority,
            method: method.clone(),
            target: target.clone(),
            headers: out_headers,
        },
    )
}

} // verus!

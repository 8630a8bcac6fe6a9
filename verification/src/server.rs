use vstd::prelude::*;
use vstd::string::StrSliceExecFns;
use vstd::string::StringExecFns;

use crate::errors::LoadBalancerError;

verus! {

/// What parsing a backend address yields: the host text and the explicit
/// port, if the text is a well-formed URI or `host[:port]` authority that
/// carries a host at all. The outcome depends on the address text alone.
pub uninterp spec fn host_port_of(s: Seq<char>) -> Option<(Seq<char>, Option<u16>)>;

/// Relies on `hyper::Uri` (`<Uri as FromStr>::from_str`, `Uri::host` and
/// `Uri::port_u16`): whether an address parses, and which host text and
/// explicit port it carries, are functions of the address text alone.
#[verifier::external_body]
fn parse_host_port(address: &str) -> (r: Option<(String, Option<u16>)>)
    ensures
        r is Some <==> host_port_of(address@) is Some,
        r matches Some(p) ==> (host_port_of(address@) matches Some(q) && p.0@ == q.0 && p.1
            == q.1),
{
    match address.parse::<hyper::Uri>() {
        Ok(uri) => match uri.host() {
            Some(host) => Some((host.to_owned(), uri.port_u16())),
            None => None,
        },
        Err(_) => None,
    }
}

/// The port an address without an explicit port is normalized to.
pub const DEFAULT_PORT: u16 = 80;

/// The mathematical value of a `Server`: its normalized host text and port.
pub struct ServerView {
    pub host: Seq<char>,
    pub port: u16,
}

pub open spec fn port_or_default(p: Option<u16>) -> u16 {
    match p {
        Some(x) => x,
        None => DEFAULT_PORT,
    }
}

/// The server, if any, that validating and normalizing an address yields.
pub open spec fn parsed_server(address: Seq<char>) -> Option<ServerView> {
    match host_port_of(address) {
        None => None,
        Some((h, p)) => Some(ServerView { host: h, port: port_or_default(p) }),
    }
}

/// A validated backend address: a host and a port, normalized at
/// construction time. Immutable thereafter; equality is by the normalized
/// address, so two textually different but semantically identical addresses
/// compare equal.
#[derive(Debug)]
pub struct Server {
    host: String,
    port: u16,
}

impl View for Server {
    type V = ServerView;

    closed spec fn view(&self) -> ServerView {
        ServerView { host: self.host@, port: self.port }
    }
}

impl Server {
    /// Validate a raw backend address and normalize it (default port applied
    /// when none is given). Fails with `InvalidAddress` exactly when the text
    /// does not parse to something with a host.
    pub fn new(address: &str) -> (r: Result<Server, LoadBalancerError>)
        ensures
            r is Ok <==> parsed_server(address@) is Some,
            r matches Ok(s) ==> parsed_server(address@) == Some(s@),
            r matches Err(e) ==> e == LoadBalancerError::InvalidAddress,
    {
        match parse_host_port(address) {
            None => Err(LoadBalancerError::InvalidAddress),
            Some((host, port)) => {
                let port = match port {
                    Some(x) => x,
                    None => DEFAULT_PORT,
                };
                Ok(Server { host, port })
            },
        }
    }

    /// The normalized host text.
    pub fn host(&self) -> (r: &String)
        ensures
            r@ == self@.host,
    {
        &self.host
    }

    /// The normalized port.
    pub fn port(&self) -> (r: u16)
        ensures
            r == self@.port,
    {
        self.port
    }

    /// The `host:port` authority text of this server, as an outbound
    /// connection and a rewritten Host header use it.
    pub fn authority(&self) -> (r: String)
        ensures
            r@ == authority_of(self@),
    {
        let mut s = self.host.clone();
        s.append(":");
        let digits = fmt_u16(self.port);
        s.append(digits.as_str());
        proof {
            reveal_strlit(":");
            assert(":"@ =~= seq![':']);
        }
        s
    }
}

impl Clone for Server {
    fn clone(&self) -> (r: Self)
        ensures
            r == *self,
    {
        Server { host: self.host.clone(), port: self.port }
    }
}

impl PartialEq for Server {
    fn eq(&self, other: &Server) -> (r: bool) {
        self.host == other.host && self.port == other.port
    }
}

impl vstd::std_specs::cmp::PartialEqSpecImpl for Server {
    open spec fn obeys_eq_spec() -> bool {
        true
    }

    open spec fn eq_spec(&self, other: &Server) -> bool {
        self@ == other@
    }
}

/// The `host:port` authority text of a server value.
pub open spec fn authority_of(s: ServerView) -> Seq<char> {
    s.host + seq![':'] + spec_digits(s.port as int)
}

/// The character of a single decimal digit.
pub open spec fn digit_char(d: int) -> char {
    if d == 0 {
        '0'
    } else if d == 1 {
        '1'
    } else if d == 2 {
        '2'
    } else if d == 3 {
        '3'
    } else if d == 4 {
        '4'
    } else if d == 5 {
        '5'
    } else if d == 6 {
        '6'
    } else if d == 7 {
        '7'
    } else if d == 8 {
        '8'
    } else {
        '9'
    }
}

/// The decimal digit text of a non-negative number, most significant first.
pub open spec fn spec_digits(n: int) -> Seq<char>
    decreases n,
{
    if n < 10 {
        seq![digit_char(n)]
    } else {
        spec_digits(n / 10) + seq![digit_char(n % 10)]
    }
}

fn digit_str(d: u16) -> (r: &'static str)
    requires
        d < 10,
    ensures
        r@ == seq![digit_char(d as int)],
{
    let s: &'static str = if d == 0 {
        "0"
    } else if d == 1 {
        "1"
    } else if d == 2 {
        "2"
    } else if d == 3 {
        "3"
    } else if d == 4 {
        "4"
    } else if d == 5 {
        "5"
    } else if d == 6 {
        "6"
    } else if d == 7 {
        "7"
    } else if d == 8 {
        "8"
    } else {
        "9"
    };
    proof {
        reveal_strlit("0");
        reveal_strlit("1");
        reveal_strlit("2");
        reveal_strlit("3");
        reveal_strlit("4");
        reveal_strlit("5");
        reveal_strlit("6");
        reveal_strlit("7");
        reveal_strlit("8");
        reveal_strlit("9");
        assert(s@ =~= seq![digit_char(d as int)]);
    }
    s
}

/// The decimal text of a number, with no sign and no leading zero.
pub fn fmt_u16(n: u16) -> (r: String)
    ensures
        r@ == spec_digits(n as int),
    decreases n,
{
    if n < 10 {
        digit_str(n).to_owned()
    } else {
        let mut s = fmt_u16(n / 10);
        s.append(digit_str(n % 10));
        s
    }
}

} // verus!

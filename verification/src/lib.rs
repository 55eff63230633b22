use vstd::prelude::*;

pub mod data;
pub mod geoip;
pub mod packet;
pub mod stats;
pub mod tasks;
pub mod traceroute;

verus! {

/// An IPv4 address held as its four octets, most significant first.
#[derive(Clone, Copy, Debug, PartialEq, Eq, Structural)]
pub struct Ip4 {
    pub a: u8,
    pub b: u8,
    pub c: u8,
    pub d: u8,
}

impl Ip4 {
    pub fn new(a: u8, b: u8, c: u8, d: u8) -> (r: Ip4)
        ensures
            r == (Ip4 { a, b, c, d }),
    {
        Ip4 { a, b, c, d }
    }

    /// Whether the address lies in one of the private ranges
    /// 10.0.0.0/8, 172.16.0.0/12 or 192.168.0.0/16.
    pub open spec fn is_private_spec(self) -> bool {
        self.a == 10
            || (self.a == 172 && 16 <= self.b && self.b <= 31)
            || (self.a == 192 && self.b == 168)
    }

    pub fn is_private(&self) -> (r: bool)
        ensures
            r == self.is_private_spec(),
    {
        self.a == 10
            || (self.a == 172 && 16 <= self.b && self.b <= 31)
            || (self.a == 192 && self.b == 168)
    }
}

/// Result of a single query execution. A query can either succeed and return
/// the round-trip time and address of a hop, or yield a timeout or fail.
/// Round-trip times are carried in whole milliseconds.
#[derive(Debug, Clone)]
pub enum TraceQuery {
    Success { rtt: u64, addr: Ip4 },
    Timeout,
    Failure(String),
}

/// Single traceroute hop containing TTL, the source and destination IP of a
/// trace, and a vector of traceroute query results.
#[derive(Debug, Clone)]
pub struct Hop {
    /// The unique trace id that this hop was part of.
    pub trace: u128,
    /// Current Time-To-Live.
    pub ttl: u8,
    /// The source of the trace.
    pub source: Ip4,
    /// The destination of the trace.
    pub destination: Ip4,
    /// Traceroute query results.
    pub queries: Vec<TraceQuery>,
}

/// Whether some query in the sequence succeeded with the given responder.
pub open spec fn queries_reach(queries: Seq<TraceQuery>, ip: Ip4) -> bool {
    exists|i: int|
        0 <= i < queries.len() && (#[trigger] queries[i] matches TraceQuery::Success { addr, .. }
            && addr == ip)
}

impl Hop {
    /// Whether one of this hop's queries succeeded with responder `ip`.
    pub fn is_ip(&self, ip: Ip4) -> (r: bool)
        ensures
            r == queries_reach(self.queries@, ip),
    {
        let n = self.queries.len();
        let mut k: usize = 0;
        while k < n
            invariant
                0 <= k <= n,
                n == self.queries.len(),
                !queries_reach(self.queries@.take(k as int), ip),
            decreases n - k,
        {
            match &self.queries[k] {
                TraceQuery::Success { addr, .. } => {
                    if *addr == ip {
                        assert(self.queries@[k as int] matches TraceQuery::Success { addr, .. }
                            && addr == ip);
                        return true;
                    }
                },
                _ => {},
            }
            assert(self.queries@.take(k + 1 as int) =~= self.queries@.take(k as int).push(
                self.queries@[k as int],
            ));
            k = k + 1;
        }
        assert(self.queries@.take(n as int) =~= self.queries@);
        false
    }
}

/// Two query results carrying the same outcome: equal successes, equal
/// timeouts, or failures with the same text.
pub open spec fn query_eq(a: TraceQuery, b: TraceQuery) -> bool {
    match (a, b) {
        (
            TraceQuery::Success { rtt: r1, addr: a1 },
            TraceQuery::Success { rtt: r2, addr: a2 },
        ) => r1 == r2 && a1 == a2,
        (TraceQuery::Timeout, TraceQuery::Timeout) => true,
        (TraceQuery::Failure(m1), TraceQuery::Failure(m2)) => m1@ == m2@,
        _ => false,
    }
}

/// Two hops carrying the same data, their query results compared by outcome.
pub open spec fn hop_eq(a: Hop, b: Hop) -> bool {
    &&& a.trace == b.trace
    &&& a.ttl == b.ttl
    &&& a.source == b.source
    &&& a.destination == b.destination
    &&& a.queries@.len() == b.queries@.len()
    &&& forall|i: int|
        0 <= i < a.queries@.len() ==> #[trigger] query_eq(a.queries@[i], b.queries@[i])
}

/// Copy one query result, keeping its outcome.
pub fn clone_query(q: &TraceQuery) -> (r: TraceQuery)
    ensures
        query_eq(r, *q),
{
    match q {
        TraceQuery::Success { rtt, addr } => TraceQuery::Success { rtt: *rtt, addr: *addr },
        TraceQuery::Timeout => TraceQuery::Timeout,
        TraceQuery::Failure(m) => TraceQuery::Failure(m.clone()),
    }
}

impl Hop {
    /// Copy the hop, keeping every field and every query outcome. Each task
    /// descriptor of the fan-out carries such a copy.
    pub fn duplicate(&self) -> (h: Hop)
        ensures
            hop_eq(h, *self),
    {
        let n = self.queries.len();
        let mut queries: Vec<TraceQuery> = Vec::new();
        let mut i: usize = 0;
        while i < n
            invariant
                i <= n,
                n == self.queries@.len(),
                queries@.len() == i,
                forall|j: int|
                    0 <= j < i ==> #[trigger] query_eq(queries@[j], self.queries@[j]),
            decreases n - i,
        {
            let q = clone_query(&self.queries[i]);
            queries.push(q);
            i = i + 1;
        }
        Hop {
            trace: self.trace,
            ttl: self.ttl,
            source: self.source,
            destination: self.destination,
            queries,
        }
    }
}

#[derive(Debug, Clone)]
pub struct Route {
    pub source: Ip4,
    pub destination: Ip4,
}

#[derive(Debug, Clone)]
pub struct Trace {
    pub id: u128,
    pub route: Route,
}

/// A flattened join of route, trace, hop, statistics and geolocation data
/// for one (hop, try) pair, produced only for export. Times are in whole
/// milliseconds; geolocation fields are the persisted texts.
#[derive(Debug)]
pub struct ExportHop {
    pub source: Ip4,
    pub destination: Ip4,
    pub trace: u128,
    pub ttl: u8,
    pub query: u8,
    pub query_result: String,
    pub addr: Option<Ip4>,
    pub rtt: Option<u64>,
    pub hop_mean_ms: Option<u64>,
    pub hop_median_ms: Option<u64>,
    pub city: Option<String>,
    pub country: Option<String>,
    pub country_code: Option<String>,
    pub country_code_iso3: Option<String>,
    pub country_capital: Option<String>,
    pub region: Option<String>,
    pub region_code: Option<String>,
    pub latitude: Option<String>,
    pub longitude: Option<String>,
    pub timezone: Option<String>,
    pub utc_offset: Option<String>,
    pub asn: Option<String>,
    pub org: Option<String>,
}

/// Relies on uuid::Uuid::new_v4 and Uuid::as_u128: a freshly generated
/// version-4 identifier returned as its 128-bit value. The value is random,
/// so nothing is promised of it.
#[verifier::external_body]
fn fresh_trace_id() -> u128 {
    uuid::Uuid::new_v4().as_u128()
}

impl Trace {
    /// Creates new instance of a trace with a freshly generated identifier.
    pub fn new(source: Ip4, destination: Ip4) -> (t: Trace)
        ensures
            t.route.source == source,
            t.route.destination == destination,
    {
        let id = fresh_trace_id();
        let route = Route { source, destination };
        Trace { id, route }
    }
}

} // verus!

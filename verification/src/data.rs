use vstd::prelude::*;

use crate::geoip::{clone_opt_text, GeoFields, IpApiResp};
use crate::stats::HopStats;
use crate::{ExportHop, Hop, Ip4, Route, Trace, TraceQuery};

verus! {

/// The persisted kind of one query result.
#[derive(Debug, Clone, Copy, PartialEq, Eq, Structural)]
pub enum QueryKind {
    Success,
    Timeout,
    Fail,
}

/// The text under which each kind is persisted and exported.
pub open spec fn kind_text(k: QueryKind) -> Seq<char> {
    match k {
        QueryKind::Success => "success"@,
        QueryKind::Timeout => "timeout"@,
        QueryKind::Fail => "fail"@,
    }
}

/// One row of the route table. Routes are unique by (source, destination).
#[derive(Debug, Clone, Copy)]
pub struct RouteRow {
    pub source: Ip4,
    pub destination: Ip4,
}

/// One row of the trace table; `route_id` is the index of its route.
#[derive(Debug, Clone, Copy)]
pub struct TraceRow {
    pub uuid: u128,
    pub route_id: usize,
}

/// One row of the hop table: one try of one hop; `trace_id` is the index of
/// its trace and `query` the 1-based try index.
#[derive(Debug, Clone, Copy)]
pub struct HopRow {
    pub trace_id: usize,
    pub ttl: u8,
    pub query: u8,
    pub kind: QueryKind,
    pub addr: Option<Ip4>,
    pub rtt: Option<u64>,
}

/// One row of the statistics table; `hop_id` is the index of its hop row.
#[derive(Debug, Clone, Copy)]
pub struct StatsRow {
    pub hop_id: usize,
    pub mean: Option<u64>,
    pub median: Option<u64>,
}

/// One row of the geolocation table; `hop_id` is the index of its hop row.
#[derive(Debug)]
pub struct GeoRow {
    pub hop_id: usize,
    pub geo: IpApiResp,
}

/// The mathematical value of one geolocation row.
pub struct GeoRowV {
    pub hop_id: int,
    pub rec: GeoFields,
}

impl View for GeoRow {
    type V = GeoRowV;

    open spec fn view(&self) -> GeoRowV {
        GeoRowV { hop_id: self.hop_id as int, rec: self.geo@ }
    }
}

/// The geolocation table as mathematical values.
pub open spec fn geos_v(geos: Seq<GeoRow>) -> Seq<GeoRowV> {
    geos.map_values(|g: GeoRow| g@)
}

/// The index of the first element satisfying the predicate, if any.
pub open spec fn first_where<T>(s: Seq<T>, p: spec_fn(T) -> bool) -> Option<int>
    decreases s.len(),
{
    if s.len() == 0 {
        None
    } else if p(s[0]) {
        Some(0int)
    } else {
        match first_where(s.skip(1), p) {
            Some(i) => Some(i + 1),
            None => None,
        }
    }
}

/// What `first_where` names: a match inside the sequence, before which
/// nothing matches; and where it names nothing, nothing matches at all.
pub proof fn lemma_first_where_props<T>(s: Seq<T>, p: spec_fn(T) -> bool)
    ensures
        first_where(s, p) matches Some(k) ==> 0 <= k < s.len() && p(s[k]) && forall|j: int|
            0 <= j < k ==> !p(s[j]),
        first_where(s, p) is None ==> forall|j: int| 0 <= j < s.len() ==> !p(s[j]),
    decreases s.len(),
{
    if s.len() > 0 {
        lemma_first_where_props(s.skip(1), p);
        if !p(s[0]) {
            match first_where(s.skip(1), p) {
                Some(k1) => {
                    assert(s.skip(1)[k1] == s[k1 + 1]);
                    assert forall|j: int| 0 <= j < k1 + 1 implies !p(s[j]) by {
                        if j > 0 {
                            assert(s.skip(1)[j - 1] == s[j]);
                        }
                    }
                },
                None => {
                    assert forall|j: int| 0 <= j < s.len() implies !p(s[j]) by {
                        if j > 0 {
                            assert(s.skip(1)[j - 1] == s[j]);
                        }
                    }
                },
            }
        }
    }
}

/// Where something matches, `first_where` names a position no later.
pub proof fn lemma_first_where_exists<T>(s: Seq<T>, p: spec_fn(T) -> bool, i: int)
    requires
        0 <= i < s.len(),
        p(s[i]),
    ensures
        first_where(s, p) matches Some(k) && k <= i,
    decreases i,
{
    if !p(s[0]) {
        lemma_first_where_exists(s.skip(1), p, i - 1);
    }
}

/// The indices, in order, of all elements satisfying the predicate.
pub open spec fn indices_where<T>(s: Seq<T>, p: spec_fn(T) -> bool) -> Seq<int>
    decreases s.len(),
{
    if s.len() == 0 {
        Seq::empty()
    } else {
        let prev = indices_where(s.drop_last(), p);
        if p(s.last()) {
            prev.push(s.len() - 1)
        } else {
            prev
        }
    }
}

/// What `indices_where` holds: positions inside the sequence, each matching,
/// strictly increasing, and every matching position among them.
pub proof fn lemma_indices_where_props<T>(s: Seq<T>, p: spec_fn(T) -> bool)
    ensures
        forall|a: int|
            0 <= a < indices_where(s, p).len() ==> 0 <= #[trigger] indices_where(s, p)[a]
                < s.len() && p(s[indices_where(s, p)[a]]),
        forall|a: int, b: int|
            0 <= a < b < indices_where(s, p).len() ==> #[trigger] indices_where(s, p)[a]
                < #[trigger] indices_where(s, p)[b],
        forall|j: int| 0 <= j < s.len() && p(s[j]) ==> indices_where(s, p).contains(j),
        indices_where(s, p).len() <= s.len(),
    decreases s.len(),
{
    if s.len() > 0 {
        lemma_indices_where_props(s.drop_last(), p);
        assert forall|j: int| 0 <= j < s.len() && p(s[j]) implies indices_where(s, p).contains(
            j,
        ) by {
            if j < s.len() - 1 {
                assert(s.drop_last()[j] == s[j]);
                assert(indices_where(s.drop_last(), p).contains(j));
                let a = choose|a: int|
                    0 <= a < indices_where(s.drop_last(), p).len() && indices_where(
                        s.drop_last(),
                        p,
                    )[a] == j;
                assert(indices_where(s, p)[a] == j);
            } else {
                assert(indices_where(s, p).last() == j);
            }
        }
    }
}

/// The route row with the given endpoints.
pub open spec fn route_at(src: Ip4, dst: Ip4) -> spec_fn(RouteRow) -> bool {
    |r: RouteRow| r.source == src && r.destination == dst
}

/// The trace row with the given identifier.
pub open spec fn trace_with(uuid: u128) -> spec_fn(TraceRow) -> bool {
    |t: TraceRow| t.uuid == uuid
}

/// The hop rows of one trace at one time-to-live.
pub open spec fn hop_at(tid: int, ttl: u8) -> spec_fn(HopRow) -> bool {
    |h: HopRow| h.trace_id as int == tid && h.ttl == ttl
}

/// The hop row of one trace at one time-to-live with one try index.
pub open spec fn hop_try_at(tid: int, ttl: u8, query: u8) -> spec_fn(HopRow) -> bool {
    |h: HopRow| h.trace_id as int == tid && h.ttl == ttl && h.query == query
}

/// The statistics rows of one hop row.
pub open spec fn stats_at(hop_id: int) -> spec_fn(StatsRow) -> bool {
    |r: StatsRow| r.hop_id as int == hop_id
}

/// The geolocation rows of one hop row.
pub open spec fn geo_at(hop_id: int) -> spec_fn(GeoRowV) -> bool {
    |g: GeoRowV| g.hop_id == hop_id
}

/// The geolocation rows whose hop row carries the given responder address.
pub open spec fn geo_at_addr(hops: Seq<HopRow>, addr: Ip4) -> spec_fn(GeoRowV) -> bool {
    |g: GeoRowV| 0 <= g.hop_id < hops.len() && hops[g.hop_id].addr == Some(addr)
}

/// The hop rows of one trace whose route is the given one.
pub open spec fn route_hop(traces: Seq<TraceRow>, rid: int) -> spec_fn(HopRow) -> bool {
    |h: HopRow| 0 <= h.trace_id < traces.len() && traces[h.trace_id as int].route_id as int == rid
}

/// The hop rows written for one insert: one row per query, try indices
/// counting from 1, in query order; responder address and round-trip time are
/// kept for successful queries only.
pub open spec fn hop_row_of(tid: usize, ttl: u8, query: u8, q: TraceQuery) -> HopRow {
    match q {
        TraceQuery::Success { rtt, addr } => HopRow {
            trace_id: tid,
            ttl,
            query,
            kind: QueryKind::Success,
            addr: Some(addr),
            rtt: Some(rtt),
        },
        TraceQuery::Timeout => HopRow {
            trace_id: tid,
            ttl,
            query,
            kind: QueryKind::Timeout,
            addr: None,
            rtt: None,
        },
        TraceQuery::Failure(_) => HopRow {
            trace_id: tid,
            ttl,
            query,
            kind: QueryKind::Fail,
            addr: None,
            rtt: None,
        },
    }
}

pub open spec fn hop_rows_for(tid: usize, ttl: u8, queries: Seq<TraceQuery>) -> Seq<HopRow> {
    Seq::new(queries.len(), |i: int| hop_row_of(tid, ttl, (i + 1) as u8, queries[i]))
}

/// The statistics rows written for one insert: one per hop row of the
/// addressed (trace, time-to-live) pair, in table order.
pub open spec fn stats_rows_for(ids: Seq<int>, stats: HopStats) -> Seq<StatsRow> {
    ids.map_values(
        |i: int| StatsRow { hop_id: i as usize, mean: stats.mean, median: stats.median },
    )
}

/// The persistent store: the five row tables. Row identifiers are the rows'
/// indices in their tables.
pub struct Store {
    pub routes: Vec<RouteRow>,
    pub traces: Vec<TraceRow>,
    pub hops: Vec<HopRow>,
    pub stats: Vec<StatsRow>,
    pub geos: Vec<GeoRow>,
}

impl Store {
    /// Referential integrity: every trace references a route, every hop row a
    /// trace, every statistics and geolocation row a hop row; routes are
    /// unique by their endpoints.
    pub open spec fn wf(self) -> bool {
        &&& forall|i: int|
            0 <= i < self.traces@.len() ==> (#[trigger] self.traces@[i]).route_id
                < self.routes@.len()
        &&& forall|i: int|
            0 <= i < self.hops@.len() ==> (#[trigger] self.hops@[i]).trace_id < self.traces@.len()
        &&& forall|i: int|
            0 <= i < self.stats@.len() ==> (#[trigger] self.stats@[i]).hop_id < self.hops@.len()
        &&& forall|i: int|
            0 <= i < self.geos@.len() ==> (#[trigger] self.geos@[i]).hop_id < self.hops@.len()
        &&& forall|i: int, j: int|
            0 <= i < j < self.routes@.len() ==> !((#[trigger] self.routes@[i]).source
                == (#[trigger] self.routes@[j]).source && self.routes@[i].destination
                == self.routes@[j].destination)
    }

    pub fn new() -> (s: Store)
        ensures
            s.routes@ == Seq::<RouteRow>::empty(),
            s.traces@ == Seq::<TraceRow>::empty(),
            s.hops@ == Seq::<HopRow>::empty(),
            s.stats@ == Seq::<StatsRow>::empty(),
            s.geos@ == Seq::<GeoRow>::empty(),
            s.wf(),
    {
        let s = Store {
            routes: Vec::new(),
            traces: Vec::new(),
            hops: Vec::new(),
            stats: Vec::new(),
            geos: Vec::new(),
        };
        proof {
            assert(s.routes@ =~= Seq::<RouteRow>::empty());
            assert(s.traces@ =~= Seq::<TraceRow>::empty());
            assert(s.hops@ =~= Seq::<HopRow>::empty());
            assert(s.stats@ =~= Seq::<StatsRow>::empty());
            assert(s.geos@ =~= Seq::<GeoRow>::empty());
        }
        s
    }

    /// The identifier of the route with the given endpoints.
    pub fn show_route_id(&self, source: &Ip4, destination: &Ip4) -> (r: Option<usize>)
        ensures
            match r {
                Some(i) => first_where(self.routes@, route_at(*source, *destination)) == Some(
                    i as int,
                ),
                None => first_where(self.routes@, route_at(*source, *destination)) is None,
            },
    {
        let ghost p = route_at(*source, *destination);
        let n = self.routes.len();
        let mut i: usize = 0;
        while i < n
            invariant
                i <= n,
                n == self.routes@.len(),
                p == route_at(*source, *destination),
                forall|j: int| 0 <= j < i ==> !p(self.routes@[j]),
            decreases n - i,
        {
            let row = self.routes[i];
            if row.source == *source && row.destination == *destination {
                proof {
                    lemma_first_where_exists(self.routes@, p, i as int);
                    lemma_first_where_props(self.routes@, p);
                }
                return Some(i);
            }
            i = i + 1;
        }
        proof {
            lemma_first_where_props(self.routes@, p);
        }
        None
    }

    /// The identifier of the first trace with the given identifier.
    pub fn show_trace_id(&self, trace: u128) -> (r: Option<usize>)
        ensures
            match r {
                Some(i) => first_where(self.traces@, trace_with(trace)) == Some(i as int),
                None => first_where(self.traces@, trace_with(trace)) is None,
            },
    {
        let ghost p = trace_with(trace);
        let n = self.traces.len();
        let mut i: usize = 0;
        while i < n
            invariant
                i <= n,
                n == self.traces@.len(),
                p == trace_with(trace),
                forall|j: int| 0 <= j < i ==> !p(self.traces@[j]),
            decreases n - i,
        {
            let row = self.traces[i];
            if row.uuid == trace {
                proof {
                    lemma_first_where_exists(self.traces@, p, i as int);
                    lemma_first_where_props(self.traces@, p);
                }
                return Some(i);
            }
            i = i + 1;
        }
        proof {
            lemma_first_where_props(self.traces@, p);
        }
        None
    }

    /// Insert the route if its endpoints are new, and return the identifier
    /// of the route with these endpoints. Repeated inserts keep routes unique
    /// by (source, destination).
    pub fn insert_route(&mut self, source: &Ip4, destination: &Ip4) -> (id: usize)
        requires
            old(self).wf(),
            old(self).routes@.len() < usize::MAX,
        ensures
            final(self).wf(),
            final(self).traces@ == old(self).traces@,
            final(self).hops@ == old(self).hops@,
            final(self).stats@ == old(self).stats@,
            final(self).geos@ == old(self).geos@,
            match first_where(old(self).routes@, route_at(*source, *destination)) {
                Some(i) => final(self).routes@ == old(self).routes@ && id as int == i,
                None => {
                    &&& final(self).routes@ == old(self).routes@.push(
                        RouteRow { source: *source, destination: *destination },
                    )
                    &&& id as int == old(self).routes@.len()
                },
            },
    {
        let ghost p = route_at(*source, *destination);
        match self.show_route_id(source, destination) {
            Some(i) => i,
            None => {
                let id = self.routes.len();
                proof {
                    lemma_first_where_props(old(self).routes@, p);
                }
                self.routes.push(RouteRow { source: *source, destination: *destination });
                id
            },
        }
    }

    /// Insert a trace referencing the route with the given endpoints, and
    /// return the identifier of the first trace with this identifier. Nothing
    /// is inserted, and nothing returned, when no such route exists.
    pub fn insert_trace(&mut self, source: &Ip4, destination: &Ip4, trace: u128) -> (r: Option<
        usize,
    >)
        requires
            old(self).wf(),
            old(self).traces@.len() < usize::MAX,
        ensures
            final(self).wf(),
            final(self).routes@ == old(self).routes@,
            final(self).hops@ == old(self).hops@,
            final(self).stats@ == old(self).stats@,
            final(self).geos@ == old(self).geos@,
            match first_where(old(self).routes@, route_at(*source, *destination)) {
                None => r is None && final(self).traces@ == old(self).traces@,
                Some(rid) => {
                    &&& final(self).traces@ == old(self).traces@.push(
                        TraceRow { uuid: trace, route_id: rid as usize },
                    )
                    &&& r matches Some(i) && first_where(final(self).traces@, trace_with(trace))
                        == Some(i as int)
                },
            },
    {
        let rid = match self.show_route_id(source, destination) {
            Some(rid) => rid,
            None => {
                return None;
            },
        };
        proof {
            lemma_first_where_props(self.routes@, route_at(*source, *destination));
        }
        self.traces.push(TraceRow { uuid: trace, route_id: rid });
        proof {
            lemma_first_where_exists(self.traces@, trace_with(trace), self.traces@.len() - 1);
        }
        self.show_trace_id(trace)
    }

    /// The identifiers of the hop rows of one trace at one time-to-live, in
    /// table order; nothing when no such trace exists.
    pub fn show_hop_ids(&self, trace: u128, ttl: u8) -> (r: Option<Vec<usize>>)
        ensures
            match r {
                None => first_where(self.traces@, trace_with(trace)) is None,
                Some(ids) => first_where(self.traces@, trace_with(trace)) matches Some(tid)
                    && ids@.map_values(|u: usize| u as int) == indices_where(
                    self.hops@,
                    hop_at(tid, ttl),
                ),
            },
    {
        let tid = match self.show_trace_id(trace) {
            Some(t) => t,
            None => {
                return None;
            },
        };
        let ghost p = hop_at(tid as int, ttl);
        let n = self.hops.len();
        let mut ids: Vec<usize> = Vec::new();
        let mut i: usize = 0;
        proof {
            assert(ids@.map_values(|u: usize| u as int) =~= indices_where(self.hops@.take(0), p));
        }
        while i < n
            invariant
                i <= n,
                n == self.hops@.len(),
                first_where(self.traces@, trace_with(trace)) == Some(tid as int),
                p == hop_at(tid as int, ttl),
                ids@.map_values(|u: usize| u as int) == indices_where(self.hops@.take(i as int), p),
            decreases n - i,
        {
            let h = self.hops[i];
            proof {
                assert(self.hops@.take(i as int + 1).drop_last() =~= self.hops@.take(i as int));
                assert(self.hops@.take(i as int + 1).last() == self.hops@[i as int]);
            }
            if h.trace_id == tid && h.ttl == ttl {
                let ghost prev = ids@;
                ids.push(i);
                proof {
                    assert(ids@.map_values(|u: usize| u as int) =~= prev.map_values(
                        |u: usize| u as int,
                    ).push(i as int));
                }
            }
            i = i + 1;
        }
        proof {
            assert(self.hops@.take(n as int) =~= self.hops@);
        }
        Some(ids)
    }

    /// The identifier of the hop row of one trace at one time-to-live with
    /// one try index; nothing when no such trace or row exists.
    pub fn show_hop_id(&self, trace: u128, ttl: u8, query: u8) -> (r: Option<usize>)
        ensures
            match r {
                Some(h) => first_where(self.traces@, trace_with(trace)) matches Some(tid)
                    && first_where(self.hops@, hop_try_at(tid, ttl, query)) == Some(h as int),
                None => first_where(self.traces@, trace_with(trace)) matches Some(tid)
                    ==> first_where(self.hops@, hop_try_at(tid, ttl, query)) is None,
            },
    {
        let tid = match self.show_trace_id(trace) {
            Some(t) => t,
            None => {
                return None;
            },
        };
        let ghost p = hop_try_at(tid as int, ttl, query);
        let n = self.hops.len();
        let mut i: usize = 0;
        while i < n
            invariant
                i <= n,
                n == self.hops@.len(),
                first_where(self.traces@, trace_with(trace)) == Some(tid as int),
                p == hop_try_at(tid as int, ttl, query),
                forall|j: int| 0 <= j < i ==> !p(self.hops@[j]),
            decreases n - i,
        {
            let h = self.hops[i];
            if h.trace_id == tid && h.ttl == ttl && h.query == query {
                proof {
                    lemma_first_where_exists(self.hops@, p, i as int);
                    lemma_first_where_props(self.hops@, p);
                }
                return Some(i);
            }
            i = i + 1;
        }
        proof {
            lemma_first_where_props(self.hops@, p);
        }
        None
    }

    /// Insert the hop rows for one hop: one row per query, in try order, all
    /// referencing the trace with the given identifier. Returns the
    /// identifiers of all hop rows of that trace at this time-to-live.
    /// Nothing is inserted, and nothing returned, when no such trace exists.
    pub fn insert_hop(&mut self, trace: u128, ttl: u8, queries: &Vec<TraceQuery>) -> (r: Option<
        Vec<usize>,
    >)
        requires
            old(self).wf(),
            queries@.len() <= 255,
            old(self).hops@.len() + queries@.len() <= usize::MAX,
        ensures
            final(self).wf(),
            final(self).routes@ == old(self).routes@,
            final(self).traces@ == old(self).traces@,
            final(self).stats@ == old(self).stats@,
            final(self).geos@ == old(self).geos@,
            match first_where(old(self).traces@, trace_with(trace)) {
                None => r is None && final(self).hops@ == old(self).hops@,
                Some(tid) => {
                    &&& final(self).hops@ == old(self).hops@ + hop_rows_for(
                        tid as usize,
                        ttl,
                        queries@,
                    )
                    &&& r matches Some(ids) && ids@.map_values(|u: usize| u as int)
                        == indices_where(final(self).hops@, hop_at(tid, ttl))
                },
            },
    {
        let tid = match self.show_trace_id(trace) {
            Some(t) => t,
            None => {
                return None;
            },
        };
        proof {
            lemma_first_where_props(self.traces@, trace_with(trace));
        }
        let n = queries.len();
        let mut idx: usize = 0;
        proof {
            assert(old(self).hops@ + hop_rows_for(tid, ttl, queries@.take(0)) =~= old(self).hops@);
        }
        while idx < n
            invariant
                idx <= n,
                n == queries@.len(),
                n <= 255,
                old(self).hops@.len() + n <= usize::MAX,
                first_where(old(self).traces@, trace_with(trace)) == Some(tid as int),
                tid < self.traces@.len(),
                self.wf(),
                self.routes@ == old(self).routes@,
                self.traces@ == old(self).traces@,
                self.stats@ == old(self).stats@,
                self.geos@ == old(self).geos@,
                self.hops@ == old(self).hops@ + hop_rows_for(tid, ttl, queries@.take(idx as int)),
            decreases n - idx,
        {
            let query: u8 = (idx as u8) + 1;
            let row = match &queries[idx] {
                TraceQuery::Success { rtt, addr } => HopRow {
                    trace_id: tid,
                    ttl,
                    query,
                    kind: QueryKind::Success,
                    addr: Some(*addr),
                    rtt: Some(*rtt),
                },
                TraceQuery::Timeout => HopRow {
                    trace_id: tid,
                    ttl,
                    query,
                    kind: QueryKind::Timeout,
                    addr: None,
                    rtt: None,
                },
                TraceQuery::Failure(_) => HopRow {
                    trace_id: tid,
                    ttl,
                    query,
                    kind: QueryKind::Fail,
                    addr: None,
                    rtt: None,
                },
            };
            proof {
                assert(row == hop_row_of(tid, ttl, (idx + 1) as u8, queries@[idx as int]));
            }
            self.hops.push(row);
            proof {
                assert(self.hops@ =~= old(self).hops@ + hop_rows_for(
                    tid,
                    ttl,
                    queries@.take(idx as int + 1),
                ));
            }
            idx = idx + 1;
        }
        proof {
            assert(queries@.take(n as int) =~= queries@);
        }
        self.show_hop_ids(trace, ttl)
    }

    /// Insert one statistics row for every hop row of the trace at this
    /// time-to-live. Nothing is inserted when no such trace exists, and the
    /// result says so.
    pub fn insert_stats(&mut self, trace: u128, ttl: u8, stats: &HopStats) -> (ok: bool)
        requires
            old(self).wf(),
            old(self).stats@.len() + old(self).hops@.len() <= usize::MAX,
        ensures
            final(self).wf(),
            final(self).routes@ == old(self).routes@,
            final(self).traces@ == old(self).traces@,
            final(self).hops@ == old(self).hops@,
            final(self).geos@ == old(self).geos@,
            match first_where(old(self).traces@, trace_with(trace)) {
                None => !ok && final(self).stats@ == old(self).stats@,
                Some(tid) => ok && final(self).stats@ == old(self).stats@ + stats_rows_for(
                    indices_where(old(self).hops@, hop_at(tid, ttl)),
                    *stats,
                ),
            },
    {
        let ids = match self.show_hop_ids(trace, ttl) {
            Some(v) => v,
            None => {
                return false;
            },
        };
        let ghost gidx = ids@.map_values(|u: usize| u as int);
        let ghost gtid = first_where(self.traces@, trace_with(trace)).unwrap();
        proof {
            lemma_indices_where_props(self.hops@, hop_at(gtid, ttl));
        }
        let n = ids.len();
        let mut k: usize = 0;
        proof {
            assert(old(self).stats@ + stats_rows_for(gidx.take(0), *stats) =~= old(self).stats@);
        }
        while k < n
            invariant
                k <= n,
                n == ids@.len(),
                first_where(old(self).traces@, trace_with(trace)) == Some(gtid),
                gidx == indices_where(old(self).hops@, hop_at(gtid, ttl)),
                gidx == ids@.map_values(|u: usize| u as int),
                old(self).stats@.len() + old(self).hops@.len() <= usize::MAX,
                n <= old(self).hops@.len(),
                forall|a: int| 0 <= a < n ==> 0 <= #[trigger] gidx[a] < old(self).hops@.len(),
                self.wf(),
                self.routes@ == old(self).routes@,
                self.traces@ == old(self).traces@,
                self.hops@ == old(self).hops@,
                self.geos@ == old(self).geos@,
                self.stats@ == old(self).stats@ + stats_rows_for(gidx.take(k as int), *stats),
            decreases n - k,
        {
            let hop_id = ids[k];
            self.stats.push(StatsRow { hop_id, mean: stats.mean, median: stats.median });
            proof {
                assert(self.stats@ =~= old(self).stats@ + stats_rows_for(
                    gidx.take(k as int + 1),
                    *stats,
                ));
            }
            k = k + 1;
        }
        proof {
            assert(gidx.take(n as int) =~= gidx);
        }
        true
    }

    /// Insert one geolocation row for the hop row of the trace at this
    /// time-to-live and try index, carrying a copy of the record. Nothing is
    /// inserted when no such trace or hop row exists, and the result says so.
    pub fn insert_geoip(&mut self, trace: u128, ttl: u8, query: u8, geoip: &IpApiResp) -> (ok:
        bool)
        requires
            old(self).wf(),
            old(self).geos@.len() < usize::MAX,
        ensures
            final(self).wf(),
            final(self).routes@ == old(self).routes@,
            final(self).traces@ == old(self).traces@,
            final(self).hops@ == old(self).hops@,
            final(self).stats@ == old(self).stats@,
            match first_where(old(self).traces@, trace_with(trace)) {
                None => !ok && final(self).geos@ == old(self).geos@,
                Some(tid) => match first_where(old(self).hops@, hop_try_at(tid, ttl, query)) {
                    None => !ok && final(self).geos@ == old(self).geos@,
                    Some(h) => ok && final(self).geos@.len() == old(self).geos@.len() + 1
                        && geos_v(final(self).geos@) == geos_v(old(self).geos@).push(
                        GeoRowV { hop_id: h, rec: geoip@ },
                    ),
                },
            },
    {
        let h = match self.show_hop_id(trace, ttl, query) {
            Some(h) => h,
            None => {
                return false;
            },
        };
        proof {
            let tid = first_where(self.traces@, trace_with(trace)).unwrap();
            lemma_first_where_props(self.hops@, hop_try_at(tid, ttl, query));
        }
        self.geos.push(GeoRow { hop_id: h, geo: geoip.duplicate() });
        proof {
            assert(geos_v(self.geos@) =~= geos_v(old(self).geos@).push(
                GeoRowV { hop_id: h as int, rec: geoip@ },
            ));
        }
        true
    }

    /// The cached geolocation record for a responder address: a copy of the
    /// first geolocation row whose hop row carries the address, under that
    /// address; nothing when no row carries it.
    pub fn show_geoip_for_addr(&self, addr: &Ip4) -> (r: Option<IpApiResp>)
        ensures
            match r {
                None => first_where(geos_v(self.geos@), geo_at_addr(self.hops@, *addr)) is None,
                Some(rec) => first_where(geos_v(self.geos@), geo_at_addr(self.hops@, *addr))
                    matches Some(g) && rec@ == (GeoFields {
                    ip: *addr,
                    ..geos_v(self.geos@)[g].rec
                }),
            },
    {
        let ghost p = geo_at_addr(self.hops@, *addr);
        let n = self.geos.len();
        let mut g: usize = 0;
        while g < n
            invariant
                g <= n,
                n == self.geos@.len(),
                p == geo_at_addr(self.hops@, *addr),
                forall|j: int| 0 <= j < g ==> !p(#[trigger] geos_v(self.geos@)[j]),
            decreases n - g,
        {
            let hop_id = self.geos[g].hop_id;
            let hit = if hop_id < self.hops.len() {
                match self.hops[hop_id].addr {
                    Some(a) => a == *addr,
                    None => false,
                }
            } else {
                false
            };
            proof {
                assert(geos_v(self.geos@)[g as int] == self.geos@[g as int]@);
            }
            if hit {
                proof {
                    lemma_first_where_exists(geos_v(self.geos@), p, g as int);
                    lemma_first_where_props(geos_v(self.geos@), p);
                }
                let rec = self.geos[g].geo.duplicate().with_ip(*addr);
                return Some(rec);
            }
            g = g + 1;
        }
        proof {
            lemma_first_where_props(geos_v(self.geos@), p);
        }
        None
    }
}

/// One exported row agrees with one hop row: route endpoints, trace
/// identifier, position, result kind and measurement as persisted, the first
/// statistics row of the hop if any, and the first geolocation row of the hop
/// if any.
pub open spec fn export_matches(s: Store, src: Ip4, dst: Ip4, h: int, e: ExportHop) -> bool {
    let hop = s.hops@[h];
    &&& e.source == src
    &&& e.destination == dst
    &&& 0 <= hop.trace_id < s.traces@.len() && e.trace == s.traces@[hop.trace_id as int].uuid
    &&& e.ttl == hop.ttl
    &&& e.query == hop.query
    &&& e.query_result@ == kind_text(hop.kind)
    &&& e.addr == hop.addr
    &&& e.rtt == hop.rtt
    &&& match first_where(s.stats@, stats_at(h)) {
        Some(k) => e.hop_mean_ms == s.stats@[k].mean && e.hop_median_ms == s.stats@[k].median,
        None => e.hop_mean_ms is None && e.hop_median_ms is None,
    }
    &&& match first_where(geos_v(s.geos@), geo_at(h)) {
        Some(g) => export_geo_eq(e, geos_v(s.geos@)[g].rec),
        None => export_geo_none(e),
    }
}

/// The exported geolocation columns carry the record's texts.
pub open spec fn export_geo_eq(e: ExportHop, rec: GeoFields) -> bool {
    &&& e.city.deep_view() == rec.city
    &&& e.country.deep_view() == rec.country_name
    &&& e.country_code.deep_view() == rec.country_code
    &&& e.country_code_iso3.deep_view() == rec.country_code_iso3
    &&& e.country_capital.deep_view() == rec.country_capital
    &&& e.region.deep_view() == rec.region
    &&& e.region_code.deep_view() == rec.region_code
    &&& e.latitude.deep_view() == rec.latitude
    &&& e.longitude.deep_view() == rec.longitude
    &&& e.timezone.deep_view() == rec.timezone
    &&& e.utc_offset.deep_view() == rec.utc_offset
    &&& e.asn.deep_view() == rec.asn
    &&& e.org.deep_view() == rec.org
}

/// The exported geolocation columns are all empty.
pub open spec fn export_geo_none(e: ExportHop) -> bool {
    &&& e.city is None
    &&& e.country is None
    &&& e.country_code is None
    &&& e.country_code_iso3 is None
    &&& e.country_capital is None
    &&& e.region is None
    &&& e.region_code is None
    &&& e.latitude is None
    &&& e.longitude is None
    &&& e.timezone is None
    &&& e.utc_offset is None
    &&& e.asn is None
    &&& e.org is None
}

/// What an export returns: nothing for an unknown route; otherwise one row
/// for each hop row of the route, in table order, each agreeing with its hop
/// row.
pub open spec fn export_ok(s: Store, src: Ip4, dst: Ip4, rows: Seq<ExportHop>) -> bool {
    match first_where(s.routes@, route_at(src, dst)) {
        None => rows.len() == 0,
        Some(rid) => {
            let idx = indices_where(s.hops@, route_hop(s.traces@, rid));
            &&& rows.len() == idx.len()
            &&& forall|j: int|
                0 <= j < rows.len() ==> export_matches(s, src, dst, idx[j], #[trigger] rows[j])
        },
    }
}

impl Store {
    /// The first statistics row of one hop row, flattened: its mean and
    /// median, or nothing of each when the hop has no statistics row.
    fn stats_join(&self, h: usize) -> (r: (Option<u64>, Option<u64>))
        ensures
            match first_where(self.stats@, stats_at(h as int)) {
                Some(k) => r.0 == self.stats@[k].mean && r.1 == self.stats@[k].median,
                None => r.0 is None && r.1 is None,
            },
    {
        let ghost p = stats_at(h as int);
        let n = self.stats.len();
        let mut k: usize = 0;
        while k < n
            invariant
                k <= n,
                n == self.stats@.len(),
                p == stats_at(h as int),
                forall|j: int| 0 <= j < k ==> !p(self.stats@[j]),
            decreases n - k,
        {
            let row = self.stats[k];
            if row.hop_id == h {
                proof {
                    lemma_first_where_exists(self.stats@, p, k as int);
                    lemma_first_where_props(self.stats@, p);
                }
                return (row.mean, row.median);
            }
            k = k + 1;
        }
        proof {
            lemma_first_where_props(self.stats@, p);
        }
        (None, None)
    }

    /// The identifier of the first geolocation row of one hop row, if any.
    fn geo_index_for(&self, h: usize) -> (r: Option<usize>)
        ensures
            match r {
                Some(g) => first_where(geos_v(self.geos@), geo_at(h as int)) == Some(g as int) && g
                    < self.geos@.len(),
                None => first_where(geos_v(self.geos@), geo_at(h as int)) is None,
            },
    {
        let ghost p = geo_at(h as int);
        let n = self.geos.len();
        let mut g: usize = 0;
        while g < n
            invariant
                g <= n,
                n == self.geos@.len(),
                p == geo_at(h as int),
                forall|j: int| 0 <= j < g ==> !p(#[trigger] geos_v(self.geos@)[j]),
            decreases n - g,
        {
            proof {
                assert(geos_v(self.geos@)[g as int] == self.geos@[g as int]@);
            }
            if self.geos[g].hop_id == h {
                proof {
                    lemma_first_where_exists(geos_v(self.geos@), p, g as int);
                    lemma_first_where_props(geos_v(self.geos@), p);
                }
                return Some(g);
            }
            g = g + 1;
        }
        proof {
            lemma_first_where_props(geos_v(self.geos@), p);
        }
        None
    }

    /// The export row for one hop row.
    fn export_row(&self, i: usize, source: &Ip4, destination: &Ip4) -> (e: ExportHop)
        requires
            self.wf(),
            i < self.hops@.len(),
        ensures
            export_matches(*self, *source, *destination, i as int, e),
    {
        let hop = self.hops[i];
        let trace_uuid = self.traces[hop.trace_id].uuid;
        let query_result = match hop.kind {
            QueryKind::Success => "success".to_owned(),
            QueryKind::Timeout => "timeout".to_owned(),
            QueryKind::Fail => "fail".to_owned(),
        };
        let (mean, median) = self.stats_join(i);
        match self.geo_index_for(i) {
            Some(g) => {
                proof {
                    assert(geos_v(self.geos@)[g as int] == self.geos@[g as int]@);
                }
                let rec = &self.geos[g].geo;
                ExportHop {
                    source: *source,
                    destination: *destination,
                    trace: trace_uuid,
                    ttl: hop.ttl,
                    query: hop.query,
                    query_result,
                    addr: hop.addr,
                    rtt: hop.rtt,
                    hop_mean_ms: mean,
                    hop_median_ms: median,
                    city: clone_opt_text(&rec.city),
                    country: clone_opt_text(&rec.country_name),
                    country_code: clone_opt_text(&rec.country_code),
                    country_code_iso3: clone_opt_text(&rec.country_code_iso3),
                    country_capital: clone_opt_text(&rec.country_capital),
                    region: clone_opt_text(&rec.region),
                    region_code: clone_opt_text(&rec.region_code),
                    latitude: clone_opt_text(&rec.latitude),
                    longitude: clone_opt_text(&rec.longitude),
                    timezone: clone_opt_text(&rec.timezone),
                    utc_offset: clone_opt_text(&rec.utc_offset),
                    asn: clone_opt_text(&rec.asn),
                    org: clone_opt_text(&rec.org),
                }
            },
            None => ExportHop {
                source: *source,
                destination: *destination,
                trace: trace_uuid,
                ttl: hop.ttl,
                query: hop.query,
                query_result,
                addr: hop.addr,
                rtt: hop.rtt,
                hop_mean_ms: mean,
                hop_median_ms: median,
                city: None,
                country: None,
                country_code: None,
                country_code_iso3: None,
                country_capital: None,
                region: None,
                region_code: None,
                latitude: None,
                longitude: None,
                timezone: None,
                utc_offset: None,
                asn: None,
                org: None,
            },
        }
    }

    /// Export the full ordered row sequence for one route: one row per hop
    /// row of the route, in table order; empty for an unknown route.
    pub fn export_route(&self, source: &Ip4, destination: &Ip4) -> (rows: Vec<ExportHop>)
        requires
            self.wf(),
        ensures
            export_ok(*self, *source, *destination, rows@),
    {
        let rid = match self.show_route_id(source, destination) {
            Some(rid) => rid,
            None => {
                return Vec::new();
            },
        };
        let ghost p = route_hop(self.traces@, rid as int);
        let n = self.hops.len();
        let mut out: Vec<ExportHop> = Vec::new();
        let mut i: usize = 0;
        proof {
            assert(indices_where(self.hops@.take(0), p) =~= Seq::<int>::empty());
        }
        while i < n
            invariant
                i <= n,
                n == self.hops@.len(),
                self.wf(),
                first_where(self.routes@, route_at(*source, *destination)) == Some(rid as int),
                p == route_hop(self.traces@, rid as int),
                out@.len() == indices_where(self.hops@.take(i as int), p).len(),
                forall|j: int|
                    0 <= j < out@.len() ==> export_matches(
                        *self,
                        *source,
                        *destination,
                        indices_where(self.hops@.take(i as int), p)[j],
                        #[trigger] out@[j],
                    ),
            decreases n - i,
        {
            let hop = self.hops[i];
            proof {
                assert(self.hops@.take(i as int + 1).drop_last() =~= self.hops@.take(i as int));
                assert(self.hops@.take(i as int + 1).last() == self.hops@[i as int]);
            }
            let t = self.traces[hop.trace_id];
            if t.route_id == rid {
                let e = self.export_row(i, source, destination);
                out.push(e);
            }
            i = i + 1;
        }
        proof {
            assert(self.hops@.take(n as int) =~= self.hops@);
        }
        out
    }
}

/// A request to the storage actor, without its reply channel.
pub enum DbMessage {
    InsertRoute { route: Route },
    InsertTrace { trace: Trace },
    InsertHop { hop: Hop },
    InsertStats { hop: Hop, stats: HopStats },
    InsertGeoip { hop: Hop, query: u8, geoip: IpApiResp },
    ExportHop { route: Route },
    ShowGeoip { addr: Ip4 },
    Shutdown,
}

/// The storage actor's reply to one request: an acknowledgement saying
/// whether the rows the request referenced existed, the export rows, or the
/// cached record.
pub enum DbReply {
    Done(bool),
    Export(Vec<ExportHop>),
    Geoip(Option<IpApiResp>),
}

/// Room for what one message inserts.
pub open spec fn msg_fits(s: Store, msg: DbMessage) -> bool {
    match msg {
        DbMessage::InsertRoute { .. } => s.routes@.len() < usize::MAX,
        DbMessage::InsertTrace { .. } => s.traces@.len() < usize::MAX,
        DbMessage::InsertHop { hop } => hop.queries@.len() <= 255 && s.hops@.len()
            + hop.queries@.len() <= usize::MAX,
        DbMessage::InsertStats { .. } => s.stats@.len() + s.hops@.len() <= usize::MAX,
        DbMessage::InsertGeoip { .. } => s.geos@.len() < usize::MAX,
        _ => true,
    }
}

/// The storage actor: the single owner of the store. All requests execute
/// strictly sequentially through `handle_message` on the one thread of
/// control that owns the `Db` value, which is what makes concurrent writers
/// safe without row locking.
pub struct Db {
    pub store: Store,
}

impl Db {
    pub fn new() -> (db: Db)
        ensures
            db.store.wf(),
            db.store.routes@ == Seq::<RouteRow>::empty(),
            db.store.traces@ == Seq::<TraceRow>::empty(),
            db.store.hops@ == Seq::<HopRow>::empty(),
            db.store.stats@ == Seq::<StatsRow>::empty(),
            db.store.geos@ == Seq::<GeoRow>::empty(),
    {
        Db { store: Store::new() }
    }

    /// Execute one request against the store and produce its reply. Inserts
    /// acknowledge with whether the referenced rows existed; a failed insert
    /// leaves the store unchanged and does not disturb the actor.
    pub fn handle_message(&mut self, msg: &DbMessage) -> (r: DbReply)
        requires
            old(self).store.wf(),
            !(msg is Shutdown),
            msg_fits(old(self).store, *msg),
        ensures
            final(self).store.wf(),
            match *msg {
                DbMessage::InsertRoute { route } => {
                    &&& final(self).store.traces@ == old(self).store.traces@
                    &&& final(self).store.hops@ == old(self).store.hops@
                    &&& final(self).store.stats@ == old(self).store.stats@
                    &&& final(self).store.geos@ == old(self).store.geos@
                    &&& match first_where(
                        old(self).store.routes@,
                        route_at(route.source, route.destination),
                    ) {
                        Some(_) => final(self).store.routes@ == old(self).store.routes@,
                        None => final(self).store.routes@ == old(self).store.routes@.push(
                            RouteRow { source: route.source, destination: route.destination },
                        ),
                    }
                    &&& r matches DbReply::Done(ok) && ok
                },
                DbMessage::InsertTrace { trace } => {
                    &&& final(self).store.routes@ == old(self).store.routes@
                    &&& final(self).store.hops@ == old(self).store.hops@
                    &&& final(self).store.stats@ == old(self).store.stats@
                    &&& final(self).store.geos@ == old(self).store.geos@
                    &&& match first_where(
                        old(self).store.routes@,
                        route_at(trace.route.source, trace.route.destination),
                    ) {
                        None => r matches DbReply::Done(ok) && !ok && final(self).store.traces@
                            == old(self).store.traces@,
                        Some(rid) => r matches DbReply::Done(ok) && ok && final(self).store.traces@
                            == old(self).store.traces@.push(
                            TraceRow { uuid: trace.id, route_id: rid as usize },
                        ),
                    }
                },
                DbMessage::InsertHop { hop } => {
                    &&& final(self).store.routes@ == old(self).store.routes@
                    &&& final(self).store.traces@ == old(self).store.traces@
                    &&& final(self).store.stats@ == old(self).store.stats@
                    &&& final(self).store.geos@ == old(self).store.geos@
                    &&& match first_where(old(self).store.traces@, trace_with(hop.trace)) {
                        None => r matches DbReply::Done(ok) && !ok && final(self).store.hops@
                            == old(self).store.hops@,
                        Some(tid) => r matches DbReply::Done(ok) && ok && final(self).store.hops@
                            == old(self).store.hops@ + hop_rows_for(
                            tid as usize,
                            hop.ttl,
                            hop.queries@,
                        ),
                    }
                },
                DbMessage::InsertStats { hop, stats } => {
                    &&& final(self).store.routes@ == old(self).store.routes@
                    &&& final(self).store.traces@ == old(self).store.traces@
                    &&& final(self).store.hops@ == old(self).store.hops@
                    &&& final(self).store.geos@ == old(self).store.geos@
                    &&& match first_where(old(self).store.traces@, trace_with(hop.trace)) {
                        None => r matches DbReply::Done(ok) && !ok && final(self).store.stats@
                            == old(self).store.stats@,
                        Some(tid) => r matches DbReply::Done(ok) && ok && final(self).store.stats@
                            == old(self).store.stats@ + stats_rows_for(
                            indices_where(old(self).store.hops@, hop_at(tid, hop.ttl)),
                            stats,
                        ),
                    }
                },
                DbMessage::InsertGeoip { hop, query, geoip } => {
                    &&& final(self).store.routes@ == old(self).store.routes@
                    &&& final(self).store.traces@ == old(self).store.traces@
                    &&& final(self).store.hops@ == old(self).store.hops@
                    &&& final(self).store.stats@ == old(self).store.stats@
                    &&& match first_where(old(self).store.traces@, trace_with(hop.trace)) {
                        None => r matches DbReply::Done(ok) && !ok && final(self).store.geos@
                            == old(self).store.geos@,
                        Some(tid) => match first_where(
                            old(self).store.hops@,
                            hop_try_at(tid, hop.ttl, query),
                        ) {
                            None => r matches DbReply::Done(ok) && !ok && final(self).store.geos@
                                == old(self).store.geos@,
                            Some(h) => r matches DbReply::Done(ok) && ok && geos_v(
                                final(self).store.geos@,
                            ) == geos_v(old(self).store.geos@).push(
                                GeoRowV { hop_id: h, rec: geoip@ },
                            ),
                        },
                    }
                },
                DbMessage::ExportHop { route } => {
                    &&& *final(self) == *old(self)
                    &&& r matches DbReply::Export(rows) && export_ok(
                        old(self).store,
                        route.source,
                        route.destination,
                        rows@,
                    )
                },
                DbMessage::ShowGeoip { addr } => {
                    &&& *final(self) == *old(self)
                    &&& r matches DbReply::Geoip(rec) && match rec {
                        None => first_where(
                            geos_v(old(self).store.geos@),
                            geo_at_addr(old(self).store.hops@, addr),
                        ) is None,
                        Some(found) => first_where(
                            geos_v(old(self).store.geos@),
                            geo_at_addr(old(self).store.hops@, addr),
                        ) matches Some(g) && found@ == (GeoFields {
                            ip: addr,
                            ..geos_v(old(self).store.geos@)[g].rec
                        }),
                    }
                },
                DbMessage::Shutdown => false,
            },
    {
        match msg {
            DbMessage::InsertRoute { route } => {
                self.store.insert_route(&route.source, &route.destination);
                DbReply::Done(true)
            },
            DbMessage::InsertTrace { trace } => {
                let r = self.store.insert_trace(
                    &trace.route.source,
                    &trace.route.destination,
                    trace.id,
                );
                DbReply::Done(r.is_some())
            },
            DbMessage::InsertHop { hop } => {
                let r = self.store.insert_hop(hop.trace, hop.ttl, &hop.queries);
                DbReply::Done(r.is_some())
            },
            DbMessage::InsertStats { hop, stats } => {
                let ok = self.store.insert_stats(hop.trace, hop.ttl, stats);
                DbReply::Done(ok)
            },
            DbMessage::InsertGeoip { hop, query, geoip } => {
                let ok = self.store.insert_geoip(hop.trace, hop.ttl, *query, geoip);
                DbReply::Done(ok)
            },
            DbMessage::ExportHop { route } => {
                let rows = self.store.export_route(&route.source, &route.destination);
                DbReply::Export(rows)
            },
            DbMessage::ShowGeoip { addr } => {
                let rec = self.store.show_geoip_for_addr(addr);
                DbReply::Geoip(rec)
            },
            DbMessage::Shutdown => DbReply::Done(false),
        }
    }
}


/// One exported row carries the key of one hop row: the trace identifier,
/// time-to-live and try index.
pub open spec fn row_keys_match(s: Store, e: ExportHop, h: int) -> bool {
    &&& e.trace == s.traces@[s.hops@[h].trace_id as int].uuid
    &&& e.ttl == s.hops@[h].ttl
    &&& e.query == s.hops@[h].query
}

/// Round trip of export: a hop row of a route whose (trace, time-to-live,
/// try) key is unique among the route's hop rows appears in the export of
/// that route under its key exactly once, and that exported row carries the
/// persisted result kind, responder address and round-trip time of the
/// original query. Inserted hops with distinct time-to-live values satisfy
/// the uniqueness premise, their try indices counting 1 up within each hop.
pub proof fn lemma_export_round_trip(s: Store, src: Ip4, dst: Ip4, rows: Seq<ExportHop>, h: int)
    requires
        s.wf(),
        export_ok(s, src, dst, rows),
        0 <= h < s.hops@.len(),
        first_where(s.routes@, route_at(src, dst)) matches Some(rid) && route_hop(s.traces@, rid)(
            s.hops@[h],
        ),
        forall|h2: int|
            0 <= h2 < s.hops@.len() && h2 != h && #[trigger] route_hop(
                s.traces@,
                first_where(s.routes@, route_at(src, dst)).unwrap(),
            )(s.hops@[h2]) ==> !(s.traces@[s.hops@[h2].trace_id as int].uuid
                == s.traces@[s.hops@[h].trace_id as int].uuid && s.hops@[h2].ttl == s.hops@[h].ttl
                && s.hops@[h2].query == s.hops@[h].query),
    ensures
        exists|j: int| 0 <= j < rows.len() && #[trigger] row_keys_match(s, rows[j], h),
        forall|j1: int, j2: int|
            0 <= j1 < rows.len() && 0 <= j2 < rows.len() && #[trigger] row_keys_match(
                s,
                rows[j1],
                h,
            ) && #[trigger] row_keys_match(s, rows[j2], h) ==> j1 == j2,
        forall|j: int|
            0 <= j < rows.len() && #[trigger] row_keys_match(s, rows[j], h) ==> rows[
                j
            ].query_result@ == kind_text(s.hops@[h].kind) && rows[j].addr == s.hops@[h].addr
                && rows[j].rtt == s.hops@[h].rtt,
{
    let rid = first_where(s.routes@, route_at(src, dst)).unwrap();
    let p = route_hop(s.traces@, rid);
    let idx = indices_where(s.hops@, p);
    lemma_indices_where_props(s.hops@, p);
    assert(idx.contains(h));
    let j0 = choose|j: int| 0 <= j < idx.len() && idx[j] == h;
    assert(export_matches(s, src, dst, idx[j0], rows[j0]));
    assert(row_keys_match(s, rows[j0], h));
    assert forall|j1: int, j2: int|
        0 <= j1 < rows.len() && 0 <= j2 < rows.len() && #[trigger] row_keys_match(s, rows[j1], h)
            && #[trigger] row_keys_match(s, rows[j2], h) implies j1 == j2 by {
        lemma_export_key_pins(s, src, dst, rows, h, j1);
        lemma_export_key_pins(s, src, dst, rows, h, j2);
        if j1 < j2 {
            assert(idx[j1] < idx[j2]);
        }
        if j2 < j1 {
            assert(idx[j2] < idx[j1]);
        }
    }
    assert forall|j: int|
        0 <= j < rows.len() && #[trigger] row_keys_match(s, rows[j], h) implies rows[
        j
    ].query_result@ == kind_text(s.hops@[h].kind) && rows[j].addr == s.hops@[h].addr && rows[j].rtt
        == s.hops@[h].rtt by {
        lemma_export_key_pins(s, src, dst, rows, h, j);
    }
}

/// An exported row of the route that carries the key of the uniquely-keyed
/// hop row stands for exactly that hop row.
proof fn lemma_export_key_pins(s: Store, src: Ip4, dst: Ip4, rows: Seq<ExportHop>, h: int, j: int)
    requires
        s.wf(),
        export_ok(s, src, dst, rows),
        0 <= h < s.hops@.len(),
        first_where(s.routes@, route_at(src, dst)) matches Some(rid) && route_hop(s.traces@, rid)(
            s.hops@[h],
        ),
        forall|h2: int|
            0 <= h2 < s.hops@.len() && h2 != h && #[trigger] route_hop(
                s.traces@,
                first_where(s.routes@, route_at(src, dst)).unwrap(),
            )(s.hops@[h2]) ==> !(s.traces@[s.hops@[h2].trace_id as int].uuid
                == s.traces@[s.hops@[h].trace_id as int].uuid && s.hops@[h2].ttl == s.hops@[h].ttl
                && s.hops@[h2].query == s.hops@[h].query),
        0 <= j < rows.len(),
        row_keys_match(s, rows[j], h),
    ensures
        indices_where(s.hops@, route_hop(s.traces@, first_where(s.routes@, route_at(src, dst)).unwrap()))[j]
            == h,
        rows[j].query_result@ == kind_text(s.hops@[h].kind),
        rows[j].addr == s.hops@[h].addr,
        rows[j].rtt == s.hops@[h].rtt,
{
    let rid = first_where(s.routes@, route_at(src, dst)).unwrap();
    let p = route_hop(s.traces@, rid);
    let idx = indices_where(s.hops@, p);
    lemma_indices_where_props(s.hops@, p);
    let h2 = idx[j];
    assert(export_matches(s, src, dst, h2, rows[j]));
    assert(p(s.hops@[h2]));
    assert(rows[j].trace == s.traces@[s.hops@[h2].trace_id as int].uuid);
    assert(h2 == h);
}

} // verus!

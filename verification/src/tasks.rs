use vstd::prelude::*;
use vstd::relations::total_ordering;
use vstd::seq_lib::lemma_sorted_unique;

use crate::data::{
    first_where, geo_at_addr, geos_v, hop_at, indices_where, stats_rows_for, trace_with, Db,
    GeoRowV, HopRow,
};
use crate::geoip::{GeoFields, IpApiResp};
use crate::stats::{median_opt, mean_opt, sort_durations, sorted, HopStats};
use crate::{hop_eq, Hop, TraceQuery};

verus! {

/// The three independent units of work that one discovered hop fans out to.
pub enum Task {
    HopLog(Hop),
    HopStats(Hop),
    HopGeoIp(Hop),
}

/// The dispatcher's task descriptors for one hop: the log, statistics and
/// geolocation units, in that order, each carrying a copy of the hop.
pub fn hop_tasks(hop: Hop) -> (ts: Vec<Task>)
    ensures
        ts@.len() == 3,
        ts@[0] matches Task::HopLog(h) && hop_eq(h, hop),
        ts@[1] matches Task::HopStats(h) && hop_eq(h, hop),
        ts@[2] matches Task::HopGeoIp(h) && hop_eq(h, hop),
{
    let h1 = hop.duplicate();
    let h2 = hop.duplicate();
    let mut ts: Vec<Task> = Vec::new();
    ts.push(Task::HopLog(h1));
    ts.push(Task::HopStats(h2));
    ts.push(Task::HopGeoIp(hop));
    ts
}

/// The worker pool size: half the logical cores, at least one.
pub fn worker_count(cpus: usize) -> (n: usize)
    ensures
        n == (if cpus > 2 {
            cpus as int / 2
        } else {
            1int
        }),
        n >= 1,
{
    if cpus > 2 {
        cpus / 2
    } else {
        1
    }
}

/// The round-trip times of the successful queries, in query order.
pub open spec fn success_rtts(queries: Seq<TraceQuery>) -> Seq<u64>
    decreases queries.len(),
{
    if queries.len() == 0 {
        Seq::empty()
    } else {
        let prev = success_rtts(queries.drop_last());
        match queries.last() {
            TraceQuery::Success { rtt, .. } => prev.push(rtt),
            _ => prev,
        }
    }
}

/// The successful round-trip times sorted ascending.
pub open spec fn sorted_rtts(queries: Seq<TraceQuery>) -> Seq<u64> {
    success_rtts(queries).sort_by(|a: u64, b: u64| a <= b)
}

/// The statistics of one hop: mean and median of its successful round-trip
/// times, sorted ascending; both empty when no query succeeded.
pub open spec fn hop_stats_of(queries: Seq<TraceQuery>) -> HopStats {
    HopStats { mean: mean_opt(sorted_rtts(queries)), median: median_opt(sorted_rtts(queries)) }
}

/// Collect the round-trip times of the successful queries, in query order.
fn collect_success_rtts(queries: &Vec<TraceQuery>) -> (r: Vec<u64>)
    ensures
        r@ == success_rtts(queries@),
{
    let n = queries.len();
    let mut out: Vec<u64> = Vec::new();
    let mut i: usize = 0;
    proof {
        assert(queries@.take(0) =~= Seq::<TraceQuery>::empty());
    }
    while i < n
        invariant
            i <= n,
            n == queries@.len(),
            out@ == success_rtts(queries@.take(i as int)),
        decreases n - i,
    {
        proof {
            assert(queries@.take(i as int + 1).drop_last() =~= queries@.take(i as int));
            assert(queries@.take(i as int + 1).last() == queries@[i as int]);
        }
        match &queries[i] {
            TraceQuery::Success { rtt, .. } => {
                out.push(*rtt);
            },
            _ => {},
        }
        i = i + 1;
    }
    proof {
        assert(queries@.take(n as int) =~= queries@);
    }
    out
}

/// Compute one hop's statistics and insert them: mean and median of the
/// successful round-trip times, sorted ascending first, one statistics row
/// per hop row of the (trace, time-to-live) pair. Nothing is inserted when
/// the store knows no such trace, and the result says so.
pub fn hop_stats(db: &mut Db, hop: &Hop) -> (ok: bool)
    requires
        old(db).store.wf(),
        old(db).store.stats@.len() + old(db).store.hops@.len() <= usize::MAX,
    ensures
        final(db).store.wf(),
        final(db).store.routes@ == old(db).store.routes@,
        final(db).store.traces@ == old(db).store.traces@,
        final(db).store.hops@ == old(db).store.hops@,
        final(db).store.geos@ == old(db).store.geos@,
        match first_where(old(db).store.traces@, trace_with(hop.trace)) {
            None => !ok && final(db).store.stats@ == old(db).store.stats@,
            Some(tid) => ok && final(db).store.stats@ == old(db).store.stats@ + stats_rows_for(
                indices_where(old(db).store.hops@, hop_at(tid, hop.ttl)),
                hop_stats_of(hop.queries@),
            ),
        },
{
    let durations = collect_success_rtts(&hop.queries);
    let sorted_list = sort_durations(&durations);
    proof {
        let leq = |a: u64, b: u64| a <= b;
        assert(total_ordering(leq));
        durations@.lemma_sort_by_ensures(leq);
        assert(vstd::relations::sorted_by(sorted_list@, leq)) by {
            assert(sorted(sorted_list@));
        }
        lemma_sorted_unique(sorted_list@, durations@.sort_by(leq), leq);
        assert(sorted_list@ == sorted_rtts(hop.queries@));
    }
    let stats = HopStats::from_durations(&sorted_list);
    db.store.insert_stats(hop.trace, hop.ttl, &stats)
}

/// The 1-based try indices whose responder needs an external geolocation
/// lookup: the query succeeded, the responder address is public, and the
/// store has no cached record for it.
pub open spec fn pending_spec(geos: Seq<GeoRowV>, hops: Seq<HopRow>, queries: Seq<TraceQuery>) -> Seq<
    u8,
>
    decreases queries.len(),
{
    if queries.len() == 0 {
        Seq::empty()
    } else {
        let prev = pending_spec(geos, hops, queries.drop_last());
        if queries.last() matches TraceQuery::Success { addr, .. } && !addr.is_private_spec()
            && first_where(geos, geo_at_addr(hops, addr)) is None {
            prev.push(queries.len() as u8)
        } else {
            prev
        }
    }
}

/// The try indices of one hop that need an external geolocation lookup. A
/// responder address with a cached record is never among them: the cache
/// takes precedence and the lookup collaborator is not invoked for it.
pub fn geoip_pending(db: &Db, hop: &Hop) -> (pending: Vec<u8>)
    requires
        hop.queries@.len() <= 255,
    ensures
        pending@ == pending_spec(geos_v(db.store.geos@), db.store.hops@, hop.queries@),
{
    let n = hop.queries.len();
    let mut out: Vec<u8> = Vec::new();
    let mut i: usize = 0;
    proof {
        assert(hop.queries@.take(0) =~= Seq::<TraceQuery>::empty());
    }
    while i < n
        invariant
            i <= n,
            n == hop.queries@.len(),
            n <= 255,
            out@ == pending_spec(geos_v(db.store.geos@), db.store.hops@, hop.queries@.take(i as int)),
        decreases n - i,
    {
        proof {
            assert(hop.queries@.take(i as int + 1).drop_last() =~= hop.queries@.take(i as int));
            assert(hop.queries@.take(i as int + 1).last() == hop.queries@[i as int]);
        }
        match &hop.queries[i] {
            TraceQuery::Success { addr, .. } => {
                if !addr.is_private() {
                    match db.store.show_geoip_for_addr(addr) {
                        None => {
                            out.push((i as u8) + 1);
                        },
                        Some(_) => {},
                    }
                }
            },
            _ => {},
        }
        i = i + 1;
    }
    proof {
        assert(hop.queries@.take(n as int) =~= hop.queries@);
    }
    out
}

/// What the pending list holds: only 1-based positions of successful queries
/// with a public responder address for which the store has no cached record.
pub proof fn lemma_pending_props(geos: Seq<GeoRowV>, hops: Seq<HopRow>, queries: Seq<TraceQuery>)
    requires
        queries.len() <= 255,
    ensures
        forall|a: int|
            0 <= a < pending_spec(geos, hops, queries).len() ==> 1 <= #[trigger] pending_spec(
                geos,
                hops,
                queries,
            )[a] <= queries.len() && (queries[pending_spec(geos, hops, queries)[a] - 1]
                matches TraceQuery::Success { addr, .. } && !addr.is_private_spec() && first_where(
                geos,
                geo_at_addr(hops, addr),
            ) is None),
    decreases queries.len(),
{
    if queries.len() > 0 {
        lemma_pending_props(geos, hops, queries.drop_last());
    }
}

/// Geolocation cache precedence: a responder address that already has a
/// cached record in the store is never scheduled for an external lookup.
pub proof fn lemma_cached_not_pending(
    geos: Seq<GeoRowV>,
    hops: Seq<HopRow>,
    queries: Seq<TraceQuery>,
    i: int,
)
    requires
        queries.len() <= 255,
        0 <= i < queries.len(),
        queries[i] matches TraceQuery::Success { addr, .. } && !(first_where(
            geos,
            geo_at_addr(hops, addr),
        ) is None),
    ensures
        !pending_spec(geos, hops, queries).contains((i + 1) as u8),
{
    lemma_pending_props(geos, hops, queries);
    if pending_spec(geos, hops, queries).contains((i + 1) as u8) {
        let a = choose|a: int|
            0 <= a < pending_spec(geos, hops, queries).len() && pending_spec(geos, hops, queries)[a]
                == (i + 1) as u8;
        assert(pending_spec(geos, hops, queries)[a] - 1 == i);
        assert(false);
    }
}

/// How the geolocation table grows while one hop's queries are handled from
/// position `i` on: for each successful query with a public responder, the
/// cached record for that address — looked up in the table as it then stands
/// — is inserted under the query's hop row; on a cache miss the fetched
/// record for that position is inserted instead, and where none was fetched,
/// nothing is.
pub open spec fn geo_adds(
    geos: Seq<GeoRowV>,
    hops: Seq<HopRow>,
    tid: int,
    ttl: u8,
    queries: Seq<TraceQuery>,
    fetched: Seq<Option<IpApiResp>>,
    i: int,
) -> Seq<GeoRowV>
    decreases queries.len() - i,
{
    if i < 0 || i >= queries.len() {
        geos
    } else {
        let next = match queries[i] {
            TraceQuery::Success { addr, .. } => {
                if !addr.is_private_spec() {
                    match first_where(geos, geo_at_addr(hops, addr)) {
                        Some(g) => match first_where(
                            hops,
                            crate::data::hop_try_at(tid, ttl, (i + 1) as u8),
                        ) {
                            Some(h) => geos.push(
                                GeoRowV { hop_id: h, rec: GeoFields { ip: addr, ..geos[g].rec } },
                            ),
                            None => geos,
                        },
                        None => match fetched[i] {
                            Some(rec) => match first_where(
                                hops,
                                crate::data::hop_try_at(tid, ttl, (i + 1) as u8),
                            ) {
                                Some(h) => geos.push(GeoRowV { hop_id: h, rec: rec@ }),
                                None => geos,
                            },
                            None => geos,
                        },
                    }
                } else {
                    geos
                }
            },
            _ => geos,
        };
        geo_adds(next, hops, tid, ttl, queries, fetched, i + 1)
    }
}

/// Handle the geolocation unit of work for one hop. For each successful
/// query with a public responder address, the cached record takes precedence;
/// on a cache miss the caller-fetched record for that try — the result of the
/// external lookup, or nothing where it failed — is inserted; lookup failures
/// leave no record and do not disturb the run.
pub fn hop_geoip(db: &mut Db, hop: &Hop, fetched: &Vec<Option<IpApiResp>>)
    requires
        old(db).store.wf(),
        hop.queries@.len() <= 255,
        fetched@.len() == hop.queries@.len(),
        old(db).store.geos@.len() + hop.queries@.len() <= usize::MAX,
    ensures
        final(db).store.wf(),
        final(db).store.routes@ == old(db).store.routes@,
        final(db).store.traces@ == old(db).store.traces@,
        final(db).store.hops@ == old(db).store.hops@,
        final(db).store.stats@ == old(db).store.stats@,
        match first_where(old(db).store.traces@, trace_with(hop.trace)) {
            None => final(db).store.geos@ == old(db).store.geos@,
            Some(tid) => geos_v(final(db).store.geos@) == geo_adds(
                geos_v(old(db).store.geos@),
                old(db).store.hops@,
                tid,
                hop.ttl,
                hop.queries@,
                fetched@,
                0,
            ),
        },
{
    let ghost target = match first_where(old(db).store.traces@, trace_with(hop.trace)) {
        Some(tid) => geo_adds(
            geos_v(old(db).store.geos@),
            old(db).store.hops@,
            tid,
            hop.ttl,
            hop.queries@,
            fetched@,
            0,
        ),
        None => geos_v(old(db).store.geos@),
    };
    let n = hop.queries.len();
    let mut i: usize = 0;
    while i < n
        invariant
            i <= n,
            n == hop.queries@.len(),
            n <= 255,
            fetched@.len() == n,
            db.store.wf(),
            db.store.routes@ == old(db).store.routes@,
            db.store.traces@ == old(db).store.traces@,
            db.store.hops@ == old(db).store.hops@,
            db.store.stats@ == old(db).store.stats@,
            old(db).store.geos@.len() + n <= usize::MAX,
            db.store.geos@.len() <= old(db).store.geos@.len() + i,
            match first_where(old(db).store.traces@, trace_with(hop.trace)) {
                None => db.store.geos@ == old(db).store.geos@,
                Some(tid) => target == geo_adds(
                    geos_v(db.store.geos@),
                    old(db).store.hops@,
                    tid,
                    hop.ttl,
                    hop.queries@,
                    fetched@,
                    i as int,
                ),
            },
            target == (match first_where(old(db).store.traces@, trace_with(hop.trace)) {
                Some(tid) => geo_adds(
                    geos_v(old(db).store.geos@),
                    old(db).store.hops@,
                    tid,
                    hop.ttl,
                    hop.queries@,
                    fetched@,
                    0,
                ),
                None => geos_v(old(db).store.geos@),
            }),
        decreases n - i,
    {
        match &hop.queries[i] {
            TraceQuery::Success { addr, .. } => {
                if !addr.is_private() {
                    let rec_opt: Option<IpApiResp> = match db.store.show_geoip_for_addr(addr) {
                        Some(rec) => Some(rec),
                        None => match &fetched[i] {
                            Some(rec) => Some(rec.duplicate()),
                            None => None,
                        },
                    };
                    match rec_opt {
                        Some(rec) => {
                            let _ = db.store.insert_geoip(
                                hop.trace,
                                hop.ttl,
                                (i as u8) + 1,
                                &rec,
                            );
                        },
                        None => {},
                    }
                }
            },
            _ => {},
        }
        i = i + 1;
    }
}

} // verus!

use tracer::data::{Db, DbMessage, DbReply, QueryKind};
use tracer::geoip::IpApiResp;
use tracer::packet::PacketBuilder;
use tracer::stats::{time_mean, time_median, sort_durations, HopStats};
use tracer::tasks::{geoip_pending, hop_geoip, hop_stats, hop_tasks, worker_count, Task};
use tracer::traceroute::{classify_response, Config, ProbeOutcome, TraceRoute};
use tracer::{Hop, Ip4, TraceQuery};

fn words_sum(bytes: &[u8]) -> u32 {
    let mut sum: u32 = 0;
    let mut i: usize = 0;
    while i + 1 < bytes.len() {
        sum += (bytes[i] as u32) * 256 + (bytes[i + 1] as u32);
        i += 2;
    }
    sum
}

fn checksum_valid(bytes: &[u8]) -> bool {
    let s = words_sum(bytes);
    s > 0 && s % 0xFFFF == 0
}

fn geo_record(ip: Ip4, city: &str) -> IpApiResp {
    IpApiResp {
        ip,
        city: Some(city.to_string()),
        region: None,
        region_code: None,
        country_code: None,
        country_code_iso3: None,
        country_name: Some("Iceland".to_string()),
        country_capital: None,
        latitude: None,
        longitude: None,
        timezone: None,
        utc_offset: None,
        asn: None,
        org: None,
    }
}

fn success(rtt: u64, addr: Ip4) -> TraceQuery {
    TraceQuery::Success { rtt, addr }
}

#[test]
fn packet_header_fields_and_checksum() {
    let src = Ip4::new(192, 0, 2, 1);
    let dst = Ip4::new(198, 51, 100, 7);
    let builder = PacketBuilder::new(src, dst);
    let p = builder.build_packet(7, 33434);
    assert_eq!(p.len(), 84);
    assert_eq!(p[0], 0x45);
    assert_eq!(p[2], 0);
    assert_eq!(p[3], 84);
    assert_eq!(p[8], 7);
    assert_eq!(p[9], 17);
    assert_eq!(&p[12..16], &[192, 0, 2, 1]);
    assert_eq!(&p[16..20], &[198, 51, 100, 7]);
    assert!(checksum_valid(&p[0..20]));
}

#[test]
fn packet_udp_fields_and_checksum() {
    let src = Ip4::new(10, 0, 0, 1);
    let dst = Ip4::new(8, 8, 8, 8);
    let p = PacketBuilder::new(src, dst).build_packet(1, 33500);
    // Destination port, big endian.
    assert_eq!((p[22] as u16) * 256 + p[23] as u16, 33500);
    // UDP length 64.
    assert_eq!(p[24], 0);
    assert_eq!(p[25], 64);
    // Zero-filled payload.
    for i in 28..84 {
        assert_eq!(p[i], 0);
    }
    // Checksum over the pseudo-header and the segment.
    let mut buf = vec![10, 0, 0, 1, 8, 8, 8, 8, 0, 17, 0, 64];
    buf.extend_from_slice(&p[20..84]);
    assert!(checksum_valid(&buf));
}

#[test]
fn packet_corrupting_any_header_byte_breaks_checksum() {
    let src = Ip4::new(203, 0, 113, 5);
    let dst = Ip4::new(192, 0, 2, 200);
    let p = PacketBuilder::new(src, dst).build_packet(12, 33434);
    assert!(checksum_valid(&p[0..20]));
    for i in 0..20 {
        let mut header = p[0..20].to_vec();
        header[i] = header[i].wrapping_add(1);
        assert!(!checksum_valid(&header), "byte {} left the checksum valid", i);
    }
}

#[test]
fn sequencer_stops_at_destination() {
    let src = Ip4::new(192, 0, 2, 1);
    let dst = Ip4::new(198, 51, 100, 7);
    let tr = TraceRoute::new(src, dst, Config::default());
    // 29 steps available (hop ceiling 30); the destination answers at once.
    let mut outcomes: Vec<Vec<TraceQuery>> = Vec::new();
    outcomes.push(vec![success(5, dst), TraceQuery::Timeout, TraceQuery::Timeout]);
    for _ in 1..29 {
        outcomes.push(vec![TraceQuery::Timeout, TraceQuery::Timeout, TraceQuery::Timeout]);
    }
    let hops = tr.traceroute(outcomes);
    assert_eq!(hops.len(), 1);
    assert_eq!(hops[0].ttl, 1);
    assert!(hops[0].is_ip(dst));
}

#[test]
fn sequencer_all_timeouts_reaches_ceiling() {
    let src = Ip4::new(192, 0, 2, 1);
    let dst = Ip4::new(198, 51, 100, 7);
    let config = Config::default().with_max_hops(5).with_tries(1);
    let tr = TraceRoute::new(src, dst, config);
    let outcomes: Vec<Vec<TraceQuery>> = (0..4).map(|_| vec![TraceQuery::Timeout]).collect();
    let hops = tr.traceroute(outcomes);
    assert_eq!(hops.len(), 4);
    for (i, hop) in hops.iter().enumerate() {
        assert_eq!(hop.ttl as usize, i + 1);
        assert!(!hop.is_ip(dst));
    }
}

#[test]
fn classify_accepts_the_three_types() {
    let addr = Ip4::new(8, 8, 4, 4);
    for t in [0u8, 3, 11] {
        let q = classify_response(ProbeOutcome::Received { icmp_type: t, rtt: 17, addr });
        match q {
            TraceQuery::Success { rtt, addr: a } => {
                assert_eq!(rtt, 17);
                assert_eq!(a, addr);
            }
            _ => panic!("type {} not classified as success", t),
        }
    }
}

#[test]
fn classify_rejects_other_types_and_timeouts() {
    let addr = Ip4::new(8, 8, 4, 4);
    match classify_response(ProbeOutcome::Received { icmp_type: 5, rtt: 1, addr }) {
        TraceQuery::Failure(m) => assert_eq!(m, "wrong packet"),
        _ => panic!("unexpected classification"),
    }
    assert!(matches!(classify_response(ProbeOutcome::TimedOut), TraceQuery::Timeout));
    match classify_response(ProbeOutcome::ChannelError("send failed".to_string())) {
        TraceQuery::Failure(m) => assert_eq!(m, "send failed"),
        _ => panic!("unexpected classification"),
    }
}

#[test]
fn stats_odd_list() {
    let s = HopStats::from_durations(&vec![10, 20, 30]);
    assert_eq!(s.mean, Some(20));
    assert_eq!(s.median, Some(20));
}

#[test]
fn stats_even_list() {
    let s = HopStats::from_durations(&vec![10, 20]);
    assert_eq!(s.mean, Some(15));
    assert_eq!(s.median, Some(15));
}

#[test]
fn stats_empty_list() {
    let s = HopStats::from_durations(&vec![]);
    assert_eq!(s.mean, None);
    assert_eq!(s.median, None);
    assert_eq!(time_mean(&vec![]), None);
    assert_eq!(time_median(&vec![]), None);
}

#[test]
fn stats_sorting() {
    let sorted = sort_durations(&vec![30, 10, 20, 10]);
    assert_eq!(sorted, vec![10, 10, 20, 30]);
}

#[test]
fn worker_pool_size() {
    assert_eq!(worker_count(1), 1);
    assert_eq!(worker_count(2), 1);
    assert_eq!(worker_count(3), 1);
    assert_eq!(worker_count(4), 2);
    assert_eq!(worker_count(16), 8);
}

#[test]
fn config_builders() {
    let c = Config::default();
    assert_eq!(c.port, 33434);
    assert_eq!(c.max_hops, 30);
    assert_eq!(c.tries, 3);
    assert_eq!(c.timeout, 5000);
    let c = c.with_port(40000).with_max_hops(10).with_tries(2).with_timeout(700);
    assert_eq!(c.port, 40000);
    assert_eq!(c.max_hops, 10);
    assert_eq!(c.tries, 2);
    assert_eq!(c.timeout, 700);
}

#[test]
fn private_ranges() {
    assert!(Ip4::new(10, 1, 2, 3).is_private());
    assert!(Ip4::new(172, 16, 0, 1).is_private());
    assert!(Ip4::new(172, 31, 255, 255).is_private());
    assert!(!Ip4::new(172, 32, 0, 1).is_private());
    assert!(Ip4::new(192, 168, 1, 1).is_private());
    assert!(!Ip4::new(8, 8, 8, 8).is_private());
}

#[test]
fn route_inserts_stay_unique() {
    let mut db = Db::new();
    let src = Ip4::new(192, 0, 2, 1);
    let dst = Ip4::new(198, 51, 100, 7);
    let a = db.store.insert_route(&src, &dst);
    let b = db.store.insert_route(&src, &dst);
    assert_eq!(a, b);
    assert_eq!(db.store.routes.len(), 1);
    let c = db.store.insert_route(&dst, &src);
    assert_ne!(a, c);
    assert_eq!(db.store.routes.len(), 2);
}

#[test]
fn inserts_need_their_references() {
    let mut db = Db::new();
    let src = Ip4::new(192, 0, 2, 1);
    let dst = Ip4::new(198, 51, 100, 7);
    assert_eq!(db.store.insert_trace(&src, &dst, 77), None);
    assert_eq!(db.store.insert_hop(77, 1, &vec![TraceQuery::Timeout]), None);
    assert!(!db.store.insert_stats(77, 1, &HopStats { mean: None, median: None }));
    assert!(!db.store.insert_geoip(77, 1, 1, &geo_record(dst, "Reykjavik")));
    assert!(db.store.traces.is_empty());
    assert!(db.store.hops.is_empty());
    assert!(db.store.stats.is_empty());
    assert!(db.store.geos.is_empty());
}

#[test]
fn export_round_trip_covers_every_try_once() {
    let mut db = Db::new();
    let src = Ip4::new(192, 0, 2, 1);
    let dst = Ip4::new(198, 51, 100, 7);
    db.store.insert_route(&src, &dst);
    db.store.insert_trace(&src, &dst, 42).unwrap();
    let responder = Ip4::new(203, 0, 113, 9);
    for ttl in 1u8..=3 {
        let queries = vec![
            success(10 * ttl as u64, responder),
            TraceQuery::Timeout,
        ];
        db.store.insert_hop(42, ttl, &queries).unwrap();
    }
    let rows = db.store.export_route(&src, &dst);
    assert_eq!(rows.len(), 6);
    let mut seen: Vec<(u8, u8)> = Vec::new();
    for row in &rows {
        assert_eq!(row.trace, 42);
        assert_eq!(row.source, src);
        assert_eq!(row.destination, dst);
        assert!(!seen.contains(&(row.ttl, row.query)));
        seen.push((row.ttl, row.query));
        if row.query == 1 {
            assert_eq!(row.query_result, "success");
            assert_eq!(row.addr, Some(responder));
            assert_eq!(row.rtt, Some(10 * row.ttl as u64));
        } else {
            assert_eq!(row.query_result, "timeout");
            assert_eq!(row.addr, None);
            assert_eq!(row.rtt, None);
        }
    }
    for ttl in 1u8..=3 {
        for query in 1u8..=2 {
            assert!(seen.contains(&(ttl, query)));
        }
    }
}

#[test]
fn export_of_unknown_route_is_empty() {
    let db = Db::new();
    let rows = db.store.export_route(&Ip4::new(1, 1, 1, 1), &Ip4::new(2, 2, 2, 2));
    assert!(rows.is_empty());
}

#[test]
fn export_failure_kind() {
    let mut db = Db::new();
    let src = Ip4::new(192, 0, 2, 1);
    let dst = Ip4::new(198, 51, 100, 7);
    db.store.insert_route(&src, &dst);
    db.store.insert_trace(&src, &dst, 9).unwrap();
    db.store
        .insert_hop(9, 1, &vec![TraceQuery::Failure("wrong packet".to_string())])
        .unwrap();
    let rows = db.store.export_route(&src, &dst);
    assert_eq!(rows.len(), 1);
    assert_eq!(rows[0].query_result, "fail");
}

#[test]
fn hop_stats_computes_over_sorted_successes() {
    let mut db = Db::new();
    let src = Ip4::new(192, 0, 2, 1);
    let dst = Ip4::new(198, 51, 100, 7);
    db.store.insert_route(&src, &dst);
    db.store.insert_trace(&src, &dst, 5).unwrap();
    let responder = Ip4::new(203, 0, 113, 9);
    let queries = vec![success(30, responder), success(10, responder), success(20, responder)];
    db.store.insert_hop(5, 2, &queries).unwrap();
    let hop = Hop { trace: 5, ttl: 2, source: src, destination: dst, queries };
    assert!(hop_stats(&mut db, &hop));
    assert_eq!(db.store.stats.len(), 3);
    for row in &db.store.stats {
        assert_eq!(row.mean, Some(20));
        assert_eq!(row.median, Some(20));
    }
}

#[test]
fn geoip_cache_takes_precedence() {
    let mut db = Db::new();
    let src = Ip4::new(192, 0, 2, 1);
    let dst = Ip4::new(198, 51, 100, 7);
    db.store.insert_route(&src, &dst);
    db.store.insert_trace(&src, &dst, 5).unwrap();
    let cached_addr = Ip4::new(203, 0, 113, 9);
    let fresh_addr = Ip4::new(203, 0, 113, 10);
    let private_addr = Ip4::new(10, 0, 0, 1);
    let queries = vec![success(1, cached_addr), success(2, fresh_addr), success(3, private_addr)];
    db.store.insert_hop(5, 1, &queries).unwrap();
    db.store.insert_geoip(5, 1, 1, &geo_record(cached_addr, "Reykjavik"));
    let hop = Hop { trace: 5, ttl: 1, source: src, destination: dst, queries };
    // Only the fresh public responder needs the external collaborator: the
    // cached address and the private address are not handed out for lookup.
    let pending = geoip_pending(&db, &hop);
    assert_eq!(pending, vec![2]);
    // Handle the geolocation unit; the lookup double records what it served.
    let mut lookup_calls: u32 = 0;
    let mut fetched: Vec<Option<IpApiResp>> = vec![None, None, None];
    for idx in &pending {
        lookup_calls += 1;
        fetched[(*idx - 1) as usize] = Some(geo_record(fresh_addr, "Akureyri"));
    }
    assert_eq!(lookup_calls, 1);
    hop_geoip(&mut db, &hop, &fetched);
    // One row existed; the cached record was reused for try 1 and the fetched
    // record inserted for try 2; the private address got nothing.
    assert_eq!(db.store.geos.len(), 3);
    assert_eq!(db.store.geos[1].geo.city.as_deref(), Some("Reykjavik"));
    assert_eq!(db.store.geos[2].geo.city.as_deref(), Some("Akureyri"));
    let shown = db.store.show_geoip_for_addr(&fresh_addr).unwrap();
    assert_eq!(shown.ip, fresh_addr);
    assert_eq!(shown.city.as_deref(), Some("Akureyri"));
    assert!(db.store.show_geoip_for_addr(&Ip4::new(203, 0, 113, 11)).is_none());
}

#[test]
fn actor_serializes_inserts_and_exports() {
    let mut db = Db::new();
    let src = Ip4::new(192, 0, 2, 1);
    let dst = Ip4::new(198, 51, 100, 7);
    let route = tracer::Route { source: src, destination: dst };
    let trace = tracer::Trace { id: 99, route: route.clone() };
    match db.handle_message(&DbMessage::InsertRoute { route: route.clone() }) {
        DbReply::Done(ok) => assert!(ok),
        _ => panic!("unexpected reply"),
    }
    match db.handle_message(&DbMessage::InsertTrace { trace }) {
        DbReply::Done(ok) => assert!(ok),
        _ => panic!("unexpected reply"),
    }
    let n = 5u8;
    for ttl in 1..=n {
        let hop = Hop {
            trace: 99,
            ttl,
            source: src,
            destination: dst,
            queries: vec![TraceQuery::Timeout],
        };
        match db.handle_message(&DbMessage::InsertHop { hop }) {
            DbReply::Done(ok) => assert!(ok),
            _ => panic!("unexpected reply"),
        }
    }
    match db.handle_message(&DbMessage::ExportHop { route }) {
        DbReply::Export(rows) => {
            assert_eq!(rows.len(), n as usize);
            let mut ttls: Vec<u8> = rows.iter().map(|r| r.ttl).collect();
            ttls.sort_unstable();
            assert_eq!(ttls, vec![1, 2, 3, 4, 5]);
            for r in &rows {
                assert_eq!(r.query, 1);
            }
        }
        _ => panic!("unexpected reply"),
    }
    match db.handle_message(&DbMessage::ShowGeoip { addr: Ip4::new(1, 2, 3, 4) }) {
        DbReply::Geoip(rec) => assert!(rec.is_none()),
        _ => panic!("unexpected reply"),
    }
}

#[test]
fn dispatcher_fans_out_three_tasks_in_order() {
    let src = Ip4::new(192, 0, 2, 1);
    let dst = Ip4::new(198, 51, 100, 7);
    let hop = Hop {
        trace: 7,
        ttl: 3,
        source: src,
        destination: dst,
        queries: vec![success(4, dst), TraceQuery::Failure("x".to_string())],
    };
    let tasks = hop_tasks(hop);
    assert_eq!(tasks.len(), 3);
    match &tasks[0] {
        Task::HopLog(h) => {
            assert_eq!(h.ttl, 3);
            assert_eq!(h.queries.len(), 2);
        }
        _ => panic!("first task is not the log unit"),
    }
    assert!(matches!(&tasks[1], Task::HopStats(_)));
    match &tasks[2] {
        Task::HopGeoIp(h) => assert_eq!(h.trace, 7),
        _ => panic!("third task is not the geolocation unit"),
    }
}

#[test]
fn hop_is_ip_checks_successful_responders() {
    let dst = Ip4::new(198, 51, 100, 7);
    let other = Ip4::new(203, 0, 113, 1);
    let hop = Hop {
        trace: 1,
        ttl: 1,
        source: Ip4::new(192, 0, 2, 1),
        destination: dst,
        queries: vec![TraceQuery::Timeout, success(9, other)],
    };
    assert!(hop.is_ip(other));
    assert!(!hop.is_ip(dst));
}

#[test]
fn trace_route_builds_well_formed_probes() {
    let src = Ip4::new(192, 0, 2, 1);
    let dst = Ip4::new(198, 51, 100, 7);
    let tr = TraceRoute::new(src, dst, Config::default().with_port(34000));
    let p = tr.build_packet(9);
    assert_eq!(p.len(), 84);
    assert_eq!(p[8], 9);
    assert_eq!((p[22] as u16) * 256 + p[23] as u16, 34000);
    assert!(checksum_valid(&p[0..20]));
}

#[test]
fn stats_single_element_and_large_values() {
    let s = HopStats::from_durations(&vec![u64::MAX, u64::MAX]);
    assert_eq!(s.mean, Some(u64::MAX));
    assert_eq!(s.median, Some(u64::MAX));
    let s = HopStats::from_durations(&vec![7]);
    assert_eq!(s.mean, Some(7));
    assert_eq!(s.median, Some(7));
}

#[test]
fn query_kind_is_recorded_per_try() {
    let mut db = Db::new();
    let src = Ip4::new(192, 0, 2, 1);
    let dst = Ip4::new(198, 51, 100, 7);
    db.store.insert_route(&src, &dst);
    db.store.insert_trace(&src, &dst, 3).unwrap();
    let queries = vec![
        TraceQuery::Timeout,
        success(8, dst),
        TraceQuery::Failure("wrong packet".to_string()),
    ];
    let ids = db.store.insert_hop(3, 1, &queries).unwrap();
    assert_eq!(ids.len(), 3);
    assert!(matches!(db.store.hops[ids[0]].kind, QueryKind::Timeout));
    assert!(matches!(db.store.hops[ids[1]].kind, QueryKind::Success));
    assert!(matches!(db.store.hops[ids[2]].kind, QueryKind::Fail));
    assert_eq!(db.store.hops[ids[1]].addr, Some(dst));
    assert_eq!(db.store.hops[ids[1]].rtt, Some(8));
    assert_eq!(db.store.hops[ids[0]].query, 1);
    assert_eq!(db.store.hops[ids[1]].query, 2);
    assert_eq!(db.store.hops[ids[2]].query, 3);
}

use vstd::prelude::*;

use crate::packet::{probe_packet_ok, PacketBuilder};
use crate::{queries_reach, Hop, Ip4, Trace, TraceQuery};

verus! {

/// Traceroute configurations. The timeout is carried in whole milliseconds.
#[derive(Debug, Clone, Copy, PartialEq, Eq, Structural)]
pub struct Config {
    pub port: u16,
    pub max_hops: u8,
    pub tries: u8,
    pub timeout: u64,
}

impl Default for Config {
    fn default() -> (c: Config)
        ensures
            c == (Config { port: 33434u16, max_hops: 30u8, tries: 3u8, timeout: 5000u64 }),
    {
        Config { port: 33434, max_hops: 30, tries: 3, timeout: 5000 }
    }
}

impl Config {
    /// Builder: Port for traceroute.
    pub fn with_port(self, port: u16) -> (c: Config)
        ensures
            c == (Config { port, ..self }),
    {
        Config { port, ..self }
    }

    /// Builder: Maximum number of hops.
    pub fn with_max_hops(self, max_hops: u8) -> (c: Config)
        ensures
            c == (Config { max_hops, ..self }),
    {
        Config { max_hops, ..self }
    }

    /// Builder: number of queries for each hop.
    pub fn with_tries(self, tries: u8) -> (c: Config)
        ensures
            c == (Config { tries, ..self }),
    {
        Config { tries, ..self }
    }

    /// Builder: Timeout per query, in milliseconds.
    pub fn with_timeout(self, timeout: u64) -> (c: Config)
        ensures
            c == (Config { timeout, ..self }),
    {
        Config { timeout, ..self }
    }
}

/// The control message types accepted as proof that a responder was reached:
/// echo-reply, destination-unreachable and time-exceeded.
pub open spec fn accepted_icmp_type(t: u8) -> bool {
    t == 0 || t == 3 || t == 11
}

/// What one probe's send-and-wait produced, as plain values: the first
/// inbound control message with its type, the elapsed time and the responder,
/// or no message before the timeout, or a transport error.
pub enum ProbeOutcome {
    Received { icmp_type: u8, rtt: u64, addr: Ip4 },
    TimedOut,
    ChannelError(String),
}

/// Classify a probe outcome. A received message counts as success only when
/// its control-message type is echo-reply, destination-unreachable or
/// time-exceeded; any other type is the failure "wrong packet". No message
/// before the timeout is a timeout, and a transport error surfaces as a
/// failure carrying its text.
pub fn classify_response(outcome: ProbeOutcome) -> (q: TraceQuery)
    ensures
        match outcome {
            ProbeOutcome::Received { icmp_type, rtt, addr } => {
                if accepted_icmp_type(icmp_type) {
                    q == (TraceQuery::Success { rtt, addr })
                } else {
                    q matches TraceQuery::Failure(m) && m@ == "wrong packet"@
                }
            },
            ProbeOutcome::TimedOut => q == TraceQuery::Timeout,
            ProbeOutcome::ChannelError(e) => q matches TraceQuery::Failure(m) && m == e,
        },
{
    match outcome {
        ProbeOutcome::Received { icmp_type, rtt, addr } => {
            if icmp_type == 0 || icmp_type == 3 || icmp_type == 11 {
                TraceQuery::Success { rtt, addr }
            } else {
                TraceQuery::Failure("wrong packet".to_owned())
            }
        },
        ProbeOutcome::TimedOut => TraceQuery::Timeout,
        ProbeOutcome::ChannelError(e) => TraceQuery::Failure(e),
    }
}

/// How many hops the sequencer yields when driven from `ttl` up to the hop
/// ceiling, when the queries collected at step t are `rows[t - 1]`: every
/// step below the ceiling yields one hop, and the first hop that reaches the
/// destination is the last one yielded.
pub open spec fn hops_yielded(rows: Seq<Seq<TraceQuery>>, dest: Ip4, ttl: int, max_hops: int) -> int
    decreases max_hops - ttl,
{
    if ttl >= max_hops {
        0
    } else if queries_reach(rows[ttl - 1], dest) {
        1
    } else {
        1 + hops_yielded(rows, dest, ttl + 1, max_hops)
    }
}

/// The query results of each step, as mathematical sequences.
pub open spec fn rows_of(outcomes: Seq<Vec<TraceQuery>>) -> Seq<Seq<TraceQuery>> {
    outcomes.map_values(|v: Vec<TraceQuery>| v@)
}

/// Traceroute instance containing destination address and configurations. A
/// `TraceRoute` owns the per-trace identity and builds the probe packets; the
/// sending and receiving of probes happens outside it, and its iterator
/// consumes the collected query results.
pub struct TraceRoute {
    pub trace: Trace,
    pub config: Config,
    pub packet_builder: PacketBuilder,
}

impl TraceRoute {
    /// Creates new instance of Traceroute.
    pub fn new(source: Ip4, destination: Ip4, config: Config) -> (t: TraceRoute)
        ensures
            t.trace.route.source == source,
            t.trace.route.destination == destination,
            t.config == config,
            t.packet_builder.source_ip == source,
            t.packet_builder.destination_ip == destination,
    {
        let trace = Trace::new(source, destination);
        let packet_builder = PacketBuilder::new(source, destination);
        TraceRoute { trace, config, packet_builder }
    }

    /// Build the probe packet for one try at the given time-to-live.
    pub fn build_packet(&self, ttl: u8) -> (p: Vec<u8>)
        ensures
            probe_packet_ok(
                self.packet_builder.source_ip,
                self.packet_builder.destination_ip,
                ttl,
                self.config.port,
                p@,
            ),
    {
        self.packet_builder.build_packet(ttl, self.config.port)
    }

    /// Return an iterator of hops over this trace.
    pub fn iter(&self) -> (it: TraceRouteIter)
        ensures
            it.ttl == 1,
            !it.done,
            it.max_hops == self.config.max_hops,
            it.destination == self.trace.route.destination,
    {
        TraceRouteIter {
            done: false,
            ttl: 1,
            max_hops: self.config.max_hops,
            destination: self.trace.route.destination,
        }
    }

    /// Assemble the hop for one time-to-live step from its collected query
    /// results.
    pub fn hop(&self, ttl: u8, queries: Vec<TraceQuery>) -> (h: Hop)
        ensures
            h.trace == self.trace.id,
            h.ttl == ttl,
            h.source == self.trace.route.source,
            h.destination == self.trace.route.destination,
            h.queries == queries,
    {
        Hop {
            queries,
            ttl,
            trace: self.trace.id,
            source: self.trace.route.source,
            destination: self.trace.route.destination,
        }
    }

    /// Run a complete traceroute over the given per-step query results
    /// (`outcomes[t - 1]` holds the queries collected at time-to-live t) and
    /// return the list of all hops that are part of this trace route.
    pub fn traceroute(&self, outcomes: Vec<Vec<TraceQuery>>) -> (hops: Vec<Hop>)
        requires
            outcomes@.len() + 1 >= self.config.max_hops,
        ensures
            hops@.len() == hops_yielded(
                rows_of(outcomes@),
                self.trace.route.destination,
                1,
                self.config.max_hops as int,
            ),
            forall|i: int|
                0 <= i < hops@.len() ==> {
                    &&& (#[trigger] hops@[i]).trace == self.trace.id
                    &&& hops@[i].ttl == i + 1
                    &&& hops@[i].source == self.trace.route.source
                    &&& hops@[i].destination == self.trace.route.destination
                    &&& hops@[i].queries@ == outcomes@[i]@
                },
    {
        let ghost rows = rows_of(outcomes@);
        let ghost dest = self.trace.route.destination;
        let ghost max = self.config.max_hops as int;
        let ghost total = hops_yielded(rows, dest, 1, max);
        let mut hops: Vec<Hop> = Vec::new();
        let mut rest = outcomes;
        let mut it = self.iter();
        let mut step: usize = 0;
        proof {
            assert(rows.skip(0) =~= rows);
        }
        while !it.is_finished()
            invariant
                rows_of(rest@) == rows.skip(step as int),
                dest == self.trace.route.destination,
                max == self.config.max_hops as int,
                total == hops_yielded(rows, dest, 1, max),
                rows.len() + 1 >= max,
                step <= rows.len(),
                it.max_hops == self.config.max_hops,
                it.destination == dest,
                1 <= it.ttl,
                step == it.ttl - 1,
                hops@.len() == step,
                it.done ==> total == step,
                !it.done ==> total == step + hops_yielded(rows, dest, it.ttl as int, max),
                forall|i: int|
                    0 <= i < hops@.len() ==> {
                        &&& (#[trigger] hops@[i]).trace == self.trace.id
                        &&& hops@[i].ttl == i + 1
                        &&& hops@[i].source == self.trace.route.source
                        &&& hops@[i].destination == self.trace.route.destination
                        &&& hops@[i].queries@ == rows[i]
                    },
            decreases max - it.ttl + (if it.done {
                0int
            } else {
                1int
            }),
        {
            let ttl = it.ttl;
            let ghost old_rest = rest@;
            proof {
                assert(rows_of(old_rest).len() == old_rest.len());
                assert(rows.skip(step as int).len() == rows.len() - step);
            }
            let queries = rest.remove(0);
            proof {
                assert(rows_of(old_rest)[0] == old_rest[0]@);
                assert(queries@ == rows[step as int]);
                assert forall|i: int| 0 <= i < rest@.len() implies #[trigger] rows_of(rest@)[i]
                    == rows.skip(step as int + 1)[i] by {
                    assert(rest@[i] == old_rest[i + 1]);
                    assert(rows_of(old_rest)[i + 1] == old_rest[i + 1]@);
                    assert(rows.skip(step as int)[i + 1] == rows[step as int + 1 + i]);
                }
                assert(rows_of(rest@) =~= rows.skip(step as int + 1));
            }
            let hop = self.hop(ttl, queries);
            it.advance(&hop);
            hops.push(hop);
            step = step + 1;
        }
        hops
    }
}

/// An iterator over a trace. Yields the sequencer's position for each hop of
/// a trace: the current time-to-live and whether the destination was seen.
pub struct TraceRouteIter {
    pub ttl: u8,
    pub done: bool,
    pub max_hops: u8,
    pub destination: Ip4,
}

impl TraceRouteIter {
    /// Test whether the trace has been completed or can be continued.
    pub fn is_finished(&self) -> (r: bool)
        ensures
            r == (self.done || self.ttl >= self.max_hops),
    {
        self.done || self.ttl >= self.max_hops
    }

    /// Record one collected hop: move to the next time-to-live, and remember
    /// whether some query of the hop reached the destination, which makes the
    /// next call to `is_finished` terminate the trace.
    pub fn advance(&mut self, hop: &Hop)
        requires
            !(old(self).done || old(self).ttl >= old(self).max_hops),
        ensures
            final(self).ttl == old(self).ttl + 1,
            final(self).done == (old(self).done || queries_reach(
                hop.queries@,
                old(self).destination,
            )),
            final(self).max_hops == old(self).max_hops,
            final(self).destination == old(self).destination,
    {
        self.ttl = self.ttl + 1;
        if hop.is_ip(self.destination) {
            self.done = true;
        }
    }
}

/// Sequencer termination at the destination: when the queries of the first
/// hop already reach the destination, the sequence yields exactly one hop.
pub proof fn lemma_sequencer_stops_at_destination(
    rows: Seq<Seq<TraceQuery>>,
    dest: Ip4,
    max_hops: int,
)
    requires
        max_hops >= 2,
        rows.len() >= 1,
        rows[0].len() >= 1,
        rows[0][0] matches TraceQuery::Success { addr, .. } && addr == dest,
    ensures
        hops_yielded(rows, dest, 1, max_hops) == 1,
        queries_reach(rows[0], dest),
{
    assert(queries_reach(rows[0], dest));
}

/// Sequencer ceiling: when every query of every step times out, the sequence
/// yields one hop for each time-to-live from 1 up to, and not including, the
/// hop ceiling.
pub proof fn lemma_sequencer_ceiling(rows: Seq<Seq<TraceQuery>>, dest: Ip4, max_hops: int)
    requires
        max_hops >= 1,
        rows.len() + 1 >= max_hops,
        forall|i: int, j: int|
            0 <= i < rows.len() && 0 <= j < rows[i].len() ==> #[trigger] rows[i][j]
                matches TraceQuery::Timeout,
    ensures
        hops_yielded(rows, dest, 1, max_hops) == max_hops - 1,
{
    lemma_ceiling_from(rows, dest, 1, max_hops);
}

proof fn lemma_ceiling_from(rows: Seq<Seq<TraceQuery>>, dest: Ip4, ttl: int, max_hops: int)
    requires
        1 <= ttl <= max_hops,
        rows.len() + 1 >= max_hops,
        forall|i: int, j: int|
            0 <= i < rows.len() && 0 <= j < rows[i].len() ==> #[trigger] rows[i][j]
                matches TraceQuery::Timeout,
    ensures
        hops_yielded(rows, dest, ttl, max_hops) == max_hops - ttl,
    decreases max_hops - ttl,
{
    if ttl >= max_hops {
    } else {
        assert(!queries_reach(rows[ttl - 1], dest));
        lemma_ceiling_from(rows, dest, ttl + 1, max_hops);
    }
}

} // verus!

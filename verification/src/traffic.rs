use vstd::prelude::*;
use crate::text::str_eq;

verus! {

/// The traffic levels of the mock traffic generator.
#[derive(Clone, Copy, Debug, PartialEq, Eq, Structural)]
pub enum TrafficLevel {
    Low,
    Medium,
    High,
}

/// The level named by the traffic selector: `low`, `high`, and `medium` for
/// anything else.
pub fn traffic_level(name: &str) -> (l: TrafficLevel)
    ensures
        l == (if name@ == "low"@ {
            TrafficLevel::Low
        } else if name@ == "high"@ {
            TrafficLevel::High
        } else {
            TrafficLevel::Medium
        }),
{
    if str_eq(name, "low") {
        TrafficLevel::Low
    } else if str_eq(name, "high") {
        TrafficLevel::High
    } else {
        TrafficLevel::Medium
    }
}

/// A connection as the traffic generator sees it.
#[derive(Clone, Debug)]
pub struct ConnectionLink {
    pub id: i64,
    pub status: String,
    pub bandwidth_mbps: Option<i64>,
}

/// A connection that receives generated traffic, with the capacity used.
#[derive(Clone, Copy, Debug, PartialEq, Eq, Structural)]
pub struct TrafficTarget {
    pub connection_id: i64,
    pub bandwidth_mbps: i64,
}

pub open spec fn target_of(c: ConnectionLink) -> Seq<TrafficTarget> {
    if c.status@ == "active"@ {
        seq![
            TrafficTarget {
                connection_id: c.id,
                bandwidth_mbps: match c.bandwidth_mbps {
                    Some(b) => b,
                    None => 1000,
                },
            },
        ]
    } else {
        seq![]
    }
}

/// The connections that get traffic: the active ones, in order.
pub open spec fn traffic_targets_spec(links: Seq<ConnectionLink>) -> Seq<TrafficTarget>
    decreases links.len(),
{
    if links.len() == 0 {
        seq![]
    } else {
        traffic_targets_spec(links.drop_last()) + target_of(links.last())
    }
}

/// Chooses the connections that get mock traffic: each active connection, with
/// its bandwidth or 1000 Mbps when it has none. Inactive connections are
/// skipped; one metric is generated per target.
pub fn traffic_targets(links: &Vec<ConnectionLink>) -> (r: Vec<TrafficTarget>)
    ensures
        r@ == traffic_targets_spec(links@),
{
    let mut r: Vec<TrafficTarget> = Vec::new();
    let mut i: usize = 0;
    while i < links.len()
        invariant
            i <= links.len(),
            r@ == traffic_targets_spec(links@.take(i as int)),
        decreases links.len() - i,
    {
        let ghost before = r@;
        let c = &links[i];
        if str_eq(c.status.as_str(), "active") {
            let bw = match c.bandwidth_mbps {
                Some(b) => b,
                None => 1000,
            };
            r.push(TrafficTarget { connection_id: c.id, bandwidth_mbps: bw });
        }
        proof {
            assert(links@.take(i + 1).drop_last() =~= links@.take(i as int));
            assert(links@.take(i + 1).last() == links@[i as int]);
            assert(r@ =~= before + target_of(links@[i as int]));
        }
        i = i + 1;
    }
    proof { assert(links@.take(links.len() as int) =~= links@); }
    r
}

/// Metrics older than this timestamp (one hour before `now`, in seconds) are
/// deleted by the cleanup.
pub fn retention_cutoff(now_secs: i64) -> (t: i64)
    requires
        now_secs >= i64::MIN + 3600,
    ensures
        t == now_secs - 3600,
{
    now_secs - 3600
}


/// Law: traffic is simulated for the active connections alone, in their order,
/// each at its own bandwidth, or at 1000 Mbps when it has none: adding a
/// connection to the list adds exactly its target, if it is active.
pub proof fn law_traffic_targets(links: Seq<ConnectionLink>, l: ConnectionLink)
    ensures
        traffic_targets_spec(Seq::<ConnectionLink>::empty()) == Seq::<TrafficTarget>::empty(),
        l.status@ == "active"@ ==> traffic_targets_spec(links.push(l)) == traffic_targets_spec(links).push(
            TrafficTarget {
                connection_id: l.id,
                bandwidth_mbps: if l.bandwidth_mbps is Some { l.bandwidth_mbps->0 } else { 1000 },
            },
        ),
        l.status@ != "active"@ ==> traffic_targets_spec(links.push(l)) == traffic_targets_spec(links),
{
    assert(links.push(l).drop_last() =~= links);
    assert(traffic_targets_spec(links) + seq![
        TrafficTarget {
            connection_id: l.id,
            bandwidth_mbps: if l.bandwidth_mbps is Some { l.bandwidth_mbps->0 } else { 1000 },
        },
    ] =~= traffic_targets_spec(links).push(
        TrafficTarget {
            connection_id: l.id,
            bandwidth_mbps: if l.bandwidth_mbps is Some { l.bandwidth_mbps->0 } else { 1000 },
        },
    ));
    assert(traffic_targets_spec(links) + Seq::<TrafficTarget>::empty() =~= traffic_targets_spec(links));
}

} // verus!

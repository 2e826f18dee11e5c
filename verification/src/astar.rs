//! Bounded best-first search for the sub-path between two candidates.
//!
//! The search expands successor edges obtained from the map provider,
//! ordered by cumulative cost plus the provider's remaining-distance
//! estimate, keeps visited-edge bookkeeping in an insertion-ordered map
//! keyed by edge id, and reconstructs the found path by walking parent
//! links backward.

use vstd::prelude::*;
use vstd::std_specs::vec::axiom_spec_len;
use crate::candidate_edge::CandidateEdge;
use crate::decoding_parameters::DecodingParameters;
use crate::edge::{edge_eq, Edge, GeoPoint};
use crate::errors::OpenLrErr;
use crate::frc::FRC;
use crate::map::MapServer;
use crate::request_context::RequestContext;

verus! {

/// The outside insertion-ordered map that stores, per visited edge id,
/// the parent's insertion index and the best known cost.
#[verifier::external_type_specification]
#[verifier::external_body]
#[verifier::reject_recursive_types(K)]
#[verifier::reject_recursive_types(V)]
#[verifier::reject_recursive_types(S)]
pub struct ExIndexMap<K, V, S>(indexmap::IndexMap<K, V, S>);

/// What the visited map holds: each visited edge id mapped to its
/// recorded parent index and best known cost.
pub uninterp spec fn visited_entries(
    m: indexmap::IndexMap<i64, (usize, u64), std::collections::hash_map::RandomState>,
) -> Map<i64, (usize, u64)>;

/// The insertion order of the visited map's keys.
pub uninterp spec fn visited_order(
    m: indexmap::IndexMap<i64, (usize, u64), std::collections::hash_map::RandomState>,
) -> Seq<i64>;

/// Relies on `IndexMap::new`: a new map holds nothing.
#[verifier::external_body]
fn im_new() -> (m: indexmap::IndexMap<i64, (usize, u64), std::collections::hash_map::RandomState>)
    ensures
        visited_entries(m).dom().len() == 0,
        visited_entries(m).dom().finite(),
        visited_order(m).len() == 0,
{
    indexmap::IndexMap::new()
}

/// Relies on `IndexMap::insert`: the value under the key is replaced
/// and the old one returned; a new key goes to the end of the order,
/// an existing key keeps its place.
#[verifier::external_body]
fn im_insert(
    m: &mut indexmap::IndexMap<i64, (usize, u64), std::collections::hash_map::RandomState>,
    k: i64,
    v: (usize, u64),
) -> (old_v: Option<(usize, u64)>)
    ensures
        visited_entries(*final(m)) == visited_entries(*old(m)).insert(k, v),
        old_v == (if visited_entries(*old(m)).dom().contains(k) {
            Some(visited_entries(*old(m))[k])
        } else {
            Option::<(usize, u64)>::None
        }),
        visited_order(*final(m)) == (if visited_entries(*old(m)).dom().contains(k) {
            visited_order(*old(m))
        } else {
            visited_order(*old(m)).push(k)
        }),
{
    m.insert(k, v)
}

/// Relies on `IndexMap::get`: the value under the key, if present.
#[verifier::external_body]
fn im_get(
    m: &indexmap::IndexMap<i64, (usize, u64), std::collections::hash_map::RandomState>,
    k: i64,
) -> (r: Option<(usize, u64)>)
    ensures
        r == (if visited_entries(*m).dom().contains(k) {
            Some(visited_entries(*m)[k])
        } else {
            Option::<(usize, u64)>::None
        }),
{
    m.get(&k).copied()
}

/// Relies on `IndexMap::get_index_of`: the position of the key in the
/// insertion order, if present.
#[verifier::external_body]
fn im_get_index_of(
    m: &indexmap::IndexMap<i64, (usize, u64), std::collections::hash_map::RandomState>,
    k: i64,
) -> (r: Option<usize>)
    ensures
        r is Some <==> visited_entries(*m).dom().contains(k),
        r matches Some(i) ==> i < visited_order(*m).len() && visited_order(*m)[i as int] == k,
{
    m.get_index_of(&k)
}

/// One frontier entry: the estimated total cost, the cumulative cost,
/// and the node's insertion index.
struct SmallestCostHolder {
    estimated_cost: u64,
    cost: u64,
    index: usize,
}

/// The cost a traversed edge adds to a path: its length, except that
/// reaching the destination edge is free.
pub open spec fn spec_move_cost(e: Edge, dst_id: i64) -> int {
    if e.id == dst_id {
        0
    } else {
        e.len as int
    }
}

/// The cumulative cost of a path: the move costs of every edge after
/// the first.
pub open spec fn spec_path_cost(p: Seq<Edge>, dst_id: i64) -> int
    decreases p.len(),
{
    if p.len() <= 1 {
        0
    } else {
        spec_path_cost(p.drop_last(), dst_id) + spec_move_cost(p.last(), dst_id)
    }
}

/// The distance cap of a sub-path search: the encoded distance's upper
/// bound stretched by the larger of the absolute and the relative
/// allowance.
pub open spec fn spec_max_distance(dnp_high: u32, params: DecodingParameters) -> int {
    let a = dnp_high + params.max_absolute_dnp_variance;
    let b = dnp_high * (1000 + params.max_relative_dnp_variance_milli) / 1000;
    if a >= b {
        a
    } else {
        b
    }
}

/// The numerically highest road class a traversed edge may have, read
/// from the class-allowance table at the source point's lowest class.
pub open spec fn spec_max_frc(lowest_frc: FRC, params: DecodingParameters) -> int {
    params.allowed_frc_delta_table@[lowest_frc.spec_to_usize() as int] as int
}

/// Finds a sequence of edges from the source candidate to the
/// destination candidate.  On success the returned path starts with
/// the source edge, ends with an edge of the destination's id, uses
/// only edges within the class allowance after the first, and its
/// cumulative cost stays below the distance cap computed from
/// `src_dnp_high`.  `lowest_frc` is the source point's lowest permitted
/// class; a no-sub-path failure names the two points by the
/// candidates' point indices.
#[verifier::rlimit(100)]
pub fn find_acceptable_shortest_path<M: MapServer>(
    map_server: &M,
    src: &CandidateEdge,
    dst: &CandidateEdge,
    lowest_frc: FRC,
    src_dnp_high: u32,
    context: &mut RequestContext,
) -> (r: Result<Vec<Edge>, OpenLrErr>)
    requires
        old(context).params.wf(),
    ensures
        final(context).params == old(context).params,
        final(context).spec_log_level() == old(context).spec_log_level(),
        src.candidate.id == dst.candidate.id ==> r is Ok,
        r matches Ok(p) ==> {
            &&& p@.len() >= 1
            &&& edge_eq(p@[0], src.candidate)
            &&& p@.last().id == dst.candidate.id
            &&& forall|j: int|
                1 <= j < p@.len() ==> (#[trigger] p@[j]).frc.spec_to_usize() <= spec_max_frc(
                    lowest_frc,
                    *old(context).params,
                )
            &&& p@.len() > 1 ==> spec_path_cost(p@, dst.candidate.id) < spec_max_distance(
                src_dnp_high,
                *old(context).params,
            )
        },
    {
        let params = context.params;
        let ghost maxfrc = spec_max_frc(lowest_frc, *params);
        let ghost maxdist = spec_max_distance(src_dnp_high, *params);
        let dst_id = dst.candidate.get_id();
        let dst_start = if dst.candidate.geom.len() >= 1 {
            dst.candidate.geom[0]
        } else {
            GeoPoint { lon: 0, lat: 0 }
        };
        if src.candidate.get_id() == dst_id {
            context.debug("sub-path found: source and destination coincide");
            let mut p: Vec<Edge> = Vec::new();
            p.push(src.candidate.clone());
            return Ok(p);
        }
        let max_acceptable_frc = params.allowed_frc_delta_table[lowest_frc.to_usize()];
        let a_cap: u64 = src_dnp_high as u64 + params.max_absolute_dnp_variance as u64;
        proof {
            assert((src_dnp_high as u64) * (1000 + params.max_relative_dnp_variance_milli as u64)
                <= 0xffff_ffffu64 * 1_001_000) by (nonlinear_arith)
                requires
                    src_dnp_high <= 0xffff_ffffu64,
                    params.max_relative_dnp_variance_milli <= 1_000_000,
            ;
        }
        let b_cap: u64 = (src_dnp_high as u64) * (1000 + params.max_relative_dnp_variance_milli as u64)
            / 1000;
        let max_distance: u64 = if a_cap >= b_cap {
            a_cap
        } else {
            b_cap
        };

        let mut parents = im_new();
        let mut nodes: Vec<Edge> = Vec::new();
        nodes.push(src.candidate.clone());
        im_insert(&mut parents, src.candidate.get_id(), (usize::MAX, 0));
        let mut to_see: Vec<SmallestCostHolder> = Vec::new();
        to_see.push(SmallestCostHolder { estimated_cost: 0, cost: 0, index: 0 });

        let mut fuel: usize = 10_000_000;
        while fuel > 0 && to_see.len() > 0
            invariant
                context.params == old(context).params,
                context.spec_log_level() == old(context).spec_log_level(),
                params == old(context).params,
                params.wf(),
                maxfrc == spec_max_frc(lowest_frc, *params),
                maxdist == spec_max_distance(src_dnp_high, *params),
                max_distance == maxdist,
                dst_id == dst.candidate.id,
                src.candidate.id != dst.candidate.id,
                nodes@.len() >= 1,
                nodes@.len() == visited_order(parents).len(),
                edge_eq(nodes@[0], src.candidate),
                forall|i: int|
                    0 <= i < nodes@.len() ==> (#[trigger] nodes@[i]).id == visited_order(parents)[i],
                forall|i: int, j: int|
                    0 <= i < j < nodes@.len() ==> nodes@[i].id != nodes@[j].id,
                forall|i: int|
                    0 <= i < nodes@.len() ==> visited_entries(parents).dom().contains(
                        (#[trigger] nodes@[i]).id,
                    ),
                forall|i: int|
                    0 <= i < nodes@.len() ==> ((#[trigger] visited_entries(parents)[nodes@[i].id]).0
                        == usize::MAX <==> i == 0),
                visited_entries(parents)[nodes@[0].id].1 == 0,
                forall|i: int|
                    1 <= i < nodes@.len() ==> {
                        let meta = #[trigger] visited_entries(parents)[nodes@[i].id];
                        &&& meta.0 < nodes@.len()
                        &&& meta.1 >= visited_entries(parents)[nodes@[meta.0 as int].id].1
                            + spec_move_cost(nodes@[i], dst_id)
                        &&& meta.1 < maxdist
                        &&& nodes@[i].frc.spec_to_usize() <= maxfrc
                    },
                max_acceptable_frc == params.allowed_frc_delta_table@[lowest_frc.spec_to_usize() as int],
                max_distance <= 4_299_262_262_295,
                forall|h: int|
                    0 <= h < to_see@.len() ==> (#[trigger] to_see@[h]).index < nodes@.len()
                        && to_see@[h].cost <= max_distance && to_see@[h].cost >= visited_entries(
                        parents,
                    )[nodes@[to_see@[h].index as int].id].1,
            decreases fuel,
        {
            fuel = fuel - 1;
            // pop the most promising frontier entry: least estimate,
            // ties broken toward the larger cumulative cost
            let mut bi: usize = 0;
            let mut j: usize = 1;
            while j < to_see.len()
                invariant
                    bi < j <= to_see@.len(),
                    to_see@.len() > 0,
                decreases to_see@.len() - j,
            {
                if to_see[j].estimated_cost < to_see[bi].estimated_cost || (
                to_see[j].estimated_cost == to_see[bi].estimated_cost && to_see[j].cost
                    > to_see[bi].cost) {
                    bi = j;
                }
                j = j + 1;
            }
            let ghost pre_to_see = to_see@;
            let holder = to_see.remove(bi);
            proof {
                assert(pre_to_see[bi as int] == holder);
                assert(holder.index < nodes@.len());
                assert(holder.cost <= max_distance);
                assert(holder.cost >= visited_entries(parents)[nodes@[holder.index as int].id].1);
                assert(forall|h2: int|
                    0 <= h2 < to_see@.len() ==> (#[trigger] to_see@[h2]) == pre_to_see[h2]
                        || to_see@[h2] == pre_to_see[h2 + 1]);
            }
            let node_id = nodes[holder.index].get_id();
            let node_end = nodes[holder.index].get_end_node_id();

            if node_id == dst_id {
                // collect the parent chain from the destination back to
                // the source
                let ghost entries = visited_entries(parents);
                let mut chain: Vec<usize> = Vec::new();
                let mut cur: usize = holder.index;
                let mut walk_fuel: usize = nodes.len();
                let mut reached_src = false;
                chain.push(cur);
                while walk_fuel > 0 && !reached_src
                    invariant
                        src.candidate.id != dst.candidate.id,
                        entries == visited_entries(parents),
                        nodes@.len() >= 1,
                        edge_eq(nodes@[0], src.candidate),
                        forall|i: int|
                            0 <= i < nodes@.len() ==> visited_entries(parents).dom().contains(
                                (#[trigger] nodes@[i]).id,
                            ),
                        forall|i: int|
                            0 <= i < nodes@.len() ==> ((#[trigger] visited_entries(
                                parents,
                            )[nodes@[i].id]).0 == usize::MAX <==> i == 0),
                        visited_entries(parents)[nodes@[0].id].1 == 0,
                        forall|i: int|
                            1 <= i < nodes@.len() ==> {
                                let meta = #[trigger] visited_entries(parents)[nodes@[i].id];
                                &&& meta.0 < nodes@.len()
                                &&& meta.1 >= visited_entries(parents)[nodes@[meta.0 as int].id].1
                                    + spec_move_cost(nodes@[i], dst_id)
                                &&& meta.1 < maxdist
                                &&& nodes@[i].frc.spec_to_usize() <= maxfrc
                            },
                        chain@.len() >= 1,
                        cur == chain@.last(),
                        cur < nodes@.len(),
                        forall|t: int| 0 <= t < chain@.len() ==> (#[trigger] chain@[t]) < nodes@.len(),
                        forall|t: int|
                            0 <= t < chain@.len() - 1 ==> (#[trigger] chain@[t]) != 0,
                        reached_src ==> cur == 0,
                        spec_chain_cost(chain@, nodes@, dst_id) + visited_entries(
                            parents,
                        )[nodes@[cur as int].id].1 as int <= visited_entries(
                            parents,
                        )[nodes@[holder.index as int].id].1 as int,
                        chain@[0] == holder.index,
                        holder.index < nodes@.len(),
                    decreases walk_fuel,
                {
                    walk_fuel = walk_fuel - 1;
                    let meta = match im_get(&parents, nodes[cur].get_id()) {
                        Some(me) => me,
                        None => {
                            return Err(OpenLrErr::ImplementationError(String::from_str(
                                "visited map lost a node",
                            )));
                        },
                    };
                    if meta.0 == usize::MAX {
                        reached_src = true;
                    } else {
                        let ghost old_chain = chain@;
                        cur = meta.0;
                        chain.push(cur);
                        proof {
                            lemma_chain_cost_push(old_chain, cur, nodes@, dst_id);
                        }
                    }
                }
                if !reached_src {
                    return Err(OpenLrErr::ImplementationError(String::from_str(
                        "parent walk did not reach the source",
                    )));
                }
                // build the path from source to destination
                let mut out: Vec<Edge> = Vec::new();
                let mut k: usize = chain.len();
                while k > 0
                    invariant
                        k <= chain@.len(),
                        chain@.len() >= 1,
                        forall|t: int| 0 <= t < chain@.len() ==> (#[trigger] chain@[t]) < nodes@.len(),
                        forall|t: int|
                            0 <= t < chain@.len() - 1 ==> (#[trigger] chain@[t]) != 0,
                        out@.len() == chain@.len() - k,
                        forall|t: int|
                            0 <= t < out@.len() ==> edge_eq(
                                #[trigger] out@[t],
                                nodes@[chain@[chain@.len() - 1 - t] as int],
                            ),
                    decreases k,
                {
                    k = k - 1;
                    out.push(nodes[chain[k]].clone());
                }
                proof {
                    lemma_out_path_cost(out@, chain@, nodes@, dst_id);
                    assert(edge_eq(out@[0], nodes@[chain@[chain@.len() - 1] as int]));
                    assert(chain@.last() == cur && cur == 0);
                    assert(edge_eq(out@[0], src.candidate));
                    assert(edge_eq(out@.last(), nodes@[chain@[0] as int]));
                    assert(nodes@[chain@[0] as int].id == dst_id);
                    assert(out@.last().id == dst.candidate.id);
                    assert forall|j2: int|
                        1 <= j2 < out@.len() implies (#[trigger] out@[j2]).frc.spec_to_usize()
                        <= maxfrc by {
                        let t = chain@.len() - 1 - j2;
                        assert(edge_eq(out@[j2], nodes@[chain@[t] as int]));
                        assert(chain@[t] != 0);
                        assert(visited_entries(parents)[nodes@[chain@[t] as int].id].1 < maxdist);
                    }
                    if out@.len() > 1 {
                        assert(holder.index != 0) by {
                            assert(chain@[0] == holder.index);
                            assert(chain@.len() >= 2);
                            assert(chain@[0] != 0);
                        }
                        assert(visited_entries(parents)[nodes@[holder.index as int].id].1
                            < maxdist);
                        assert(spec_chain_cost(chain@, nodes@, dst_id) < maxdist);
                        assert(spec_path_cost(out@, dst_id) < maxdist);
                    }
                }
                context.debug("sub-path found");
                return Ok(out);
            }
            // a popped entry whose recorded cost is beaten is stale
            let meta = match im_get(&parents, node_id) {
                Some(me) => me,
                None => {
                    return Err(OpenLrErr::ImplementationError(String::from_str(
                        "visited map lost a node",
                    )));
                },
            };
            if holder.cost > meta.1 {
                continue;
            }
            proof {
                assert(holder.cost == meta.1);
            }
            let successors = match map_server.get_next_edges(
                node_id,
                node_end,
                &dst_start,
            ) {
                Ok(v) => v,
                Err(e) => {
                    context.debug("successor query failed");
                    return Err(e);
                },
            };

            let mut si: usize = 0;
            let mut succ = successors;
            while si < succ.len()
                invariant
                    context.params == old(context).params,
                    context.spec_log_level() == old(context).spec_log_level(),
                    params == old(context).params,
                    params.wf(),
                    maxfrc == spec_max_frc(lowest_frc, *params),
                    maxdist == spec_max_distance(src_dnp_high, *params),
                    max_distance == maxdist,
                    max_distance <= 4_299_262_262_295,
                    dst_id == dst.candidate.id,
                    src.candidate.id != dst.candidate.id,
                    node_id != dst_id,
                    max_acceptable_frc == params.allowed_frc_delta_table@[lowest_frc.spec_to_usize() as int],
                    holder.cost == meta.1,
                    holder.index < nodes@.len(),
                    node_id == nodes@[holder.index as int].id,
                    visited_entries(parents).dom().contains(nodes@[holder.index as int].id),
                    meta.1 == visited_entries(parents)[nodes@[holder.index as int].id].1,
                    nodes@.len() >= 1,
                    nodes@.len() == visited_order(parents).len(),
                    edge_eq(nodes@[0], src.candidate),
                    forall|i: int|
                        0 <= i < nodes@.len() ==> (#[trigger] nodes@[i]).id == visited_order(
                            parents,
                        )[i],
                    forall|i: int, j2: int|
                        0 <= i < j2 < nodes@.len() ==> nodes@[i].id != nodes@[j2].id,
                    forall|i: int|
                        0 <= i < nodes@.len() ==> visited_entries(parents).dom().contains(
                            (#[trigger] nodes@[i]).id,
                        ),
                    forall|i: int|
                        0 <= i < nodes@.len() ==> ((#[trigger] visited_entries(
                            parents,
                        )[nodes@[i].id]).0 == usize::MAX <==> i == 0),
                    visited_entries(parents)[nodes@[0].id].1 == 0,
                    forall|i: int|
                        1 <= i < nodes@.len() ==> {
                            let m2 = #[trigger] visited_entries(parents)[nodes@[i].id];
                            &&& m2.0 < nodes@.len()
                            &&& m2.1 >= visited_entries(parents)[nodes@[m2.0 as int].id].1
                                + spec_move_cost(nodes@[i], dst_id)
                            &&& m2.1 < maxdist
                            &&& nodes@[i].frc.spec_to_usize() <= maxfrc
                        },
                    forall|h2: int|
                        0 <= h2 < to_see@.len() ==> (#[trigger] to_see@[h2]).index < nodes@.len()
                            && to_see@[h2].cost <= max_distance && to_see@[h2].cost
                            >= visited_entries(parents)[nodes@[to_see@[h2].index as int].id].1,
                decreases succ@.len() - si,
            {
                let ne = &succ[si];
                if ne.edge.get_frc().to_usize() <= max_acceptable_frc {
                    let move_cost: u64 = if ne.edge.get_id() == dst_id {
                        0
                    } else {
                        ne.edge.get_line_length() as u64
                    };
                    let new_cost: u64 = holder.cost + move_cost;
                    if new_cost < max_distance {
                        let succ_id = ne.edge.get_id();
                        let h: u64 = if succ_id == dst_id {
                            0
                        } else {
                            ne.distance_to_target_m as u64
                        };
                        let ghost succ_edge = ne.edge;
                        match im_get(&parents, succ_id) {
                            None => {
                                let n_index = nodes.len();
                                let ghost pre_entries = visited_entries(parents);
                                let ghost pre_order = visited_order(parents);
                                let ghost pre_nodes = nodes@;
                                im_insert(&mut parents, succ_id, (holder.index, new_cost));
                                nodes.push(ne.edge.clone());
                                proof {
                                    let e2 = visited_entries(parents);
                                    assert(e2 == pre_entries.insert(succ_id, (holder.index, new_cost)));
                                    assert(visited_order(parents) == pre_order.push(succ_id));
                                    assert(edge_eq(nodes@[n_index as int], succ_edge));
                                    assert(nodes@[n_index as int].id == succ_id);
                                    assert(spec_move_cost(nodes@[n_index as int], dst_id)
                                        == move_cost);
                                    assert(nodes@[0].id != succ_id);
                                    assert forall|i: int|
                                        1 <= i < nodes@.len() implies {
                                        let m2 = #[trigger] e2[nodes@[i].id];
                                        &&& m2.0 < nodes@.len()
                                        &&& m2.1 >= e2[nodes@[m2.0 as int].id].1 + spec_move_cost(
                                            nodes@[i],
                                            dst_id,
                                        )
                                        &&& m2.1 < maxdist
                                        &&& nodes@[i].frc.spec_to_usize() <= maxfrc
                                    } by {
                                        if i < n_index {
                                            assert(pre_nodes[i] == nodes@[i]);
                                            assert(nodes@[i].id != succ_id);
                                            let m2 = pre_entries[nodes@[i].id];
                                            assert(nodes@[m2.0 as int].id != succ_id);
                                        } else {
                                            assert(e2[nodes@[i].id] == (holder.index, new_cost));
                                            assert(nodes@[holder.index as int].id != succ_id);
                                        }
                                    }
                                    assert forall|i: int|
                                        0 <= i < nodes@.len() implies ((#[trigger] e2[nodes@[i].id]).0
                                        == usize::MAX <==> i == 0) by {
                                        if i < n_index {
                                            assert(nodes@[i].id != succ_id);
                                            assert(e2[nodes@[i].id] == pre_entries[nodes@[i].id]);
                                        } else {
                                            assert(e2[nodes@[i].id] == (holder.index, new_cost));
                                            assert(holder.index < n_index);
                                            assert(nodes@.len() <= usize::MAX) by {
                                                axiom_spec_len(&nodes);
                                            }
                                            assert(holder.index != usize::MAX);
                                        }
                                    }
                                }
                                to_see.push(SmallestCostHolder {
                                    estimated_cost: new_cost + h,
                                    cost: new_cost,
                                    index: n_index,
                                });
                            },
                            Some(existing) => {
                                if existing.1 > new_cost {
                                    match im_get_index_of(&parents, succ_id) {
                                        Some(n_index) => {
                                            let ghost pre_entries = visited_entries(parents);
                                            proof {
                                                assert(nodes@[n_index as int].id == succ_id);
                                                assert(n_index != 0) by {
                                                    if n_index == 0 {
                                                        assert(pre_entries[nodes@[0].id].1 == 0);
                                                    }
                                                }
                                                assert(holder.index != n_index) by {
                                                    if holder.index == n_index {
                                                        assert(node_id == succ_id);
                                                        assert(existing.1 == meta.1);
                                                    }
                                                }
                                            }
                                            im_insert(
                                                &mut parents,
                                                succ_id,
                                                (holder.index, new_cost),
                                            );
                                            let ghost pre_nodes = nodes@;
                                            nodes.set(n_index, ne.edge.clone());
                                            proof {
                                                assert(nodes@[n_index as int].id == succ_id);
                                                assert(edge_eq(nodes@[n_index as int], succ_edge));
                                                assert(nodes@[0].id == pre_nodes[0].id);
                                                let e2 = visited_entries(parents);
                                                assert(e2 == pre_entries.insert(
                                                    succ_id,
                                                    (holder.index, new_cost),
                                                ));
                                                assert(visited_order(parents) == visited_order(
                                                    parents,
                                                ));
                                                assert(nodes@[holder.index as int].id != succ_id);
                                                assert(spec_move_cost(nodes@[n_index as int], dst_id)
                                                    == move_cost);
                                                assert forall|i: int|
                                                    1 <= i < nodes@.len() implies {
                                                    let m2 = #[trigger] e2[nodes@[i].id];
                                                    &&& m2.0 < nodes@.len()
                                                    &&& m2.1 >= e2[nodes@[m2.0 as int].id].1
                                                        + spec_move_cost(nodes@[i], dst_id)
                                                    &&& m2.1 < maxdist
                                                    &&& nodes@[i].frc.spec_to_usize() <= maxfrc
                                                } by {
                                                    if i != n_index {
                                                        assert(nodes@[i].id != succ_id);
                                                        let m2 = pre_entries[nodes@[i].id];
                                                        if m2.0 as int == n_index {
                                                            assert(e2[nodes@[m2.0 as int].id].1
                                                                <= pre_entries[nodes@[m2.0 as int].id].1);
                                                        } else {
                                                            assert(nodes@[m2.0 as int].id != succ_id);
                                                        }
                                                    } else {
                                                        assert(e2[nodes@[i].id] == (
                                                            holder.index,
                                                            new_cost,
                                                        ));
                                                    }
                                                }
                                                assert forall|i: int|
                                                    0 <= i < nodes@.len() implies ((
                                                #[trigger] e2[nodes@[i].id]).0 == usize::MAX <==> i
                                                    == 0) by {
                                                    if i == n_index {
                                                        assert(e2[nodes@[i].id] == (
                                                            holder.index,
                                                            new_cost,
                                                        ));
                                                        assert(holder.index < nodes@.len());
                                                        assert(nodes@.len() <= usize::MAX) by {
                                                            axiom_spec_len(&nodes);
                                                        }
                                                        assert(holder.index != usize::MAX);
                                                        assert(i != 0);
                                                    } else {
                                                        assert(nodes@[i] == pre_nodes[i]);
                                                        assert(nodes@[i].id != nodes@[n_index as int].id);
                                                        assert(nodes@[i].id != succ_id);
                                                        assert(e2[nodes@[i].id]
                                                            == pre_entries[pre_nodes[i].id]);
                                                        assert((pre_entries[pre_nodes[i].id]).0
                                                            == usize::MAX <==> i == 0);
                                                    }
                                                }
                                                assert forall|h2: int|
                                                    0 <= h2 < to_see@.len() implies (
                                                #[trigger] to_see@[h2]).cost >= e2[nodes@[to_see@[h2].index as int].id].1 by {
                                                    if to_see@[h2].index as int == n_index {
                                                        assert(to_see@[h2].cost
                                                            >= pre_entries[succ_id].1);
                                                    } else {
                                                        assert(nodes@[to_see@[h2].index as int].id
                                                            != succ_id);
                                                    }
                                                }
                                            }
                                            to_see.push(SmallestCostHolder {
                                                estimated_cost: new_cost + h,
                                                cost: new_cost,
                                                index: n_index,
                                            });
                                        },
                                        None => {
                                            return Err(OpenLrErr::ImplementationError(
                                                String::from_str("visited map lost a node"),
                                            ));
                                        },
                                    }
                                }
                            },
                        }
                    }
                }
                si = si + 1;
            }
        }
        context.debug("no sub-path found");
        Err(OpenLrErr::NoSubPathFound(src.lrp_index, dst.lrp_index))
    }

/// The cost a parent chain accounts for: the move costs of every chain
/// node except the last.
pub open spec fn spec_chain_cost(chain: Seq<usize>, nodes: Seq<Edge>, dst_id: i64) -> int
    decreases chain.len(),
{
    if chain.len() <= 1 {
        0
    } else {
        spec_chain_cost(chain.drop_last(), nodes, dst_id) + spec_move_cost(
            nodes[chain[chain.len() - 2] as int],
            dst_id,
        )
    }
}

/// Extending a chain by one parent adds the move cost of the node the
/// chain previously ended at.
proof fn lemma_chain_cost_push(chain: Seq<usize>, nxt: usize, nodes: Seq<Edge>, dst_id: i64)
    requires
        chain.len() >= 1,
    ensures
        spec_chain_cost(chain.push(nxt), nodes, dst_id) == spec_chain_cost(chain, nodes, dst_id)
            + spec_move_cost(nodes[chain.last() as int], dst_id),
{
    let c2 = chain.push(nxt);
    assert(c2.drop_last() =~= chain);
    assert(c2[c2.len() - 2] == chain.last());
}

/// A path built by reading a chain backward costs what the chain
/// accounts for.
proof fn lemma_out_path_cost(out: Seq<Edge>, chain: Seq<usize>, nodes: Seq<Edge>, dst_id: i64)
    requires
        out.len() == chain.len(),
        chain.len() >= 1,
        forall|t: int| 0 <= t < chain.len() ==> (#[trigger] chain[t]) < nodes.len(),
        forall|t: int|
            0 <= t < out.len() ==> edge_eq(#[trigger] out[t], nodes[chain[chain.len() - 1 - t] as int]),
    ensures
        spec_path_cost(out, dst_id) == spec_chain_cost(chain, nodes, dst_id),
    decreases chain.len(),
{
    if chain.len() > 1 {
        let out2 = out.drop_last();
        let chain2 = chain.drop_first();
        assert(out2.len() == chain2.len());
        assert forall|t: int| 0 <= t < out2.len() implies edge_eq(
            #[trigger] out2[t],
            nodes[chain2[chain2.len() - 1 - t] as int],
        ) by {
            assert(out2[t] == out[t]);
            assert(chain2[chain2.len() - 1 - t] == chain[chain.len() - 1 - t]);
        }
        lemma_out_path_cost(out2, chain2, nodes, dst_id);
        lemma_chain_drop_first(chain, nodes, dst_id);
        assert(edge_eq(out.last(), nodes[chain[0] as int]));
    }
}

/// Dropping a chain's first node moves one move cost out of the
/// account: the cost of the node the path enters from it.
proof fn lemma_chain_drop_first(chain: Seq<usize>, nodes: Seq<Edge>, dst_id: i64)
    requires
        chain.len() >= 2,
    ensures
        spec_chain_cost(chain, nodes, dst_id) == spec_chain_cost(chain.drop_first(), nodes, dst_id)
            + spec_move_cost(nodes[chain[0] as int], dst_id),
    decreases chain.len(),
{
    if chain.len() == 2 {
        assert(chain.drop_last().len() == 1);
        assert(chain[chain.len() - 2] == chain[0]);
        assert(spec_chain_cost(chain.drop_last(), nodes, dst_id) == 0);
        assert(spec_chain_cost(chain, nodes, dst_id) == spec_chain_cost(
            chain.drop_last(),
            nodes,
            dst_id,
        ) + spec_move_cost(nodes[chain[chain.len() - 2] as int], dst_id));
        assert(chain.drop_first().len() == 1);
        assert(spec_chain_cost(chain.drop_first(), nodes, dst_id) == 0);
    } else {
        let c2 = chain.drop_last();
        lemma_chain_drop_first(c2, nodes, dst_id);
        assert(chain.drop_first().drop_last() =~= c2.drop_first());
        assert(chain.drop_first()[chain.drop_first().len() - 2] == chain[chain.len() - 2]);
        assert(c2[0] == chain[0]);
        assert(spec_chain_cost(chain, nodes, dst_id) == spec_chain_cost(c2, nodes, dst_id)
            + spec_move_cost(nodes[chain[chain.len() - 2] as int], dst_id));
        assert(spec_chain_cost(chain.drop_first(), nodes, dst_id) == spec_chain_cost(
            chain.drop_first().drop_last(),
            nodes,
            dst_id,
        ) + spec_move_cost(nodes[chain.drop_first()[chain.drop_first().len() - 2] as int], dst_id));
    }
}

} // verus!

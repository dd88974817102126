//! Which connections of a wiring can ever influence an action.
//!
//! An internal neuron is worth keeping only if something feeds it and
//! something reads it. A connection is useful in a wiring if the internal
//! neurons it touches are fed and read by the wiring. The pruned wiring is the
//! largest part of a wiring in which every connection is useful.

use super::connection::Connection;
use super::connection_type::ConnectionType;
use crate::sequences::{
    filter_after_weaker, filter_agrees, filter_keeps_all, filter_members, filter_of_full_length,
};
use vstd::prelude::*;

verus! {

/// The connection gives the internal neuron `node` an input. A connection
/// from a neuron to itself gives it none.
pub open spec fn feeds(kind: ConnectionType, node: int) -> bool {
    match kind {
        ConnectionType::SensoryToInternal { sink, .. } => sink == node,
        ConnectionType::InternalToInternal { source, sink } => sink == node && source != node,
        _ => false,
    }
}

/// The connection gives the internal neuron `node` an output. A connection
/// from a neuron to itself gives it none.
pub open spec fn drains(kind: ConnectionType, node: int) -> bool {
    match kind {
        ConnectionType::InternalToAction { source, .. } => source == node,
        ConnectionType::InternalToInternal { source, sink } => source == node && sink != node,
        _ => false,
    }
}

/// Some connection of the wiring feeds `node`.
pub open spec fn has_input(wiring: Seq<Connection>, node: int) -> bool {
    exists|i: int| 0 <= i < wiring.len() && feeds(#[trigger] wiring[i].kind(), node)
}

/// Some connection of the wiring drains `node`.
pub open spec fn has_output(wiring: Seq<Connection>, node: int) -> bool {
    exists|i: int| 0 <= i < wiring.len() && drains(#[trigger] wiring[i].kind(), node)
}

/// A connection of this kind can influence an action through the wiring: the
/// internal neuron it reads is fed, and the internal neuron it writes is read.
/// A connection from a sensor straight to an action always can.
pub open spec fn is_useful(wiring: Seq<Connection>, kind: ConnectionType) -> bool {
    match kind {
        ConnectionType::SensoryToAction { .. } => true,
        ConnectionType::SensoryToInternal { sink, .. } => has_output(wiring, sink as int),
        ConnectionType::InternalToInternal { source, sink } => has_input(wiring, source as int)
            && has_output(wiring, sink as int),
        ConnectionType::InternalToAction { source, .. } => has_input(wiring, source as int),
    }
}

/// Every connection of the wiring is useful in it: pruning has nothing to remove.
pub open spec fn is_stable(wiring: Seq<Connection>) -> bool {
    forall|i: int| 0 <= i < wiring.len() ==> is_useful(wiring, #[trigger] wiring[i].kind())
}

/// Every connection of `part` occurs in `whole`.
pub open spec fn within(part: Seq<Connection>, whole: Seq<Connection>) -> bool {
    forall|i: int| 0 <= i < part.len() ==> whole.contains(#[trigger] part[i])
}

/// `part` is a self-supporting selection from the wiring that holds `connection`.
pub open spec fn supports(
    part: Seq<Connection>,
    wiring: Seq<Connection>,
    connection: Connection,
) -> bool {
    &&& is_stable(part)
    &&& within(part, wiring)
    &&& part.contains(connection)
}

/// The connection belongs to some self-supporting selection from the wiring.
pub open spec fn is_live(wiring: Seq<Connection>, connection: Connection) -> bool {
    exists|part: Seq<Connection>| supports(part, wiring, connection)
}

/// The test that keeps the live connections of the wiring.
pub open spec fn live_in(wiring: Seq<Connection>) -> spec_fn(Connection) -> bool {
    |c: Connection| is_live(wiring, c)
}

/// The wiring without its dead connections, in the order of the wiring.
pub open spec fn pruned(wiring: Seq<Connection>) -> Seq<Connection> {
    wiring.filter(live_in(wiring))
}

/// The test that keeps the connections that are useful in the wiring.
pub open spec fn useful_in(wiring: Seq<Connection>) -> spec_fn(Connection) -> bool {
    |c: Connection| is_useful(wiring, c.kind())
}

/// The wiring after rounds of removal: each round drops the connections
/// that are useless in what the round before left, and the rounds end with
/// the first that drops nothing.
pub open spec fn pruned_by_rounds(wiring: Seq<Connection>) -> Seq<Connection>
    decreases wiring.len(),
{
    let rest = wiring.filter(useful_in(wiring));
    if rest.len() < wiring.len() {
        pruned_by_rounds(rest)
    } else {
        wiring
    }
}

/// The connection reads the internal neuron `node`.
pub open spec fn reads(kind: ConnectionType, node: int) -> bool {
    match kind {
        ConnectionType::InternalToInternal { source, .. } => source == node,
        ConnectionType::InternalToAction { source, .. } => source == node,
        _ => false,
    }
}

/// The connection writes the internal neuron `node`.
pub open spec fn writes(kind: ConnectionType, node: int) -> bool {
    match kind {
        ConnectionType::SensoryToInternal { sink, .. } => sink == node,
        ConnectionType::InternalToInternal { sink, .. } => sink == node,
        _ => false,
    }
}

/// What is useful in a part of a wiring is useful in the whole.
pub proof fn useful_in_larger(part: Seq<Connection>, whole: Seq<Connection>, kind: ConnectionType)
    requires
        within(part, whole),
        is_useful(part, kind),
    ensures
        is_useful(whole, kind),
{
    assert forall|node: int| has_input(part, node) implies has_input(whole, node) by {
        let i = choose|i: int| 0 <= i < part.len() && feeds(#[trigger] part[i].kind(), node);
        assert(whole.contains(part[i]));
        let j = choose|j: int| 0 <= j < whole.len() && whole[j] == part[i];
        assert(feeds(whole[j].kind(), node));
    }
    assert forall|node: int| has_output(part, node) implies has_output(whole, node) by {
        let i = choose|i: int| 0 <= i < part.len() && drains(#[trigger] part[i].kind(), node);
        assert(whole.contains(part[i]));
        let j = choose|j: int| 0 <= j < whole.len() && whole[j] == part[i];
        assert(drains(whole[j].kind(), node));
    }
}

/// A live connection is useful in the wiring.
pub proof fn live_is_useful(wiring: Seq<Connection>, connection: Connection)
    requires
        is_live(wiring, connection),
    ensures
        is_useful(wiring, connection.kind()),
{
    let part = choose|part: Seq<Connection>| supports(part, wiring, connection);
    let i = choose|i: int| 0 <= i < part.len() && part[i] == connection;
    assert(is_useful(part, part[i].kind()));
    useful_in_larger(part, wiring, connection.kind());
}

/// The pruned wiring is a selection from the wiring, and holds exactly its
/// live connections.
pub proof fn pruned_members(wiring: Seq<Connection>)
    ensures
        within(pruned(wiring), wiring),
        forall|c: Connection| #[trigger]
            pruned(wiring).contains(c) <==> wiring.contains(c) && is_live(wiring, c),
{
    let live = live_in(wiring);
    filter_members(wiring, live);
    assert forall|i: int| 0 <= i < pruned(wiring).len() implies wiring.contains(
        #[trigger] pruned(wiring)[i],
    ) by {
        assert(pruned(wiring).contains(pruned(wiring)[i]));
    }
    assert forall|c: Connection| #[trigger]
        pruned(wiring).contains(c) <==> wiring.contains(c) && is_live(wiring, c) by {
        assert(live(c) == is_live(wiring, c));
    }
}

/// Every self-supporting selection from a wiring lies within its pruned wiring.
pub proof fn pruned_is_largest(part: Seq<Connection>, wiring: Seq<Connection>)
    requires
        is_stable(part),
        within(part, wiring),
    ensures
        within(part, pruned(wiring)),
{
    pruned_members(wiring);
    assert forall|i: int| 0 <= i < part.len() implies pruned(wiring).contains(
        #[trigger] part[i],
    ) by {
        assert(supports(part, wiring, part[i]));
    }
}

/// In the pruned wiring every connection is useful.
pub proof fn pruned_is_stable(wiring: Seq<Connection>)
    ensures
        is_stable(pruned(wiring)),
{
    let result = pruned(wiring);
    pruned_members(wiring);
    assert forall|i: int| 0 <= i < result.len() implies is_useful(
        result,
        #[trigger] result[i].kind(),
    ) by {
        let c = result[i];
        assert(result.contains(c));
        let part = choose|part: Seq<Connection>| supports(part, wiring, c);
        pruned_is_largest(part, wiring);
        let k = choose|k: int| 0 <= k < part.len() && part[k] == c;
        assert(is_useful(part, part[k].kind()));
        useful_in_larger(part, result, c.kind());
    }
}

/// Pruning removes nothing from a wiring in which every connection is useful.
pub proof fn stable_is_kept(wiring: Seq<Connection>)
    requires
        is_stable(wiring),
    ensures
        pruned(wiring) == wiring,
{
    let live = live_in(wiring);
    assert(within(wiring, wiring));
    assert forall|i: int| 0 <= i < wiring.len() implies live(#[trigger] wiring[i]) by {
        assert(supports(wiring, wiring, wiring[i]));
    }
    filter_keeps_all(wiring, live);
}

/// Pruning a pruned wiring changes nothing.
pub proof fn pruned_is_idempotent(wiring: Seq<Connection>)
    ensures
        pruned(pruned(wiring)) == pruned(wiring),
{
    pruned_is_stable(wiring);
    stable_is_kept(pruned(wiring));
}

/// A selection from a wiring that still holds all its live connections has
/// the same pruned wiring.
pub proof fn pruned_after_removing_dead(rest: Seq<Connection>, wiring: Seq<Connection>)
    requires
        within(rest, wiring),
        rest.filter(live_in(wiring)) == pruned(wiring),
    ensures
        pruned(rest) == pruned(wiring),
{
    let live_before = live_in(wiring);
    let live_after = live_in(rest);
    pruned_members(wiring);
    filter_members(rest, live_before);
    assert forall|i: int| 0 <= i < rest.len() implies live_after(#[trigger] rest[i])
        == live_before(rest[i]) by {
        let c = rest[i];
        if is_live(rest, c) {
            let part = choose|part: Seq<Connection>| supports(part, rest, c);
            assert forall|k: int| 0 <= k < part.len() implies wiring.contains(
                #[trigger] part[k],
            ) by {
                assert(rest.contains(part[k]));
                let j = choose|j: int| 0 <= j < rest.len() && rest[j] == part[k];
                assert(wiring.contains(rest[j]));
            }
            assert(supports(part, wiring, c));
        }
        if is_live(wiring, c) {
            let part = choose|part: Seq<Connection>| supports(part, wiring, c);
            pruned_is_largest(part, wiring);
            assert forall|k: int| 0 <= k < part.len() implies rest.contains(
                #[trigger] part[k],
            ) by {
                assert(pruned(wiring).contains(part[k]));
                assert(rest.filter(live_before).contains(part[k]));
            }
            assert(supports(part, rest, c));
        }
    }
    filter_agrees(rest, live_after, live_before);
}

/// While a selection from a wiring still holds all live connections of the
/// wiring, a connection that is useless in the selection is dead in the wiring.
pub proof fn useless_is_dead(rest: Seq<Connection>, wiring: Seq<Connection>, c: Connection)
    requires
        rest.filter(live_in(wiring)) == pruned(wiring),
        !is_useful(rest, c.kind()),
    ensures
        !is_live(wiring, c),
{
    if is_live(wiring, c) {
        let part = choose|part: Seq<Connection>| supports(part, wiring, c);
        pruned_is_largest(part, wiring);
        filter_members(rest, live_in(wiring));
        assert forall|k: int| 0 <= k < part.len() implies rest.contains(#[trigger] part[k]) by {
            assert(pruned(wiring).contains(part[k]));
        }
        let i = choose|i: int| 0 <= i < part.len() && part[i] == c;
        assert(is_useful(part, part[i].kind()));
        useful_in_larger(part, rest, c.kind());
    }
}

/// Removing useless connections round after round, until a round removes
/// nothing, leaves the pruned wiring.
pub proof fn rounds_reach_pruned(wiring: Seq<Connection>)
    ensures
        pruned_by_rounds(wiring) == pruned(wiring),
    decreases wiring.len(),
{
    let useful = useful_in(wiring);
    let rest = wiring.filter(useful);
    wiring.lemma_filter_len(useful);
    if rest.len() < wiring.len() {
        rounds_reach_pruned(rest);
        filter_members(wiring, useful);
        assert forall|i: int| 0 <= i < rest.len() implies wiring.contains(#[trigger] rest[i]) by {
            assert(rest.contains(rest[i]));
        }
        assert forall|c: Connection| #[trigger] live_in(wiring)(c) implies useful(c) by {
            live_is_useful(wiring, c);
        }
        filter_after_weaker(wiring, useful, live_in(wiring));
        pruned_after_removing_dead(rest, wiring);
    } else {
        filter_of_full_length(wiring, useful);
        assert forall|i: int| 0 <= i < wiring.len() implies is_useful(
            wiring,
            #[trigger] wiring[i].kind(),
        ) by {
            assert(useful(wiring[i]));
        }
        stable_is_kept(wiring);
    }
}

/// A connection from a neuron to itself does not keep the neuron alive.
/// Where nothing else feeds the neuron, or nothing else drains it, pruning
/// leaves no connection that touches it, the loop included.
pub proof fn loop_keeps_nothing_alive(wiring: Seq<Connection>, node: int)
    requires
        !has_input(wiring, node) || !has_output(wiring, node),
    ensures
        forall|i: int|
            0 <= i < pruned(wiring).len() ==> !reads(#[trigger] pruned(wiring)[i].kind(), node)
                && !writes(pruned(wiring)[i].kind(), node),
{
    let rest = pruned(wiring);
    pruned_is_stable(wiring);
    pruned_members(wiring);
    if has_input(rest, node) {
        let k = choose|k: int| 0 <= k < rest.len() && feeds(#[trigger] rest[k].kind(), node);
        assert(wiring.contains(rest[k]));
        let j = choose|j: int| 0 <= j < wiring.len() && wiring[j] == rest[k];
        assert(feeds(wiring[j].kind(), node));
    }
    if has_output(rest, node) {
        let k = choose|k: int| 0 <= k < rest.len() && drains(#[trigger] rest[k].kind(), node);
        assert(wiring.contains(rest[k]));
        let j = choose|j: int| 0 <= j < wiring.len() && wiring[j] == rest[k];
        assert(drains(wiring[j].kind(), node));
    }
    assert forall|i: int| 0 <= i < rest.len() implies !reads(#[trigger] rest[i].kind(), node)
        && !writes(rest[i].kind(), node) by {
        assert(is_useful(rest, rest[i].kind()));
        if reads(rest[i].kind(), node) || writes(rest[i].kind(), node) {
            assert(feeds(rest[i].kind(), node) || drains(rest[i].kind(), node) || (reads(
                rest[i].kind(),
                node,
            ) && writes(rest[i].kind(), node)));
        }
    }
}

} // verus!

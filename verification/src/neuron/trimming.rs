//! Removing the connections that can never influence an action.
//!
//! The brain keeps, for every internal neuron, how many connections feed it
//! and how many drain it. A pass over the wiring drops what those counts show
//! to be useless and lowers the counts of the neighbours; passes repeat until
//! one drops nothing.

use super::brain::Brain;
use super::connection::{endpoints_in_range, Connection, MAX_INTERNAL_NEURONS};
use super::connection_type::{ConnectionType, InternalNeuronID};
use super::wiring::{
    drains, feeds, has_input, has_output, is_stable, is_useful, live_in, pruned,
    pruned_after_removing_dead, pruned_is_stable, pruned_members, stable_is_kept,
    useless_is_dead, within,
};
use crate::sequences::{filter_counts, filter_is_empty, filter_push, filter_skips};
use vstd::prelude::*;

verus! {

/// The test that picks the connections feeding `node`.
pub open spec fn feeders(node: int) -> spec_fn(Connection) -> bool {
    |c: Connection| feeds(c.kind(), node)
}

/// The test that picks the connections draining `node`.
pub open spec fn drainers(node: int) -> spec_fn(Connection) -> bool {
    |c: Connection| drains(c.kind(), node)
}

/// How many connections of the wiring feed `node`.
pub open spec fn input_count(wiring: Seq<Connection>, node: int) -> nat {
    wiring.filter(feeders(node)).len()
}

/// How many connections of the wiring drain `node`.
pub open spec fn output_count(wiring: Seq<Connection>, node: int) -> nat {
    wiring.filter(drainers(node)).len()
}

/// The counts are safe to prune the wiring by. No count is below the true
/// one, so a count of zero shows that nothing is there. A count may be above
/// the true one only for a neuron whose other count is zero: such a neuron is
/// dead, and every connection that touches it goes whatever the stale count says.
pub open spec fn counts_cover(
    wiring: Seq<Connection>,
    inputs: Seq<usize>,
    outputs: Seq<usize>,
) -> bool {
    &&& inputs.len() == MAX_INTERNAL_NEURONS
    &&& outputs.len() == MAX_INTERNAL_NEURONS
    &&& forall|node: int|
        0 <= node < MAX_INTERNAL_NEURONS ==> {
            &&& #[trigger] inputs[node] >= input_count(wiring, node)
            &&& outputs[node] >= output_count(wiring, node)
            &&& (inputs[node] > input_count(wiring, node) ==> outputs[node] == 0)
            &&& (outputs[node] > output_count(wiring, node) ==> inputs[node] == 0)
        }
}

/// What the counts say of a connection: whether it can influence an action.
pub open spec fn counted_useful(
    kind: ConnectionType,
    inputs: Seq<usize>,
    outputs: Seq<usize>,
) -> bool {
    match kind {
        ConnectionType::SensoryToAction { .. } => true,
        ConnectionType::SensoryToInternal { sink, .. } => outputs[sink as int] != 0,
        ConnectionType::InternalToInternal { source, sink } => inputs[source as int] != 0
            && outputs[sink as int] != 0,
        ConnectionType::InternalToAction { source, .. } => inputs[source as int] != 0,
    }
}

/// The counts with the one of `node` lowered by one, unless it is zero.
pub open spec fn lowered(counts: Seq<usize>, node: int) -> Seq<usize> {
    if counts[node] > 0 {
        counts.update(node, (counts[node] - 1) as usize)
    } else {
        counts
    }
}

/// The input counts after a connection of this kind was examined. Dropping a
/// connection between internal neurons whose source is not fed takes one
/// input from its sink.
pub open spec fn inputs_after(
    kind: ConnectionType,
    inputs: Seq<usize>,
    outputs: Seq<usize>,
) -> Seq<usize> {
    match kind {
        ConnectionType::InternalToInternal { source, sink } => if inputs[source as int] == 0 {
            lowered(inputs, sink as int)
        } else {
            inputs
        },
        _ => inputs,
    }
}

/// The output counts after a connection of this kind was examined. Dropping a
/// connection between internal neurons whose source is fed and whose sink is
/// not read takes one output from its source.
pub open spec fn outputs_after(
    kind: ConnectionType,
    inputs: Seq<usize>,
    outputs: Seq<usize>,
) -> Seq<usize> {
    match kind {
        ConnectionType::InternalToInternal { source, sink } => if inputs[source as int] != 0
            && outputs[sink as int] == 0 {
            lowered(outputs, source as int)
        } else {
            outputs
        },
        _ => outputs,
    }
}

/// A neuron has an input exactly if its input count is not zero, and an
/// output exactly if its output count is not zero.
pub proof fn counts_tell_presence(wiring: Seq<Connection>, node: int)
    ensures
        has_input(wiring, node) <==> input_count(wiring, node) > 0,
        has_output(wiring, node) <==> output_count(wiring, node) > 0,
{
    filter_is_empty(wiring, feeders(node));
    filter_is_empty(wiring, drainers(node));
    if has_input(wiring, node) {
        let i = choose|i: int| 0 <= i < wiring.len() && feeds(#[trigger] wiring[i].kind(), node);
        assert(feeders(node)(wiring[i]));
    }
    if input_count(wiring, node) > 0 {
        let i = choose|i: int| 0 <= i < wiring.len() && feeders(node)(#[trigger] wiring[i]);
        assert(feeds(wiring[i].kind(), node));
    }
    if has_output(wiring, node) {
        let i = choose|i: int| 0 <= i < wiring.len() && drains(#[trigger] wiring[i].kind(), node);
        assert(drainers(node)(wiring[i]));
    }
    if output_count(wiring, node) > 0 {
        let i = choose|i: int| 0 <= i < wiring.len() && drainers(node)(#[trigger] wiring[i]);
        assert(drains(wiring[i].kind(), node));
    }
}

/// What examining one connection does. Where the counts call the connection
/// useful it is useful in the wiring. Where they call it useless it is
/// useless in the wiring, and the lowered counts are safe for the wiring
/// without it.
pub proof fn examined_connection(
    before: Seq<Connection>,
    e: Connection,
    after: Seq<Connection>,
    inputs: Seq<usize>,
    outputs: Seq<usize>,
)
    requires
        counts_cover(before + seq![e] + after, inputs, outputs),
        endpoints_in_range(e.kind()),
    ensures
        counted_useful(e.kind(), inputs, outputs) <==> is_useful(
            before + seq![e] + after,
            e.kind(),
        ),
        !counted_useful(e.kind(), inputs, outputs) ==> counts_cover(
            before + after,
            inputs_after(e.kind(), inputs, outputs),
            outputs_after(e.kind(), inputs, outputs),
        ),
{
    let wiring = before + seq![e] + after;
    let rest = before + after;
    assert forall|node: int| 0 <= node < MAX_INTERNAL_NEURONS implies {
        &&& input_count(wiring, node) == input_count(rest, node) + (if feeds(e.kind(), node) {
            1int
        } else {
            0int
        })
        &&& output_count(wiring, node) == output_count(rest, node) + (if drains(e.kind(), node) {
            1int
        } else {
            0int
        })
        &&& (has_input(wiring, node) <==> input_count(wiring, node) > 0)
        &&& (has_output(wiring, node) <==> output_count(wiring, node) > 0)
    } by {
        filter_counts(before, e, after, feeders(node));
        filter_counts(before, e, after, drainers(node));
        counts_tell_presence(wiring, node);
    }
    match e.kind() {
        ConnectionType::SensoryToAction { .. } => {},
        ConnectionType::SensoryToInternal { sink, .. } => {
            assert(feeds(e.kind(), sink as int));
            assert(inputs[sink as int] >= input_count(wiring, sink as int));
        },
        ConnectionType::InternalToInternal { source, sink } => {
            assert(inputs[source as int] >= input_count(wiring, source as int));
            assert(inputs[sink as int] >= input_count(wiring, sink as int));
            if source != sink {
                assert(feeds(e.kind(), sink as int));
                assert(drains(e.kind(), source as int));
            }
        },
        ConnectionType::InternalToAction { source, .. } => {
            assert(drains(e.kind(), source as int));
            assert(inputs[source as int] >= input_count(wiring, source as int));
        },
    }
    if !counted_useful(e.kind(), inputs, outputs) {
        let new_inputs = inputs_after(e.kind(), inputs, outputs);
        let new_outputs = outputs_after(e.kind(), inputs, outputs);
        assert forall|node: int| 0 <= node < MAX_INTERNAL_NEURONS implies {
            &&& #[trigger] new_inputs[node] >= input_count(rest, node)
            &&& new_outputs[node] >= output_count(rest, node)
            &&& (new_inputs[node] > input_count(rest, node) ==> new_outputs[node] == 0)
            &&& (new_outputs[node] > output_count(rest, node) ==> new_inputs[node] == 0)
        } by {
            assert(inputs[node] >= input_count(wiring, node));
        }
    }
}

impl Brain {
    /// Counts one connection in: a sensor feeding an internal neuron is an
    /// input of that neuron, an internal neuron driving an action has an
    /// output, and a connection between two different internal neurons is both.
    pub(crate) fn count_conn_input_output(
        conn: &Connection,
        neurons_input_count: &mut [usize; MAX_INTERNAL_NEURONS],
        neurons_output_count: &mut [usize; MAX_INTERNAL_NEURONS],
    )
        requires
            forall|node: int|
                0 <= node < MAX_INTERNAL_NEURONS ==> #[trigger] old(neurons_input_count)[node]
                    < usize::MAX,
            forall|node: int|
                0 <= node < MAX_INTERNAL_NEURONS ==> #[trigger] old(neurons_output_count)[node]
                    < usize::MAX,
        ensures
            forall|node: int|
                0 <= node < MAX_INTERNAL_NEURONS ==> #[trigger] final(neurons_input_count)[node]
                    == old(neurons_input_count)[node] + (if feeds(conn.kind(), node) {
                    1int
                } else {
                    0int
                }),
            forall|node: int|
                0 <= node < MAX_INTERNAL_NEURONS ==> #[trigger] final(neurons_output_count)[node]
                    == old(neurons_output_count)[node] + (if drains(conn.kind(), node) {
                    1int
                } else {
                    0int
                }),
    {
        match *conn.connection_type() {
            ConnectionType::SensoryToInternal { sink, .. } => {
                neurons_input_count[sink] = neurons_input_count[sink] + 1;
            },
            ConnectionType::InternalToAction { source, .. } => {
                neurons_output_count[source] = neurons_output_count[source] + 1;
            },
            ConnectionType::InternalToInternal { source, sink } => {
                if source != sink {
                    neurons_output_count[source] = neurons_output_count[source] + 1;
                    neurons_input_count[sink] = neurons_input_count[sink] + 1;
                }
            },
            ConnectionType::SensoryToAction { .. } => {},
        }
    }

    /// Decides on a connection between two internal neurons, and takes from
    /// the counts what its removal takes from its neighbour.
    pub(crate) fn handle_interconnection_case(
        source: InternalNeuronID,
        sink: InternalNeuronID,
        neurons_input_count: &mut [usize; MAX_INTERNAL_NEURONS],
        neurons_output_count: &mut [usize; MAX_INTERNAL_NEURONS],
    ) -> (useful: bool)
        requires
            source < MAX_INTERNAL_NEURONS,
            sink < MAX_INTERNAL_NEURONS,
        ensures
            useful == counted_useful(
                ConnectionType::InternalToInternal { source, sink },
                old(neurons_input_count)@,
                old(neurons_output_count)@,
            ),
            final(neurons_input_count)@ == inputs_after(
                ConnectionType::InternalToInternal { source, sink },
                old(neurons_input_count)@,
                old(neurons_output_count)@,
            ),
            final(neurons_output_count)@ == outputs_after(
                ConnectionType::InternalToInternal { source, sink },
                old(neurons_input_count)@,
                old(neurons_output_count)@,
            ),
    {
        if neurons_input_count[source] == 0 {
            let sink_input_count = neurons_input_count[sink];
            if let Some(num) = sink_input_count.checked_sub(1) {
                neurons_input_count[sink] = num;
            }
            return false;
        } else if neurons_output_count[sink] == 0 {
            let source_output_count = neurons_output_count[source];
            if let Some(num) = source_output_count.checked_sub(1) {
                neurons_output_count[source] = num;
            }
            return false;
        }
        true
    }

    /// Decides by the counts whether a connection stays.
    pub(crate) fn is_connection_useful(
        conn: &Connection,
        neurons_input_count: &mut [usize; MAX_INTERNAL_NEURONS],
        neurons_output_count: &mut [usize; MAX_INTERNAL_NEURONS],
    ) -> (useful: bool)
        ensures
            useful == counted_useful(
                conn.kind(),
                old(neurons_input_count)@,
                old(neurons_output_count)@,
            ),
            final(neurons_input_count)@ == inputs_after(
                conn.kind(),
                old(neurons_input_count)@,
                old(neurons_output_count)@,
            ),
            final(neurons_output_count)@ == outputs_after(
                conn.kind(),
                old(neurons_input_count)@,
                old(neurons_output_count)@,
            ),
    {
        match *conn.connection_type() {
            ConnectionType::SensoryToInternal { sink, .. } => neurons_output_count[sink] != 0,
            ConnectionType::InternalToAction { source, .. } => neurons_input_count[source] != 0,
            ConnectionType::InternalToInternal { source, sink } => {
                Self::handle_interconnection_case(
                    source,
                    sink,
                    neurons_input_count,
                    neurons_output_count,
                )
            },
            ConnectionType::SensoryToAction { .. } => true,
        }
    }

    /// One pass over the wiring: keeps what the counts call useful, in order.
    pub(crate) fn trimming_pass(
        connections: &Vec<Connection>,
        neurons_input_count: &mut [usize; MAX_INTERNAL_NEURONS],
        neurons_output_count: &mut [usize; MAX_INTERNAL_NEURONS],
    ) -> (kept: Vec<Connection>)
        requires
            counts_cover(connections@, old(neurons_input_count)@, old(neurons_output_count)@),
        ensures
            counts_cover(kept@, final(neurons_input_count)@, final(neurons_output_count)@),
            within(kept@, connections@),
            kept@.filter(live_in(connections@)) == pruned(connections@),
            kept@.len() <= connections@.len(),
            kept@.len() == connections@.len() ==> kept@ == connections@ && is_stable(
                connections@,
            ),
    {
        let mut kept: Vec<Connection> = Vec::new();
        let total = connections.len();
        let mut i: usize = 0;
        proof {
            assert(kept@ + connections@.subrange(0, total as int) =~= connections@);
        }
        while i < total
            invariant
                total == connections@.len(),
                i <= total,
                kept@.len() <= i,
                counts_cover(
                    kept@ + connections@.subrange(i as int, total as int),
                    neurons_input_count@,
                    neurons_output_count@,
                ),
                within(kept@ + connections@.subrange(i as int, total as int), connections@),
                (kept@ + connections@.subrange(i as int, total as int)).filter(
                    live_in(connections@),
                ) == pruned(connections@),
                kept@.len() == i ==> kept@ == connections@.subrange(0, i as int) && forall|j: int|
                    0 <= j < i ==> is_useful(connections@, #[trigger] connections@[j].kind()),
            decreases total - i,
        {
            let conn = connections[i];
            let ghost after = connections@.subrange(i + 1, total as int);
            let ghost current = kept@ + connections@.subrange(i as int, total as int);
            let ghost inputs = neurons_input_count@;
            let ghost outputs = neurons_output_count@;
            proof {
                use_type_invariant(&conn);
                assert(current =~= kept@ + seq![conn] + after);
                examined_connection(kept@, conn, after, inputs, outputs);
            }
            let useful = Self::is_connection_useful(
                &conn,
                neurons_input_count,
                neurons_output_count,
            );
            if useful {
                proof {
                    assert(kept@.push(conn) + after =~= current);
                    if kept@.len() == i {
                        assert(current =~= connections@);
                        assert(kept@.push(conn) =~= connections@.subrange(0, i + 1));
                    }
                }
                kept.push(conn);
            } else {
                proof {
                    let rest = kept@ + after;
                    useless_is_dead(current, connections@, conn);
                    filter_skips(kept@, conn, after, live_in(connections@));
                    assert forall|k: int| 0 <= k < rest.len() implies connections@.contains(
                        #[trigger] rest[k],
                    ) by {
                        if k < kept@.len() {
                            assert(current[k] == rest[k]);
                        } else {
                            assert(current[k + 1] == rest[k]);
                        }
                    }
                }
            }
            i = i + 1;
        }
        proof {
            assert(kept@ + connections@.subrange(total as int, total as int) =~= kept@);
            if kept@.len() == total {
                assert(connections@.subrange(0, total as int) =~= connections@);
            }
        }
        kept
    }

    /// Drops useless connections until a pass drops none. What is left is the
    /// pruned wiring.
    pub(crate) fn recursive_brain_trimming(
        connections: &mut Vec<Connection>,
        length_before: usize,
        neurons_input_count: &mut [usize; MAX_INTERNAL_NEURONS],
        neurons_output_count: &mut [usize; MAX_INTERNAL_NEURONS],
    )
        requires
            old(connections)@.len() <= length_before,
            counts_cover(
                old(connections)@,
                old(neurons_input_count)@,
                old(neurons_output_count)@,
            ),
        ensures
            final(connections)@ == pruned(old(connections)@),
        decreases length_before,
    {
        let kept = Self::trimming_pass(connections, neurons_input_count, neurons_output_count);
        proof {
            if kept@.len() < connections@.len() {
                pruned_after_removing_dead(kept@, connections@);
            } else {
                stable_is_kept(connections@);
            }
        }
        *connections = kept;
        if connections.len() < length_before {
            let length_before = connections.len();
            proof {
                if connections@.len() == old(connections)@.len() {
                    stable_is_kept(connections@);
                }
            }
            Self::recursive_brain_trimming(
                connections,
                length_before,
                neurons_input_count,
                neurons_output_count,
            );
        }
    }

    /// The wiring without the connections that can never influence an action.
    pub fn prune(connections: Vec<Connection>) -> (pruned_connections: Vec<Connection>)
        ensures
            pruned_connections@ == pruned(connections@),
            is_stable(pruned_connections@),
            within(pruned_connections@, connections@),
    {
        let mut connections = connections;
        let mut neurons_input_count: [usize; MAX_INTERNAL_NEURONS] = [0; MAX_INTERNAL_NEURONS];
        let mut neurons_output_count: [usize; MAX_INTERNAL_NEURONS] = [0; MAX_INTERNAL_NEURONS];
        let total = connections.len();
        let mut i: usize = 0;
        proof {
            reveal(Seq::filter);
            assert(connections@.subrange(0, 0) =~= Seq::<Connection>::empty());
        }
        while i < total
            invariant
                total == connections@.len(),
                i <= total,
                forall|node: int|
                    0 <= node < MAX_INTERNAL_NEURONS ==> #[trigger] neurons_input_count[node]
                        == input_count(connections@.subrange(0, i as int), node),
                forall|node: int|
                    0 <= node < MAX_INTERNAL_NEURONS ==> #[trigger] neurons_output_count[node]
                        == output_count(connections@.subrange(0, i as int), node),
            decreases total - i,
        {
            let ghost counted = connections@.subrange(0, i as int);
            proof {
                assert forall|node: int| 0 <= node < MAX_INTERNAL_NEURONS implies {
                    &&& input_count(counted, node) <= i
                    &&& output_count(counted, node) <= i
                    &&& input_count(counted.push(connections@[i as int]), node) == input_count(
                        counted,
                        node,
                    ) + (if feeds(connections@[i as int].kind(), node) {
                        1int
                    } else {
                        0int
                    })
                    &&& output_count(counted.push(connections@[i as int]), node) == output_count(
                        counted,
                        node,
                    ) + (if drains(connections@[i as int].kind(), node) {
                        1int
                    } else {
                        0int
                    })
                } by {
                    counted.lemma_filter_len(feeders(node));
                    counted.lemma_filter_len(drainers(node));
                    filter_push(counted, connections@[i as int], feeders(node));
                    filter_push(counted, connections@[i as int], drainers(node));
                }
                assert(counted.push(connections@[i as int]) =~= connections@.subrange(0, i + 1));
            }
            Self::count_conn_input_output(
                &connections[i],
                &mut neurons_input_count,
                &mut neurons_output_count,
            );
            i = i + 1;
        }
        proof {
            assert(connections@.subrange(0, total as int) =~= connections@);
            pruned_is_stable(connections@);
            pruned_members(connections@);
        }
        let length_before = connections.len();
        Self::recursive_brain_trimming(
            &mut connections,
            length_before,
            &mut neurons_input_count,
            &mut neurons_output_count,
        );
        connections
    }
}

} // verus!

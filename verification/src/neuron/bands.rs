//! The order in which the connections of a brain fire.
//!
//! Signals pass through a brain once. So that one pass is enough, the
//! connections stand in four bands: sensors to actions, sensors to internal
//! neurons, internal to internal neurons, internal neurons to actions.
//! Inside a band the connections keep the order of the genome.

use super::connection::Connection;
use crate::sequences::{filter_members, filter_push};
use vstd::prelude::*;

verus! {

/// The test that picks the connections of one band.
pub open spec fn in_band(band: int) -> spec_fn(Connection) -> bool {
    |c: Connection| c.kind().band() == band
}

/// The wiring laid out band after band, each band in the order of the wiring.
pub open spec fn banded(wiring: Seq<Connection>) -> Seq<Connection> {
    wiring.filter(in_band(0)) + wiring.filter(in_band(1)) + wiring.filter(in_band(2))
        + wiring.filter(in_band(3))
}

/// No connection stands before one of an earlier band.
pub open spec fn is_banded(wiring: Seq<Connection>) -> bool {
    forall|i: int, j: int|
        0 <= i <= j < wiring.len() ==> (#[trigger] wiring[i]).kind().band() <= (
        #[trigger] wiring[j]).kind().band()
}

/// The banded wiring is in band order, and holds the connections of the
/// wiring and no others.
pub proof fn banded_is_banded(wiring: Seq<Connection>)
    ensures
        is_banded(banded(wiring)),
        banded(wiring).len() == wiring.len(),
        forall|c: Connection| #[trigger] banded(wiring).contains(c) <==> wiring.contains(c),
{
    let b0 = wiring.filter(in_band(0));
    let b1 = wiring.filter(in_band(1));
    let b2 = wiring.filter(in_band(2));
    let b3 = wiring.filter(in_band(3));
    let all = banded(wiring);
    filter_members(wiring, in_band(0));
    filter_members(wiring, in_band(1));
    filter_members(wiring, in_band(2));
    filter_members(wiring, in_band(3));
    assert forall|i: int| 0 <= i < all.len() implies (#[trigger] all[i]).kind().band() == (if i
        < b0.len() {
        0int
    } else if i < b0.len() + b1.len() {
        1int
    } else if i < b0.len() + b1.len() + b2.len() {
        2int
    } else {
        3int
    }) by {
        if i < b0.len() {
            assert(b0.contains(b0[i]));
        } else if i < b0.len() + b1.len() {
            assert(b1.contains(b1[i - b0.len()]));
        } else if i < b0.len() + b1.len() + b2.len() {
            assert(b2.contains(b2[i - b0.len() - b1.len()]));
        } else {
            assert(b3.contains(b3[i - b0.len() - b1.len() - b2.len()]));
        }
    }
    assert forall|c: Connection| #[trigger] all.contains(c) <==> wiring.contains(c) by {
        if all.contains(c) {
            let i = choose|i: int| 0 <= i < all.len() && all[i] == c;
            if i < b0.len() {
                assert(b0.contains(b0[i]));
            } else if i < b0.len() + b1.len() {
                assert(b1.contains(b1[i - b0.len()]));
            } else if i < b0.len() + b1.len() + b2.len() {
                assert(b2.contains(b2[i - b0.len() - b1.len()]));
            } else {
                assert(b3.contains(b3[i - b0.len() - b1.len() - b2.len()]));
            }
        }
        if wiring.contains(c) {
            assert(in_band(c.kind().band())(c));
            if c.kind().band() == 0 {
                assert(b0.contains(c));
                let i = choose|i: int| 0 <= i < b0.len() && b0[i] == c;
                assert(all[i] == c);
            } else if c.kind().band() == 1 {
                assert(b1.contains(c));
                let i = choose|i: int| 0 <= i < b1.len() && b1[i] == c;
                assert(all[b0.len() + i] == c);
            } else if c.kind().band() == 2 {
                assert(b2.contains(c));
                let i = choose|i: int| 0 <= i < b2.len() && b2[i] == c;
                assert(all[b0.len() + b1.len() + i] == c);
            } else {
                assert(b3.contains(c));
                let i = choose|i: int| 0 <= i < b3.len() && b3[i] == c;
                assert(all[b0.len() + b1.len() + b2.len() + i] == c);
            }
        }
    }
    band_sizes(wiring);
}

/// Laying a wiring out in bands loses no connection and adds none: the
/// banded wiring holds every connection as often as the wiring does.
pub proof fn banded_is_a_rearrangement(wiring: Seq<Connection>)
    ensures
        banded(wiring).to_multiset() == wiring.to_multiset(),
    decreases wiring.len(),
{
    broadcast use vstd::multiset::group_multiset_axioms;

    let b0 = wiring.filter(in_band(0));
    let b1 = wiring.filter(in_band(1));
    let b2 = wiring.filter(in_band(2));
    let b3 = wiring.filter(in_band(3));
    vstd::seq_lib::lemma_multiset_commutative(b0 + b1 + b2, b3);
    vstd::seq_lib::lemma_multiset_commutative(b0 + b1, b2);
    vstd::seq_lib::lemma_multiset_commutative(b0, b1);
    if wiring.len() == 0 {
        reveal(Seq::filter);
        assert(banded(wiring) =~= wiring);
    } else {
        let front = wiring.drop_last();
        let last = wiring.last();
        let f0 = front.filter(in_band(0));
        let f1 = front.filter(in_band(1));
        let f2 = front.filter(in_band(2));
        let f3 = front.filter(in_band(3));
        banded_is_a_rearrangement(front);
        vstd::seq_lib::lemma_multiset_commutative(f0 + f1 + f2, f3);
        vstd::seq_lib::lemma_multiset_commutative(f0 + f1, f2);
        vstd::seq_lib::lemma_multiset_commutative(f0, f1);
        assert(front.push(last) =~= wiring);
        filter_push(front, last, in_band(0));
        filter_push(front, last, in_band(1));
        filter_push(front, last, in_band(2));
        filter_push(front, last, in_band(3));
        vstd::seq_lib::to_multiset_build(front, last);
        vstd::seq_lib::to_multiset_build(f0, last);
        vstd::seq_lib::to_multiset_build(f1, last);
        vstd::seq_lib::to_multiset_build(f2, last);
        vstd::seq_lib::to_multiset_build(f3, last);
        assert(banded(wiring).to_multiset() =~= banded(front).to_multiset().insert(last));
    }
}

/// The four bands together are as long as the wiring.
proof fn band_sizes(wiring: Seq<Connection>)
    ensures
        wiring.filter(in_band(0)).len() + wiring.filter(in_band(1)).len() + wiring.filter(
            in_band(2),
        ).len() + wiring.filter(in_band(3)).len() == wiring.len(),
    decreases wiring.len(),
{
    reveal(Seq::filter);
    if wiring.len() > 0 {
        band_sizes(wiring.drop_last());
    }
}

/// Selecting from a wiring in band order leaves it in band order.
pub proof fn filter_keeps_bands(wiring: Seq<Connection>, pred: spec_fn(Connection) -> bool)
    requires
        is_banded(wiring),
    ensures
        is_banded(wiring.filter(pred)),
    decreases wiring.len(),
{
    reveal(Seq::filter);
    if wiring.len() > 0 {
        let front = wiring.drop_last();
        let last = wiring.last();
        assert forall|i: int, j: int| 0 <= i <= j < front.len() implies (
        #[trigger] front[i]).kind().band() <= (#[trigger] front[j]).kind().band() by {
            assert(front[i] == wiring[i] && front[j] == wiring[j]);
        }
        filter_keeps_bands(front, pred);
        filter_members(front, pred);
        let kept = wiring.filter(pred);
        assert forall|i: int, j: int| 0 <= i <= j < kept.len() implies (
        #[trigger] kept[i]).kind().band() <= (#[trigger] kept[j]).kind().band() by {
            if j < front.filter(pred).len() {
                assert(kept[i] == front.filter(pred)[i] && kept[j] == front.filter(pred)[j]);
            } else if i < front.filter(pred).len() {
                assert(front.filter(pred).contains(front.filter(pred)[i]));
                let k = choose|k: int| 0 <= k < front.len() && front[k] == kept[i];
                assert(wiring[k] == kept[i]);
                assert(wiring[wiring.len() - 1] == kept[j]);
            }
        }
    }
}

/// Lays the connections out band after band.
pub fn order_connections(connections: &Vec<Connection>) -> (ordered: Vec<Connection>)
    ensures
        ordered@ == banded(connections@),
{
    let mut ordered: Vec<Connection> = Vec::new();
    let total = connections.len();
    let mut band: u8 = 0;
    proof {
        reveal(Seq::filter);
    }
    while band < 4
        invariant
            total == connections@.len(),
            band <= 4,
            ordered@ == bands_below(connections@, band as int),
        decreases 4 - band,
    {
        let ghost done = ordered@;
        let mut i: usize = 0;
        proof {
            assert(connections@.subrange(0, 0) =~= Seq::<Connection>::empty());
            reveal(Seq::filter);
            assert(done + connections@.subrange(0, 0).filter(in_band(band as int)) =~= done);
        }
        while i < total
            invariant
                total == connections@.len(),
                i <= total,
                band < 4,
                ordered@ == done + connections@.subrange(0, i as int).filter(in_band(band as int)),
            decreases total - i,
        {
            let conn = connections[i];
            proof {
                let seen = connections@.subrange(0, i as int);
                filter_push(seen, conn, in_band(band as int));
                assert(seen.push(conn) =~= connections@.subrange(0, i + 1));
                if conn.kind().band() == band {
                    assert(done + seen.filter(in_band(band as int)).push(conn) =~= (done
                        + seen.filter(in_band(band as int))).push(conn));
                }
            }
            if conn.connection_type().kind_id() == band {
                ordered.push(conn);
            }
            i = i + 1;
        }
        proof {
            assert(connections@.subrange(0, total as int) =~= connections@);
        }
        band = band + 1;
    }
    proof {
        reveal_with_fuel(bands_below, 5);
        assert(bands_below(connections@, 4) =~= banded(connections@));
    }
    ordered
}

/// The bands before `band`, one after the other.
pub open spec fn bands_below(wiring: Seq<Connection>, band: int) -> Seq<Connection>
    decreases band,
{
    if band <= 0 {
        Seq::empty()
    } else {
        bands_below(wiring, band - 1) + wiring.filter(in_band(band - 1))
    }
}

} // verus!

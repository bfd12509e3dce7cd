//! Evenly spaced offsets inside a span, from which every axis type that
//! counts in whole units takes its labels.
use vstd::arithmetic::div_mod::lemma_fundamental_div_mod_converse;
use vstd::prelude::*;

verus! {

/// How many offsets `k * optimal_distance`, `k = 1, 2, ...`, lie more than
/// `min_distance` before the end of a span.
pub open spec fn spaced_count(span: int, min_distance: int, optimal_distance: int) -> nat {
    if span > min_distance && optimal_distance > 0 {
        ((span - min_distance - 1) / optimal_distance) as nat
    } else {
        0
    }
}

/// The offsets `optimal_distance`, `2 * optimal_distance`, ... that lie
/// more than `min_distance` before the end of a span.
pub open spec fn spaced(span: int, min_distance: int, optimal_distance: int) -> Seq<u128> {
    Seq::new(
        spaced_count(span, min_distance, optimal_distance),
        |k: int| ((k + 1) * optimal_distance) as u128,
    )
}

proof fn lemma_count_reached(room: int, optimal_distance: int, count: int)
    requires
        0 < optimal_distance,
        0 <= count,
        count * optimal_distance < room || count == 0,
        0 < room <= (count + 1) * optimal_distance,
    ensures
        (room - 1) / optimal_distance == count,
{
    assert((count + 1) * optimal_distance == count * optimal_distance + optimal_distance)
        by (nonlinear_arith);
    assert(count == 0 ==> count * optimal_distance == 0) by (nonlinear_arith);
    lemma_fundamental_div_mod_converse(
        room - 1,
        optimal_distance,
        count,
        room - 1 - count * optimal_distance,
    );
}

pub fn spaced_offsets(span: u128, min_distance: u128, optimal_distance: u128) -> (offsets: Vec<
    u128,
>)
    requires
        0 < optimal_distance,
    ensures
        offsets@ == spaced(span as int, min_distance as int, optimal_distance as int),
        forall|k: int|
            0 <= k < offsets.len() ==> 0 < #[trigger] offsets[k] == (k + 1) * optimal_distance
                && offsets[k] + min_distance < span,
        forall|j: int, k: int|
            0 <= j < k < offsets.len() ==> #[trigger] offsets[j] < #[trigger] offsets[k],
{
    let mut offsets: Vec<u128> = Vec::new();
    if span <= min_distance {
        assert(offsets@ =~= spaced(span as int, min_distance as int, optimal_distance as int));
        return offsets;
    }
    let room: u128 = span - min_distance;
    let mut next: u128 = optimal_distance;
    let mut more: bool = next < room;
    proof {
        assert(1 * optimal_distance == optimal_distance) by (nonlinear_arith);
    }
    while more
        invariant
            0 < optimal_distance,
            room == span - min_distance,
            0 < room,
            more ==> next == (offsets.len() + 1) * optimal_distance && next < room,
            !more ==> room <= (offsets.len() + 1) * optimal_distance,
            offsets.len() * optimal_distance < room || offsets.len() == 0,
            forall|k: int|
                0 <= k < offsets.len() ==> 0 < #[trigger] offsets[k] == (k + 1) * optimal_distance
                    && offsets[k] < room,
            forall|k: int|
                0 <= k < offsets.len() ==> #[trigger] offsets[k] <= offsets.len()
                    * optimal_distance,
            forall|j: int, k: int|
                0 <= j < k < offsets.len() ==> #[trigger] offsets[j] < #[trigger] offsets[k],
        decreases room - offsets.len() * optimal_distance, more as int,
    {
        let ghost before = offsets.len() as int;
        proof {
            assert((before + 2) * optimal_distance == (before + 1) * optimal_distance
                + optimal_distance) by (nonlinear_arith);
            assert((before + 1) * optimal_distance == before * optimal_distance + optimal_distance)
                by (nonlinear_arith);
        }
        offsets.push(next);
        match next.checked_add(optimal_distance) {
            Some(further) => {
                next = further;
                more = next < room;
            },
            None => {
                more = false;
            },
        }
    }
    proof {
        lemma_count_reached(room as int, optimal_distance as int, offsets.len() as int);
        assert(offsets@ =~= spaced(span as int, min_distance as int, optimal_distance as int));
    }
    offsets
}

} // verus!

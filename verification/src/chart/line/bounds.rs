//! The least and the greatest of the values that a chart's plots hold.
use vstd::prelude::*;

use crate::chart::line::data::AxisData;
use crate::chart::line::data::AxisValue;
use crate::chart::line::data::Order;
use crate::chart::line::data::PlotSettings;

verus! {

/// The first of the values that none lies before; none of an empty
/// sequence.
pub open spec fn least_of<V: AxisValue>(values: Seq<V>) -> Option<V>
    decreases values.len(),
{
    if values.len() == 0 {
        None
    } else {
        match least_of(values.drop_last()) {
            None => Some(values.last()),
            Some(best) => if values.last().position() < best.position() {
                Some(values.last())
            } else {
                Some(best)
            },
        }
    }
}

/// The last of the values that none lies beyond; none of an empty
/// sequence.
pub open spec fn greatest_of<V: AxisValue>(values: Seq<V>) -> Option<V>
    decreases values.len(),
{
    if values.len() == 0 {
        None
    } else {
        match greatest_of(values.drop_last()) {
            None => Some(values.last()),
            Some(best) => if values.last().position() >= best.position() {
                Some(values.last())
            } else {
                Some(best)
            },
        }
    }
}

/// The least of some values is one of them, and none lies before it.
pub proof fn lemma_least_of<V: AxisValue>(values: Seq<V>)
    ensures
        least_of(values).is_none() <==> values.len() == 0,
        least_of(values) matches Some(best) ==> values.contains(best) && forall|i: int|
            0 <= i < values.len() ==> best.position() <= (#[trigger] values[i]).position(),
    decreases values.len(),
{
    if values.len() > 0 {
        let front = values.drop_last();
        lemma_least_of(front);
        let best = least_of(values).unwrap();
        assert forall|i: int| 0 <= i < values.len() implies best.position() <= (
        #[trigger] values[i]).position() by {
            if i < values.len() - 1 {
                assert(values[i] == front[i]);
            }
        }
        if best == values.last() {
            assert(values[values.len() - 1] == best);
        } else {
            let k = choose|k: int| 0 <= k < front.len() && front[k] == best;
            assert(values[k] == best);
        }
    }
}

/// The greatest of some values is one of them, and none lies beyond it.
pub proof fn lemma_greatest_of<V: AxisValue>(values: Seq<V>)
    ensures
        greatest_of(values).is_none() <==> values.len() == 0,
        greatest_of(values) matches Some(best) ==> values.contains(best) && forall|i: int|
            0 <= i < values.len() ==> best.position() >= (#[trigger] values[i]).position(),
    decreases values.len(),
{
    if values.len() > 0 {
        let front = values.drop_last();
        lemma_greatest_of(front);
        let best = greatest_of(values).unwrap();
        assert forall|i: int| 0 <= i < values.len() implies best.position() >= (
        #[trigger] values[i]).position() by {
            if i < values.len() - 1 {
                assert(values[i] == front[i]);
            }
        }
        if best == values.last() {
            assert(values[values.len() - 1] == best);
        } else {
            let k = choose|k: int| 0 <= k < front.len() && front[k] == best;
            assert(values[k] == best);
        }
    }
}

pub fn least<V: AxisValue>(values: &Vec<V>) -> (best: Option<V>)
    ensures
        best == least_of(values@),
{
    let mut best: Option<V> = None;
    let mut i: usize = 0;
    while i < values.len()
        invariant
            i <= values.len(),
            best == least_of(values@.take(i as int)),
        decreases values.len() - i,
    {
        proof {
            assert(values@.take(i + 1).drop_last() =~= values@.take(i as int));
        }
        best = match best {
            None => Some(values[i]),
            Some(held) => match values[i].compare_value(&held) {
                Order::Less => Some(values[i]),
                _ => Some(held),
            },
        };
        i = i + 1;
    }
    proof {
        assert(values@.take(i as int) =~= values@);
    }
    best
}

pub fn greatest<V: AxisValue>(values: &Vec<V>) -> (best: Option<V>)
    ensures
        best == greatest_of(values@),
{
    let mut best: Option<V> = None;
    let mut i: usize = 0;
    while i < values.len()
        invariant
            i <= values.len(),
            best == greatest_of(values@.take(i as int)),
        decreases values.len() - i,
    {
        proof {
            assert(values@.take(i + 1).drop_last() =~= values@.take(i as int));
        }
        best = match best {
            None => Some(values[i]),
            Some(held) => match values[i].compare_value(&held) {
                Order::Less => Some(held),
                _ => Some(values[i]),
            },
        };
        i = i + 1;
    }
    proof {
        assert(values@.take(i as int) =~= values@);
    }
    best
}

/// The x values of one plot, in its order.
pub open spec fn plot_x_values<XV: AxisValue, YV: AxisValue, XD: AxisData<XV>, YD: AxisData<YV>>(
    edges: Seq<(XD, YD)>,
) -> Seq<XV> {
    Seq::new(edges.len(), |i: int| edges[i].0.axis_value())
}

/// The y values of one plot, in its order.
pub open spec fn plot_y_values<XV: AxisValue, YV: AxisValue, XD: AxisData<XV>, YD: AxisData<YV>>(
    edges: Seq<(XD, YD)>,
) -> Seq<YV> {
    Seq::new(edges.len(), |i: int| edges[i].1.axis_value())
}

/// The x values of all plots, plot after plot.
pub open spec fn all_x_values<XV: AxisValue, YV: AxisValue, XD: AxisData<XV>, YD: AxisData<YV>>(
    data: Seq<(PlotSettings, Vec<(XD, YD)>)>,
) -> Seq<XV>
    decreases data.len(),
{
    if data.len() == 0 {
        Seq::empty()
    } else {
        all_x_values::<XV, YV, XD, YD>(data.drop_last()) + plot_x_values::<XV, YV, XD, YD>(
            data.last().1@,
        )
    }
}

/// The y values of all plots, plot after plot.
pub open spec fn all_y_values<XV: AxisValue, YV: AxisValue, XD: AxisData<XV>, YD: AxisData<YV>>(
    data: Seq<(PlotSettings, Vec<(XD, YD)>)>,
) -> Seq<YV>
    decreases data.len(),
{
    if data.len() == 0 {
        Seq::empty()
    } else {
        all_y_values::<XV, YV, XD, YD>(data.drop_last()) + plot_y_values::<XV, YV, XD, YD>(
            data.last().1@,
        )
    }
}

pub fn collect_x_values<XV: AxisValue, YV: AxisValue, XD: AxisData<XV>, YD: AxisData<YV>>(
    data: &Vec<(PlotSettings, Vec<(XD, YD)>)>,
) -> (values: Vec<XV>)
    ensures
        values@ == all_x_values::<XV, YV, XD, YD>(data@),
{
    let mut values: Vec<XV> = Vec::new();
    let mut s: usize = 0;
    while s < data.len()
        invariant
            s <= data.len(),
            values@ == all_x_values::<XV, YV, XD, YD>(data@.take(s as int)),
        decreases data.len() - s,
    {
        let edges = &data[s].1;
        let ghost before = values@;
        let mut i: usize = 0;
        while i < edges.len()
            invariant
                i <= edges.len(),
                values@ == before + plot_x_values::<XV, YV, XD, YD>(edges@.take(i as int)),
            decreases edges.len() - i,
        {
            values.push(*edges[i].0.value());
            proof {
                assert(values@ =~= before + plot_x_values::<XV, YV, XD, YD>(
                    edges@.take(i + 1),
                ));
            }
            i = i + 1;
        }
        proof {
            assert(edges@.take(i as int) =~= edges@);
            assert(data@.take(s + 1).drop_last() =~= data@.take(s as int));
        }
        s = s + 1;
    }
    proof {
        assert(data@.take(s as int) =~= data@);
    }
    values
}

pub fn collect_y_values<XV: AxisValue, YV: AxisValue, XD: AxisData<XV>, YD: AxisData<YV>>(
    data: &Vec<(PlotSettings, Vec<(XD, YD)>)>,
) -> (values: Vec<YV>)
    ensures
        values@ == all_y_values::<XV, YV, XD, YD>(data@),
{
    let mut values: Vec<YV> = Vec::new();
    let mut s: usize = 0;
    while s < data.len()
        invariant
            s <= data.len(),
            values@ == all_y_values::<XV, YV, XD, YD>(data@.take(s as int)),
        decreases data.len() - s,
    {
        let edges = &data[s].1;
        let ghost before = values@;
        let mut i: usize = 0;
        while i < edges.len()
            invariant
                i <= edges.len(),
                values@ == before + plot_y_values::<XV, YV, XD, YD>(edges@.take(i as int)),
            decreases edges.len() - i,
        {
            values.push(*edges[i].1.value());
            proof {
                assert(values@ =~= before + plot_y_values::<XV, YV, XD, YD>(
                    edges@.take(i + 1),
                ));
            }
            i = i + 1;
        }
        proof {
            assert(edges@.take(i as int) =~= edges@);
            assert(data@.take(s + 1).drop_last() =~= data@.take(s as int));
        }
        s = s + 1;
    }
    proof {
        assert(data@.take(s as int) =~= data@);
    }
    values
}

/// The plots hold as many x values as y values.
pub proof fn lemma_same_count<XV: AxisValue, YV: AxisValue, XD: AxisData<XV>, YD: AxisData<YV>>(
    data: Seq<(PlotSettings, Vec<(XD, YD)>)>,
)
    ensures
        all_x_values::<XV, YV, XD, YD>(data).len() == all_y_values::<XV, YV, XD, YD>(data).len(),
    decreases data.len(),
{
    if data.len() > 0 {
        lemma_same_count::<XV, YV, XD, YD>(data.drop_last());
    }
}

} // verus!

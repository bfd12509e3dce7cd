//! Which point and which line of a chart the pointer selects.
use vstd::prelude::*;

use crate::geometry::Point;
use crate::math::lemma_point_distance_fits;
use crate::math::lemma_segment_distance_fits;
use crate::math::lemma_shorter_than_chains;
use crate::math::point_distance;
use crate::math::point_distance_squared;
use crate::math::point_to_interval_distance;
use crate::math::segment_distance_squared;
use crate::math::SquaredDistance;

verus! {

/// A point is selected from as far as this many pixels.
pub const POINT_REACH: u16 = 14;

/// A line is selected from as far as this many pixels.
pub const LINE_REACH: u16 = 6;

/// A place in a chart's plots: the number of a plot, and in it the number
/// of a point, or of the line that starts at that point.
#[derive(Clone, Copy, Debug, PartialEq, Eq, Structural)]
pub struct Hit {
    pub series: usize,
    pub index: usize,
}

/// Whether the place `(s1, i1)` comes no later than `(s2, i2)`, plot by
/// plot and within a plot from its first point on.
pub open spec fn no_later(s1: int, i1: int, s2: int, i2: int) -> bool {
    s1 < s2 || (s1 == s2 && i1 <= i2)
}

/// The entry of a table of distances at a place.
pub open spec fn entry(table: Seq<Seq<SquaredDistance>>, s: int, i: int) -> SquaredDistance {
    table[s][i]
}

/// Whether `(s, i)` is a place in the table.
pub open spec fn has_entry(table: Seq<Seq<SquaredDistance>>, s: int, i: int) -> bool {
    0 <= s < table.len() && 0 <= i < table[s].len()
}

/// Whether `hit` is the place of the shortest distance in the table among
/// those within `reach`, and of equally short ones the first.
pub open spec fn is_nearest(table: Seq<Seq<SquaredDistance>>, reach: u16, hit: Hit) -> bool {
    &&& has_entry(table, hit.series as int, hit.index as int)
    &&& entry(table, hit.series as int, hit.index as int).within(reach)
    &&& forall|s: int, i: int|
        has_entry(table, s, i) && (#[trigger] entry(table, s, i)).within(reach) ==> {
            let best = entry(table, hit.series as int, hit.index as int);
            &&& !entry(table, s, i).shorter_than(&best)
            &&& !best.shorter_than(&entry(table, s, i)) ==> no_later(
                hit.series as int,
                hit.index as int,
                s,
                i,
            )
        }
}

/// Whether no distance in the table is within `reach`.
pub open spec fn none_within(table: Seq<Seq<SquaredDistance>>, reach: u16) -> bool {
    forall|s: int, i: int| has_entry(table, s, i) ==> !(#[trigger] entry(table, s, i)).within(reach)
}

/// What a search of the table may give: the nearest place, or none where
/// nothing is in reach.
pub open spec fn is_outcome(table: Seq<Seq<SquaredDistance>>, reach: u16, hit: Option<Hit>) -> bool {
    match hit {
        Some(h) => is_nearest(table, reach, h),
        None => none_within(table, reach),
    }
}

/// The same table searched twice gives the same place: a search has one
/// outcome only.
pub proof fn lemma_outcome_is_determined(
    table: Seq<Seq<SquaredDistance>>,
    reach: u16,
    first: Option<Hit>,
    second: Option<Hit>,
)
    requires
        is_outcome(table, reach, first),
        is_outcome(table, reach, second),
    ensures
        first == second,
{
    match (first, second) {
        (Some(a), Some(b)) => {
            let x = entry(table, a.series as int, a.index as int);
            let y = entry(table, b.series as int, b.index as int);
            assert(!y.shorter_than(&x));
            assert(!x.shorter_than(&y));
        },
        (Some(a), None) => {
            assert(!entry(table, a.series as int, a.index as int).within(reach));
        },
        (None, Some(b)) => {
            assert(!entry(table, b.series as int, b.index as int).within(reach));
        },
        (None, None) => {},
    }
}

/// Whether every distance in the table is well formed.
pub open spec fn table_wf(table: Seq<Seq<SquaredDistance>>) -> bool {
    forall|s: int, i: int| has_entry(table, s, i) ==> (#[trigger] entry(table, s, i)).wf()
}

/// Whether `hit` is the nearest place among those that come before
/// `(s, i)`.
spec fn is_nearest_before(
    table: Seq<Seq<SquaredDistance>>,
    reach: u16,
    hit: Option<Hit>,
    s: int,
    i: int,
) -> bool {
    match hit {
        Some(h) => {
            let best = entry(table, h.series as int, h.index as int);
            &&& has_entry(table, h.series as int, h.index as int)
            &&& !no_later(s, i, h.series as int, h.index as int)
            &&& best.within(reach)
            &&& forall|t: int, k: int|
                has_entry(table, t, k) && !no_later(s, i, t, k) && (#[trigger] entry(
                    table,
                    t,
                    k,
                )).within(reach) ==> {
                    &&& !entry(table, t, k).shorter_than(&best)
                    &&& !best.shorter_than(&entry(table, t, k)) ==> no_later(
                        h.series as int,
                        h.index as int,
                        t,
                        k,
                    )
                }
        },
        None => forall|t: int, k: int|
            has_entry(table, t, k) && !no_later(s, i, t, k) ==> !(#[trigger] entry(
                table,
                t,
                k,
            )).within(reach),
    }
}

/// The points of some plots as plain sequences.
pub open spec fn plots(points: Seq<Vec<Point>>) -> Seq<Seq<Point>> {
    Seq::new(points.len(), |s: int| points[s]@)
}

/// The rows of a table as plain sequences.
pub open spec fn rows(table: Seq<Vec<SquaredDistance>>) -> Seq<Seq<SquaredDistance>> {
    Seq::new(table.len(), |s: int| table[s]@)
}

/// The place of the shortest distance within `reach`; of equally short
/// ones the first.
pub fn nearest(table: &Vec<Vec<SquaredDistance>>, reach: u16) -> (hit: Option<Hit>)
    requires
        table_wf(rows(table@)),
    ensures
        is_outcome(rows(table@), reach, hit),
{
    let ghost all = rows(table@);
    let mut hit: Option<Hit> = None;
    let mut s: usize = 0;
    while s < table.len()
        invariant
            s <= table.len(),
            all == rows(table@),
            table_wf(all),
            is_nearest_before(all, reach, hit, s as int, 0),
        decreases table.len() - s,
    {
        let row = &table[s];
        let mut i: usize = 0;
        while i < row.len()
            invariant
                s < table.len(),
                i <= row.len(),
                row == &table@[s as int],
                all == rows(table@),
                table_wf(all),
                is_nearest_before(all, reach, hit, s as int, i as int),
            decreases row.len() - i,
        {
            let candidate = row[i];
            assert(candidate == entry(all, s as int, i as int));
            assert(candidate.wf());
            if candidate.is_within(reach) {
                let better = match hit {
                    None => true,
                    Some(held) => {
                        let best = table[held.series][held.index];
                        assert(best == entry(all, held.series as int, held.index as int));
                        candidate.is_shorter_than(&best)
                    },
                };
                if better {
                    proof {
                        if let Some(held) = hit {
                            let best = entry(all, held.series as int, held.index as int);
                            assert forall|t: int, k: int|
                                has_entry(all, t, k) && !no_later(s as int, i as int, t, k) && (
                                #[trigger] entry(all, t, k)).within(
                                    reach,
                                ) implies candidate.shorter_than(&entry(all, t, k)) && !entry(
                                all,
                                t,
                                k,
                            ).shorter_than(&candidate) by {
                                lemma_shorter_than_chains(candidate, best, entry(all, t, k));
                            }
                        }
                    }
                    hit = Some(Hit { series: s, index: i });
                }
            }
            i = i + 1;
        }
        s = s + 1;
    }
    hit
}

/// The distances from `cursor` to each point of each plot.
pub open spec fn point_distances(points: Seq<Seq<Point>>, cursor: Point) -> Seq<
    Seq<SquaredDistance>,
> {
    Seq::new(
        points.len(),
        |s: int|
            Seq::new(
                points[s].len(),
                |i: int|
                    SquaredDistance {
                        whole: point_distance_squared(cursor, points[s][i]) as u128,
                        rest: 0,
                        denominator: 1,
                    },
            ),
    )
}

/// How many lines a plot of so many points has.
pub open spec fn line_count(points: nat) -> nat {
    if points == 0 {
        0
    } else {
        (points - 1) as nat
    }
}

/// The distances from `cursor` to each line of each plot: to the segment
/// from each point but the last to the point after it.
pub open spec fn line_distances(points: Seq<Seq<Point>>, cursor: Point) -> Seq<
    Seq<SquaredDistance>,
> {
    Seq::new(
        points.len(),
        |s: int|
            Seq::new(
                line_count(points[s].len()),
                |i: int|
                    SquaredDistance::of(
                        segment_distance_squared(cursor, points[s][i], points[s][i + 1]).0,
                        segment_distance_squared(cursor, points[s][i], points[s][i + 1]).1,
                    ),
            ),
    )
}

pub fn point_table(points: &Vec<Vec<Point>>, cursor: Point) -> (table: Vec<Vec<SquaredDistance>>)
    ensures
        rows(table@) == point_distances(plots(points@), cursor),
        table_wf(rows(table@)),
{
    let mut table: Vec<Vec<SquaredDistance>> = Vec::new();
    let mut s: usize = 0;
    while s < points.len()
        invariant
            s <= points.len(),
            table.len() == s,
            forall|t: int| 0 <= t < s ==> (#[trigger] table[t])@ == point_distances(plots(points@), cursor)[t],
        decreases points.len() - s,
    {
        let plot = &points[s];
        let mut row: Vec<SquaredDistance> = Vec::new();
        let mut i: usize = 0;
        while i < plot.len()
            invariant
                i <= plot.len(),
                row.len() == i,
                forall|k: int|
                    0 <= k < i ==> (#[trigger] row[k]) == (SquaredDistance {
                        whole: point_distance_squared(cursor, plot[k]) as u128,
                        rest: 0,
                        denominator: 1,
                    }),
            decreases plot.len() - i,
        {
            row.push(point_distance(cursor, plot[i]));
            i = i + 1;
        }
        assert(row@ =~= point_distances(plots(points@), cursor)[s as int]);
        table.push(row);
        s = s + 1;
    }
    assert(rows(table@) =~= point_distances(plots(points@), cursor));
    table
}

pub fn line_table(points: &Vec<Vec<Point>>, cursor: Point) -> (table: Vec<Vec<SquaredDistance>>)
    ensures
        rows(table@) == line_distances(plots(points@), cursor),
        table_wf(rows(table@)),
{
    let mut table: Vec<Vec<SquaredDistance>> = Vec::new();
    let mut s: usize = 0;
    while s < points.len()
        invariant
            s <= points.len(),
            table.len() == s,
            forall|t: int| 0 <= t < s ==> (#[trigger] table[t])@ == line_distances(plots(points@), cursor)[t],
            forall|t: int, k: int|
                0 <= t < s && 0 <= k < table[t].len() ==> (#[trigger] table[t][k]).wf(),
        decreases points.len() - s,
    {
        let plot = &points[s];
        let mut row: Vec<SquaredDistance> = Vec::new();
        let mut i: usize = 0;
        while i + 1 < plot.len()
            invariant
                i <= line_count(plot.len() as nat),
                row.len() == i,
                forall|k: int|
                    0 <= k < i ==> (#[trigger] row[k]).wf() && row[k] == SquaredDistance::of(
                        segment_distance_squared(cursor, plot[k], plot[k + 1]).0,
                        segment_distance_squared(cursor, plot[k], plot[k + 1]).1,
                    ),
            decreases plot.len() - i,
        {
            row.push(point_to_interval_distance(cursor, plot[i], plot[i + 1]));
            i = i + 1;
        }
        assert(row@ =~= line_distances(plots(points@), cursor)[s as int]);
        table.push(row);
        s = s + 1;
    }
    assert(rows(table@) =~= line_distances(plots(points@), cursor));
    table
}

/// What the pointer selects: the nearest point in reach; and where no
/// point is in reach, the nearest line in reach.
#[derive(Clone, Copy, Debug, PartialEq, Eq, Structural)]
pub struct Selection {
    pub point: Option<Hit>,
    pub line: Option<Hit>,
}

impl Selection {
    /// The number of the selected plot: the plot of the selected point, or
    /// else of the selected line.
    pub open spec fn plot_of(&self) -> Option<usize> {
        match self.point {
            Some(hit) => Some(hit.series),
            None => match self.line {
                Some(hit) => Some(hit.series),
                None => None,
            },
        }
    }

    pub fn plot(&self) -> (series: Option<usize>)
        ensures
            series == self.plot_of(),
    {
        match self.point {
            Some(hit) => Some(hit.series),
            None => match self.line {
                Some(hit) => Some(hit.series),
                None => None,
            },
        }
    }
}

/// Whether `selection` is what a pointer at `cursor` selects among the
/// points. Without a pointer nothing is selected.
pub open spec fn is_selection(
    points: Seq<Seq<Point>>,
    cursor: Option<Point>,
    selection: Selection,
) -> bool {
    match cursor {
        None => selection.point.is_none() && selection.line.is_none(),
        Some(at) => {
            &&& is_outcome(point_distances(points, at), POINT_REACH, selection.point)
            &&& selection.point.is_some() ==> selection.line.is_none()
            &&& selection.point.is_none() ==> is_outcome(
                line_distances(points, at),
                LINE_REACH,
                selection.line,
            )
        },
    }
}

/// What a pointer at `cursor` selects among the points.
pub open spec fn selection_of(points: Seq<Seq<Point>>, cursor: Option<Point>) -> Selection {
    choose|selection: Selection| is_selection(points, cursor, selection)
}

/// With the pointer at the same place over the same points, the selection
/// is the same: there is one selection only.
pub proof fn lemma_selection_is_determined(
    points: Seq<Seq<Point>>,
    cursor: Option<Point>,
    first: Selection,
    second: Selection,
)
    requires
        is_selection(points, cursor, first),
        is_selection(points, cursor, second),
    ensures
        first == second,
{
    if let Some(at) = cursor {
        lemma_outcome_is_determined(
            point_distances(points, at),
            POINT_REACH,
            first.point,
            second.point,
        );
        if first.point.is_none() {
            lemma_outcome_is_determined(
                line_distances(points, at),
                LINE_REACH,
                first.line,
                second.line,
            );
        }
    }
}

/// Finds what the pointer selects.
pub fn select(points: &Vec<Vec<Point>>, cursor: Option<Point>) -> (selection: Selection)
    ensures
        is_selection(plots(points@), cursor, selection),
        selection == selection_of(plots(points@), cursor),
{
    let selection = match cursor {
        None => Selection { point: None, line: None },
        Some(at) => {
            let point = nearest(&point_table(points, at), POINT_REACH);
            match point {
                Some(_) => Selection { point, line: None },
                None => {
                    let line = nearest(&line_table(points, at), LINE_REACH);
                    Selection { point: None, line }
                },
            }
        },
    };
    proof {
        assert(is_selection(plots(points@), cursor, selection));
        lemma_selection_is_determined(
            plots(points@),
            cursor,
            selection,
            selection_of(plots(points@), cursor),
        );
    }
    selection
}

/// Whether point `i` of plot `s` is within reach of the pointer.
pub open spec fn point_in_reach(points: Seq<Seq<Point>>, cursor: Point, s: int, i: int) -> bool {
    point_distance_squared(cursor, points[s][i]) <= POINT_REACH * POINT_REACH
}

/// Whether the line from point `i` of plot `s` to the next point is within
/// reach of the pointer.
pub open spec fn line_in_reach(points: Seq<Seq<Point>>, cursor: Point, s: int, i: int) -> bool {
    let to_line = segment_distance_squared(cursor, points[s][i], points[s][i + 1]);
    to_line.0 <= LINE_REACH * LINE_REACH * to_line.1
}

/// Whether the pointer could select something: some point of some plot is
/// within its reach, or some line.
pub open spec fn anything_in_reach(points: Seq<Seq<Point>>, cursor: Point) -> bool {
    ||| exists|s: int, i: int|
        0 <= s < points.len() && 0 <= i < points[s].len() && #[trigger] point_in_reach(
            points,
            cursor,
            s,
            i,
        )
    ||| exists|s: int, i: int|
        0 <= s < points.len() && 0 <= i && i + 1 < points[s].len() && #[trigger] line_in_reach(
            points,
            cursor,
            s,
            i,
        )
}

/// The pointer selects a plot exactly where something is within its
/// reach.
pub proof fn lemma_selection_takes_what_is_in_reach(
    points: Seq<Seq<Point>>,
    cursor: Point,
    selection: Selection,
)
    requires
        is_selection(points, Some(cursor), selection),
    ensures
        selection.plot_of().is_some() == anything_in_reach(points, cursor),
{
    let to_points = point_distances(points, cursor);
    let to_lines = line_distances(points, cursor);
    assert forall|s: int, i: int| has_entry(to_points, s, i) implies (#[trigger] entry(
        to_points,
        s,
        i,
    )).within(POINT_REACH) == point_in_reach(points, cursor, s, i) by {
        lemma_point_distance_fits(cursor, points[s][i]);
        let whole = point_distance_squared(cursor, points[s][i]);
        assert(whole * 1 + 0 == whole && POINT_REACH * POINT_REACH * 1 == POINT_REACH
            * POINT_REACH) by (nonlinear_arith);
    }
    assert forall|s: int, i: int| has_entry(to_lines, s, i) implies (#[trigger] entry(
        to_lines,
        s,
        i,
    )).within(LINE_REACH) == line_in_reach(points, cursor, s, i) by {
        lemma_segment_distance_fits(cursor, points[s][i], points[s][i + 1]);
    }
    match selection.point {
        Some(hit) => {
            assert(has_entry(to_points, hit.series as int, hit.index as int));
            assert(point_in_reach(points, cursor, hit.series as int, hit.index as int));
        },
        None => {
            assert forall|s: int, i: int|
                0 <= s < points.len() && 0 <= i < points[s].len() implies !#[trigger] point_in_reach(
                points,
                cursor,
                s,
                i,
            ) by {
                assert(has_entry(to_points, s, i));
                assert(!entry(to_points, s, i).within(POINT_REACH));
            }
            match selection.line {
                Some(hit) => {
                    assert(has_entry(to_lines, hit.series as int, hit.index as int));
                    assert(line_in_reach(points, cursor, hit.series as int, hit.index as int));
                },
                None => {
                    assert forall|s: int, i: int|
                        0 <= s < points.len() && 0 <= i && i + 1
                            < points[s].len() implies !#[trigger] line_in_reach(
                        points,
                        cursor,
                        s,
                        i,
                    ) by {
                        assert(has_entry(to_lines, s, i));
                        assert(!entry(to_lines, s, i).within(LINE_REACH));
                    }
                },
            }
        },
    }
}

/// Whether the pointer could select something.
pub fn is_over_anything(points: &Vec<Vec<Point>>, cursor: Point) -> (over: bool)
    ensures
        over == anything_in_reach(plots(points@), cursor),
        over == selection_of(plots(points@), Some(cursor)).plot_of().is_some(),
{
    let selection = select(points, Some(cursor));
    proof {
        lemma_selection_takes_what_is_in_reach(plots(points@), cursor, selection);
    }
    selection.plot().is_some()
}

} // verus!

//! Numbers with two decimal places as axis values: they count in
//! hundredths.
use vstd::prelude::*;

use crate::chart::line::data::numbers::magnitude;
use crate::chart::line::data::numbers::offset_signed;
use crate::chart::line::data::numbers::span_signed;
use crate::chart::line::data::spacing::spaced_count;
use crate::chart::line::data::spacing::spaced_offsets;
use crate::chart::line::data::text::two_decimal_string;
use crate::chart::line::data::text::two_decimal_text;
use crate::chart::line::data::AxisData;
use crate::chart::line::data::AxisValue;
use crate::chart::line::data::Order;

verus! {

/// A number with two decimal places, held as its count of hundredths.
#[derive(Clone, Copy, Debug, PartialEq, Eq, Structural)]
pub struct Hundredths(pub i64);

impl AxisValue for Hundredths {
    open spec fn position(&self) -> int {
        self.0 as int
    }

    open spec fn step(&self, delta: u128) -> Option<Self> {
        if self.0 + delta <= i64::MAX {
            Some(Hundredths((self.0 + delta) as i64))
        } else {
            None
        }
    }

    open spec fn between(&self, other: &Self, min_distance: u128, optimal_distance: u128) -> Seq<
        Self,
    > {
        Seq::new(
            spaced_count(other.0 - self.0, min_distance as int, optimal_distance as int),
            |k: int| Hundredths((self.0 + (k + 1) * optimal_distance) as i64),
        )
    }

    fn compare_value(&self, other: &Self) -> (order: Order) {
        if self.0 < other.0 {
            Order::Less
        } else if self.0 == other.0 {
            Order::Equal
        } else {
            Order::Greater
        }
    }

    fn distance_to(&self, other: &Self) -> (distance: u128) {
        span_signed(self.0 as i128, other.0 as i128)
    }

    fn add(&self, value: u128) -> (next: Option<Self>) {
        match offset_signed(self.0 as i128, value, i64::MAX as i128) {
            Some(sum) => Some(Hundredths(sum as i64)),
            None => None,
        }
    }

    fn get_values_in_between(
        &self,
        other: &Self,
        min_distance: u128,
        optimal_distance: u128,
    ) -> (values: Vec<Self>) {
        let span = self.distance_to(other);
        let offsets = spaced_offsets(span, min_distance, optimal_distance);
        let mut values: Vec<Hundredths> = Vec::new();
        let mut i: usize = 0;
        while i < offsets.len()
            invariant
                i <= offsets.len(),
                values.len() == i,
                span == other.0 - self.0,
                forall|k: int|
                    0 <= k < offsets.len() ==> 0 < #[trigger] offsets[k] == (k + 1)
                        * optimal_distance && offsets[k] + min_distance < span,
                forall|j: int, k: int|
                    0 <= j < k < offsets.len() ==> #[trigger] offsets[j] < #[trigger] offsets[k],
                forall|k: int| 0 <= k < i ==> (#[trigger] values[k]).0 == self.0 + offsets[k],
            decreases offsets.len() - i,
        {
            if let Some(value) = self.add(offsets[i]) {
                values.push(value);
            }
            i = i + 1;
        }
        assert(values@ =~= self.between(other, min_distance, optimal_distance));
        values
    }
}

impl AxisData<Hundredths> for Hundredths {
    open spec fn axis_value(&self) -> Hundredths {
        *self
    }

    open spec fn display_text(value: &Hundredths) -> Seq<char> {
        two_decimal_text(value.0 as int)
    }

    open spec fn description_text(&self) -> Seq<char> {
        two_decimal_text(self.0 as int)
    }

    fn value(&self) -> (v: &Hundredths) {
        self
    }

    fn display_value(value: &Hundredths) -> (text: String) {
        two_decimal_string(value.0 < 0, magnitude(value.0 as i128))
    }

    fn description(&self) -> (text: String) {
        two_decimal_string(self.0 < 0, magnitude(self.0 as i128))
    }
}

} // verus!

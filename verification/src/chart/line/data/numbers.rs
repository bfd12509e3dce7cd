//! The whole-number types as axis values: each counts in units of one.
use vstd::prelude::*;

use crate::chart::line::data::order_of;
use crate::chart::line::data::spacing::spaced_count;
use crate::chart::line::data::spacing::spaced_offsets;
use crate::chart::line::data::text::decimal_string;
use crate::chart::line::data::text::decimal_text;
use crate::chart::line::data::AxisData;
use crate::chart::line::data::AxisValue;
use crate::chart::line::data::Order;

verus! {

/// `high - low`, which always fits an unsigned number of the same width.
pub fn span_signed(low: i128, high: i128) -> (span: u128)
    requires
        low <= high,
    ensures
        span == high - low,
{
    if low >= 0 || high < 0 {
        (high - low) as u128
    } else {
        (high as u128) + ((-(low + 1)) as u128) + 1
    }
}

/// `base + delta`, where that does not exceed `max`.
pub fn offset_unsigned(base: u128, delta: u128, max: u128) -> (sum: Option<u128>)
    requires
        base <= max,
    ensures
        sum == if base + delta <= max {
            Some((base + delta) as u128)
        } else {
            None
        },
{
    if delta <= max - base {
        Some(base + delta)
    } else {
        None
    }
}

/// `base + delta`, where that does not exceed `max`.
pub fn offset_signed(base: i128, delta: u128, max: i128) -> (sum: Option<i128>)
    requires
        base <= max,
    ensures
        sum == if base + delta <= max {
            Some((base + delta) as i128)
        } else {
            None
        },
{
    let room = span_signed(base, max);
    if delta > room {
        None
    } else if delta <= i128::MAX as u128 {
        Some(base + delta as i128)
    } else {
        let rest: u128 = delta - (i128::MAX as u128) - 1;
        Some(base + i128::MAX + 1 + rest as i128)
    }
}

/// The size of a number, without its sign.
pub fn magnitude(v: i128) -> (size: u128)
    ensures
        size == if v < 0 {
            -v
        } else {
            v as int
        },
{
    if v < 0 {
        span_signed(v, 0)
    } else {
        v as u128
    }
}

impl AxisValue for u8 {
    open spec fn position(&self) -> int {
        *self as int
    }

    open spec fn step(&self, delta: u128) -> Option<Self> {
        if *self + delta <= u8::MAX {
            Some((*self + delta) as u8)
        } else {
            None
        }
    }

    open spec fn between(&self, other: &Self, min_distance: u128, optimal_distance: u128) -> Seq<
        Self,
    > {
        Seq::new(
            spaced_count(*other - *self, min_distance as int, optimal_distance as int),
            |k: int| (*self + (k + 1) * optimal_distance) as u8,
        )
    }

    fn compare_value(&self, other: &Self) -> (order: Order) {
        if *self < *other {
            Order::Less
        } else if *self == *other {
            Order::Equal
        } else {
            Order::Greater
        }
    }

    fn distance_to(&self, other: &Self) -> (distance: u128) {
        (*other - *self) as u128
    }

    fn add(&self, value: u128) -> (next: Option<Self>) {
        match offset_unsigned(*self as u128, value, u8::MAX as u128) {
            Some(sum) => Some(sum as u8),
            None => None,
        }
    }

    fn get_values_in_between(
        &self,
        other: &Self,
        min_distance: u128,
        optimal_distance: u128,
    ) -> (values: Vec<Self>) {
        let span = self.distance_to(other);
        let offsets = spaced_offsets(span, min_distance, optimal_distance);
        let mut values: Vec<u8> = Vec::new();
        let mut i: usize = 0;
        while i < offsets.len()
            invariant
                i <= offsets.len(),
                values.len() == i,
                span == *other - *self,
                forall|k: int|
                    0 <= k < offsets.len() ==> 0 < #[trigger] offsets[k] == (k + 1)
                        * optimal_distance && offsets[k] + min_distance < span,
                forall|j: int, k: int|
                    0 <= j < k < offsets.len() ==> #[trigger] offsets[j] < #[trigger] offsets[k],
                forall|k: int| 0 <= k < i ==> #[trigger] values[k] == *self + offsets[k],
            decreases offsets.len() - i,
        {
            if let Some(value) = self.add(offsets[i]) {
                values.push(value);
            }
            i = i + 1;
        }
        assert(values@ =~= self.between(other, min_distance, optimal_distance));
        values
    }
}

impl AxisData<u8> for u8 {
    open spec fn axis_value(&self) -> u8 {
        *self
    }

    open spec fn display_text(value: &u8) -> Seq<char> {
        decimal_text(*value as int)
    }

    open spec fn description_text(&self) -> Seq<char> {
        decimal_text(*self as int)
    }

    fn value(&self) -> (v: &u8) {
        self
    }

    fn display_value(value: &u8) -> (text: String) {
        decimal_string(false, *value as u128)
    }

    fn description(&self) -> (text: String) {
        decimal_string(false, *self as u128)
    }
}

impl AxisValue for i8 {
    open spec fn position(&self) -> int {
        *self as int
    }

    open spec fn step(&self, delta: u128) -> Option<Self> {
        if *self + delta <= i8::MAX {
            Some((*self + delta) as i8)
        } else {
            None
        }
    }

    open spec fn between(&self, other: &Self, min_distance: u128, optimal_distance: u128) -> Seq<
        Self,
    > {
        Seq::new(
            spaced_count(*other - *self, min_distance as int, optimal_distance as int),
            |k: int| (*self + (k + 1) * optimal_distance) as i8,
        )
    }

    fn compare_value(&self, other: &Self) -> (order: Order) {
        if *self < *other {
            Order::Less
        } else if *self == *other {
            Order::Equal
        } else {
            Order::Greater
        }
    }

    fn distance_to(&self, other: &Self) -> (distance: u128) {
        span_signed(*self as i128, *other as i128)
    }

    fn add(&self, value: u128) -> (next: Option<Self>) {
        match offset_signed(*self as i128, value, i8::MAX as i128) {
            Some(sum) => Some(sum as i8),
            None => None,
        }
    }

    fn get_values_in_between(
        &self,
        other: &Self,
        min_distance: u128,
        optimal_distance: u128,
    ) -> (values: Vec<Self>) {
        let span = self.distance_to(other);
        let offsets = spaced_offsets(span, min_distance, optimal_distance);
        let mut values: Vec<i8> = Vec::new();
        let mut i: usize = 0;
        while i < offsets.len()
            invariant
                i <= offsets.len(),
                values.len() == i,
                span == *other - *self,
                forall|k: int|
                    0 <= k < offsets.len() ==> 0 < #[trigger] offsets[k] == (k + 1)
                        * optimal_distance && offsets[k] + min_distance < span,
                forall|j: int, k: int|
                    0 <= j < k < offsets.len() ==> #[trigger] offsets[j] < #[trigger] offsets[k],
                forall|k: int| 0 <= k < i ==> #[trigger] values[k] == *self + offsets[k],
            decreases offsets.len() - i,
        {
            if let Some(value) = self.add(offsets[i]) {
                values.push(value);
            }
            i = i + 1;
        }
        assert(values@ =~= self.between(other, min_distance, optimal_distance));
        values
    }
}

impl AxisData<i8> for i8 {
    open spec fn axis_value(&self) -> i8 {
        *self
    }

    open spec fn display_text(value: &i8) -> Seq<char> {
        decimal_text(*value as int)
    }

    open spec fn description_text(&self) -> Seq<char> {
        decimal_text(*self as int)
    }

    fn value(&self) -> (v: &i8) {
        self
    }

    fn display_value(value: &i8) -> (text: String) {
        decimal_string(*value < 0, magnitude(*value as i128))
    }

    fn description(&self) -> (text: String) {
        decimal_string(*self < 0, magnitude(*self as i128))
    }
}

impl AxisValue for u16 {
    open spec fn position(&self) -> int {
        *self as int
    }

    open spec fn step(&self, delta: u128) -> Option<Self> {
        if *self + delta <= u16::MAX {
            Some((*self + delta) as u16)
        } else {
            None
        }
    }

    open spec fn between(&self, other: &Self, min_distance: u128, optimal_distance: u128) -> Seq<
        Self,
    > {
        Seq::new(
            spaced_count(*other - *self, min_distance as int, optimal_distance as int),
            |k: int| (*self + (k + 1) * optimal_distance) as u16,
        )
    }

    fn compare_value(&self, other: &Self) -> (order: Order) {
        if *self < *other {
            Order::Less
        } else if *self == *other {
            Order::Equal
        } else {
            Order::Greater
        }
    }

    fn distance_to(&self, other: &Self) -> (distance: u128) {
        (*other - *self) as u128
    }

    fn add(&self, value: u128) -> (next: Option<Self>) {
        match offset_unsigned(*self as u128, value, u16::MAX as u128) {
            Some(sum) => Some(sum as u16),
            None => None,
        }
    }

    fn get_values_in_between(
        &self,
        other: &Self,
        min_distance: u128,
        optimal_distance: u128,
    ) -> (values: Vec<Self>) {
        let span = self.distance_to(other);
        let offsets = spaced_offsets(span, min_distance, optimal_distance);
        let mut values: Vec<u16> = Vec::new();
        let mut i: usize = 0;
        while i < offsets.len()
            invariant
                i <= offsets.len(),
                values.len() == i,
                span == *other - *self,
                forall|k: int|
                    0 <= k < offsets.len() ==> 0 < #[trigger] offsets[k] == (k + 1)
                        * optimal_distance && offsets[k] + min_distance < span,
                forall|j: int, k: int|
                    0 <= j < k < offsets.len() ==> #[trigger] offsets[j] < #[trigger] offsets[k],
                forall|k: int| 0 <= k < i ==> #[trigger] values[k] == *self + offsets[k],
            decreases offsets.len() - i,
        {
            if let Some(value) = self.add(offsets[i]) {
                values.push(value);
            }
            i = i + 1;
        }
        assert(values@ =~= self.between(other, min_distance, optimal_distance));
        values
    }
}

impl AxisData<u16> for u16 {
    open spec fn axis_value(&self) -> u16 {
        *self
    }

    open spec fn display_text(value: &u16) -> Seq<char> {
        decimal_text(*value as int)
    }

    open spec fn description_text(&self) -> Seq<char> {
        decimal_text(*self as int)
    }

    fn value(&self) -> (v: &u16) {
        self
    }

    fn display_value(value: &u16) -> (text: String) {
        decimal_string(false, *value as u128)
    }

    fn description(&self) -> (text: String) {
        decimal_string(false, *self as u128)
    }
}

impl AxisValue for i16 {
    open spec fn position(&self) -> int {
        *self as int
    }

    open spec fn step(&self, delta: u128) -> Option<Self> {
        if *self + delta <= i16::MAX {
            Some((*self + delta) as i16)
        } else {
            None
        }
    }

    open spec fn between(&self, other: &Self, min_distance: u128, optimal_distance: u128) -> Seq<
        Self,
    > {
        Seq::new(
            spaced_count(*other - *self, min_distance as int, optimal_distance as int),
            |k: int| (*self + (k + 1) * optimal_distance) as i16,
        )
    }

    fn compare_value(&self, other: &Self) -> (order: Order) {
        if *self < *other {
            Order::Less
        } else if *self == *other {
            Order::Equal
        } else {
            Order::Greater
        }
    }

    fn distance_to(&self, other: &Self) -> (distance: u128) {
        span_signed(*self as i128, *other as i128)
    }

    fn add(&self, value: u128) -> (next: Option<Self>) {
        match offset_signed(*self as i128, value, i16::MAX as i128) {
            Some(sum) => Some(sum as i16),
            None => None,
        }
    }

    fn get_values_in_between(
        &self,
        other: &Self,
        min_distance: u128,
        optimal_distance: u128,
    ) -> (values: Vec<Self>) {
        let span = self.distance_to(other);
        let offsets = spaced_offsets(span, min_distance, optimal_distance);
        let mut values: Vec<i16> = Vec::new();
        let mut i: usize = 0;
        while i < offsets.len()
            invariant
                i <= offsets.len(),
                values.len() == i,
                span == *other - *self,
                forall|k: int|
                    0 <= k < offsets.len() ==> 0 < #[trigger] offsets[k] == (k + 1)
                        * optimal_distance && offsets[k] + min_distance < span,
                forall|j: int, k: int|
                    0 <= j < k < offsets.len() ==> #[trigger] offsets[j] < #[trigger] offsets[k],
                forall|k: int| 0 <= k < i ==> #[trigger] values[k] == *self + offsets[k],
            decreases offsets.len() - i,
        {
            if let Some(value) = self.add(offsets[i]) {
                values.push(value);
            }
            i = i + 1;
        }
        assert(values@ =~= self.between(other, min_distance, optimal_distance));
        values
    }
}

impl AxisData<i16> for i16 {
    open spec fn axis_value(&self) -> i16 {
        *self
    }

    open spec fn display_text(value: &i16) -> Seq<char> {
        decimal_text(*value as int)
    }

    open spec fn description_text(&self) -> Seq<char> {
        decimal_text(*self as int)
    }

    fn value(&self) -> (v: &i16) {
        self
    }

    fn display_value(value: &i16) -> (text: String) {
        decimal_string(*value < 0, magnitude(*value as i128))
    }

    fn description(&self) -> (text: String) {
        decimal_string(*self < 0, magnitude(*self as i128))
    }
}

impl AxisValue for u32 {
    open spec fn position(&self) -> int {
        *self as int
    }

    open spec fn step(&self, delta: u128) -> Option<Self> {
        if *self + delta <= u32::MAX {
            Some((*self + delta) as u32)
        } else {
            None
        }
    }

    open spec fn between(&self, other: &Self, min_distance: u128, optimal_distance: u128) -> Seq<
        Self,
    > {
        Seq::new(
            spaced_count(*other - *self, min_distance as int, optimal_distance as int),
            |k: int| (*self + (k + 1) * optimal_distance) as u32,
        )
    }

    fn compare_value(&self, other: &Self) -> (order: Order) {
        if *self < *other {
            Order::Less
        } else if *self == *other {
            Order::Equal
        } else {
            Order::Greater
        }
    }

    fn distance_to(&self, other: &Self) -> (distance: u128) {
        (*other - *self) as u128
    }

    fn add(&self, value: u128) -> (next: Option<Self>) {
        match offset_unsigned(*self as u128, value, u32::MAX as u128) {
            Some(sum) => Some(sum as u32),
            None => None,
        }
    }

    fn get_values_in_between(
        &self,
        other: &Self,
        min_distance: u128,
        optimal_distance: u128,
    ) -> (values: Vec<Self>) {
        let span = self.distance_to(other);
        let offsets = spaced_offsets(span, min_distance, optimal_distance);
        let mut values: Vec<u32> = Vec::new();
        let mut i: usize = 0;
        while i < offsets.len()
            invariant
                i <= offsets.len(),
                values.len() == i,
                span == *other - *self,
                forall|k: int|
                    0 <= k < offsets.len() ==> 0 < #[trigger] offsets[k] == (k + 1)
                        * optimal_distance && offsets[k] + min_distance < span,
                forall|j: int, k: int|
                    0 <= j < k < offsets.len() ==> #[trigger] offsets[j] < #[trigger] offsets[k],
                forall|k: int| 0 <= k < i ==> #[trigger] values[k] == *self + offsets[k],
            decreases offsets.len() - i,
        {
            if let Some(value) = self.add(offsets[i]) {
                values.push(value);
            }
            i = i + 1;
        }
        assert(values@ =~= self.between(other, min_distance, optimal_distance));
        values
    }
}

impl AxisData<u32> for u32 {
    open spec fn axis_value(&self) -> u32 {
        *self
    }

    open spec fn display_text(value: &u32) -> Seq<char> {
        decimal_text(*value as int)
    }

    open spec fn description_text(&self) -> Seq<char> {
        decimal_text(*self as int)
    }

    fn value(&self) -> (v: &u32) {
        self
    }

    fn display_value(value: &u32) -> (text: String) {
        decimal_string(false, *value as u128)
    }

    fn description(&self) -> (text: String) {
        decimal_string(false, *self as u128)
    }
}

impl AxisValue for i32 {
    open spec fn position(&self) -> int {
        *self as int
    }

    open spec fn step(&self, delta: u128) -> Option<Self> {
        if *self + delta <= i32::MAX {
            Some((*self + delta) as i32)
        } else {
            None
        }
    }

    open spec fn between(&self, other: &Self, min_distance: u128, optimal_distance: u128) -> Seq<
        Self,
    > {
        Seq::new(
            spaced_count(*other - *self, min_distance as int, optimal_distance as int),
            |k: int| (*self + (k + 1) * optimal_distance) as i32,
        )
    }

    fn compare_value(&self, other: &Self) -> (order: Order) {
        if *self < *other {
            Order::Less
        } else if *self == *other {
            Order::Equal
        } else {
            Order::Greater
        }
    }

    fn distance_to(&self, other: &Self) -> (distance: u128) {
        span_signed(*self as i128, *other as i128)
    }

    fn add(&self, value: u128) -> (next: Option<Self>) {
        match offset_signed(*self as i128, value, i32::MAX as i128) {
            Some(sum) => Some(sum as i32),
            None => None,
        }
    }

    fn get_values_in_between(
        &self,
        other: &Self,
        min_distance: u128,
        optimal_distance: u128,
    ) -> (values: Vec<Self>) {
        let span = self.distance_to(other);
        let offsets = spaced_offsets(span, min_distance, optimal_distance);
        let mut values: Vec<i32> = Vec::new();
        let mut i: usize = 0;
        while i < offsets.len()
            invariant
                i <= offsets.len(),
                values.len() == i,
                span == *other - *self,
                forall|k: int|
                    0 <= k < offsets.len() ==> 0 < #[trigger] offsets[k] == (k + 1)
                        * optimal_distance && offsets[k] + min_distance < span,
                forall|j: int, k: int|
                    0 <= j < k < offsets.len() ==> #[trigger] offsets[j] < #[trigger] offsets[k],
                forall|k: int| 0 <= k < i ==> #[trigger] values[k] == *self + offsets[k],
            decreases offsets.len() - i,
        {
            if let Some(value) = self.add(offsets[i]) {
                values.push(value);
            }
            i = i + 1;
        }
        assert(values@ =~= self.between(other, min_distance, optimal_distance));
        values
    }
}

impl AxisData<i32> for i32 {
    open spec fn axis_value(&self) -> i32 {
        *self
    }

    open spec fn display_text(value: &i32) -> Seq<char> {
        decimal_text(*value as int)
    }

    open spec fn description_text(&self) -> Seq<char> {
        decimal_text(*self as int)
    }

    fn value(&self) -> (v: &i32) {
        self
    }

    fn display_value(value: &i32) -> (text: String) {
        decimal_string(*value < 0, magnitude(*value as i128))
    }

    fn description(&self) -> (text: String) {
        decimal_string(*self < 0, magnitude(*self as i128))
    }
}

impl AxisValue for u64 {
    open spec fn position(&self) -> int {
        *self as int
    }

    open spec fn step(&self, delta: u128) -> Option<Self> {
        if *self + delta <= u64::MAX {
            Some((*self + delta) as u64)
        } else {
            None
        }
    }

    open spec fn between(&self, other: &Self, min_distance: u128, optimal_distance: u128) -> Seq<
        Self,
    > {
        Seq::new(
            spaced_count(*other - *self, min_distance as int, optimal_distance as int),
            |k: int| (*self + (k + 1) * optimal_distance) as u64,
        )
    }

    fn compare_value(&self, other: &Self) -> (order: Order) {
        if *self < *other {
            Order::Less
        } else if *self == *other {
            Order::Equal
        } else {
            Order::Greater
        }
    }

    fn distance_to(&self, other: &Self) -> (distance: u128) {
        (*other - *self) as u128
    }

    fn add(&self, value: u128) -> (next: Option<Self>) {
        match offset_unsigned(*self as u128, value, u64::MAX as u128) {
            Some(sum) => Some(sum as u64),
            None => None,
        }
    }

    fn get_values_in_between(
        &self,
        other: &Self,
        min_distance: u128,
        optimal_distance: u128,
    ) -> (values: Vec<Self>) {
        let span = self.distance_to(other);
        let offsets = spaced_offsets(span, min_distance, optimal_distance);
        let mut values: Vec<u64> = Vec::new();
        let mut i: usize = 0;
        while i < offsets.len()
            invariant
                i <= offsets.len(),
                values.len() == i,
                span == *other - *self,
                forall|k: int|
                    0 <= k < offsets.len() ==> 0 < #[trigger] offsets[k] == (k + 1)
                        * optimal_distance && offsets[k] + min_distance < span,
                forall|j: int, k: int|
                    0 <= j < k < offsets.len() ==> #[trigger] offsets[j] < #[trigger] offsets[k],
                forall|k: int| 0 <= k < i ==> #[trigger] values[k] == *self + offsets[k],
            decreases offsets.len() - i,
        {
            if let Some(value) = self.add(offsets[i]) {
                values.push(value);
            }
            i = i + 1;
        }
        assert(values@ =~= self.between(other, min_distance, optimal_distance));
        values
    }
}

impl AxisData<u64> for u64 {
    open spec fn axis_value(&self) -> u64 {
        *self
    }

    open spec fn display_text(value: &u64) -> Seq<char> {
        decimal_text(*value as int)
    }

    open spec fn description_text(&self) -> Seq<char> {
        decimal_text(*self as int)
    }

    fn value(&self) -> (v: &u64) {
        self
    }

    fn display_value(value: &u64) -> (text: String) {
        decimal_string(false, *value as u128)
    }

    fn description(&self) -> (text: String) {
        decimal_string(false, *self as u128)
    }
}

impl AxisValue for i64 {
    open spec fn position(&self) -> int {
        *self as int
    }

    open spec fn step(&self, delta: u128) -> Option<Self> {
        if *self + delta <= i64::MAX {
            Some((*self + delta) as i64)
        } else {
            None
        }
    }

    open spec fn between(&self, other: &Self, min_distance: u128, optimal_distance: u128) -> Seq<
        Self,
    > {
        Seq::new(
            spaced_count(*other - *self, min_distance as int, optimal_distance as int),
            |k: int| (*self + (k + 1) * optimal_distance) as i64,
        )
    }

    fn compare_value(&self, other: &Self) -> (order: Order) {
        if *self < *other {
            Order::Less
        } else if *self == *other {
            Order::Equal
        } else {
            Order::Greater
        }
    }

    fn distance_to(&self, other: &Self) -> (distance: u128) {
        span_signed(*self as i128, *other as i128)
    }

    fn add(&self, value: u128) -> (next: Option<Self>) {
        match offset_signed(*self as i128, value, i64::MAX as i128) {
            Some(sum) => Some(sum as i64),
            None => None,
        }
    }

    fn get_values_in_between(
        &self,
        other: &Self,
        min_distance: u128,
        optimal_distance: u128,
    ) -> (values: Vec<Self>) {
        let span = self.distance_to(other);
        let offsets = spaced_offsets(span, min_distance, optimal_distance);
        let mut values: Vec<i64> = Vec::new();
        let mut i: usize = 0;
        while i < offsets.len()
            invariant
                i <= offsets.len(),
                values.len() == i,
                span == *other - *self,
                forall|k: int|
                    0 <= k < offsets.len() ==> 0 < #[trigger] offsets[k] == (k + 1)
                        * optimal_distance && offsets[k] + min_distance < span,
                forall|j: int, k: int|
                    0 <= j < k < offsets.len() ==> #[trigger] offsets[j] < #[trigger] offsets[k],
                forall|k: int| 0 <= k < i ==> #[trigger] values[k] == *self + offsets[k],
            decreases offsets.len() - i,
        {
            if let Some(value) = self.add(offsets[i]) {
                values.push(value);
            }
            i = i + 1;
        }
        assert(values@ =~= self.between(other, min_distance, optimal_distance));
        values
    }
}

impl AxisData<i64> for i64 {
    open spec fn axis_value(&self) -> i64 {
        *self
    }

    open spec fn display_text(value: &i64) -> Seq<char> {
        decimal_text(*value as int)
    }

    open spec fn description_text(&self) -> Seq<char> {
        decimal_text(*self as int)
    }

    fn value(&self) -> (v: &i64) {
        self
    }

    fn display_value(value: &i64) -> (text: String) {
        decimal_string(*value < 0, magnitude(*value as i128))
    }

    fn description(&self) -> (text: String) {
        decimal_string(*self < 0, magnitude(*self as i128))
    }
}

impl AxisValue for u128 {
    open spec fn position(&self) -> int {
        *self as int
    }

    open spec fn step(&self, delta: u128) -> Option<Self> {
        if *self + delta <= u128::MAX {
            Some((*self + delta) as u128)
        } else {
            None
        }
    }

    open spec fn between(&self, other: &Self, min_distance: u128, optimal_distance: u128) -> Seq<
        Self,
    > {
        Seq::new(
            spaced_count(*other - *self, min_distance as int, optimal_distance as int),
            |k: int| (*self + (k + 1) * optimal_distance) as u128,
        )
    }

    fn compare_value(&self, other: &Self) -> (order: Order) {
        if *self < *other {
            Order::Less
        } else if *self == *other {
            Order::Equal
        } else {
            Order::Greater
        }
    }

    fn distance_to(&self, other: &Self) -> (distance: u128) {
        (*other - *self) as u128
    }

    fn add(&self, value: u128) -> (next: Option<Self>) {
        match offset_unsigned(*self as u128, value, u128::MAX as u128) {
            Some(sum) => Some(sum as u128),
            None => None,
        }
    }

    fn get_values_in_between(
        &self,
        other: &Self,
        min_distance: u128,
        optimal_distance: u128,
    ) -> (values: Vec<Self>) {
        let span = self.distance_to(other);
        let offsets = spaced_offsets(span, min_distance, optimal_distance);
        let mut values: Vec<u128> = Vec::new();
        let mut i: usize = 0;
        while i < offsets.len()
            invariant
                i <= offsets.len(),
                values.len() == i,
                span == *other - *self,
                forall|k: int|
                    0 <= k < offsets.len() ==> 0 < #[trigger] offsets[k] == (k + 1)
                        * optimal_distance && offsets[k] + min_distance < span,
                forall|j: int, k: int|
                    0 <= j < k < offsets.len() ==> #[trigger] offsets[j] < #[trigger] offsets[k],
                forall|k: int| 0 <= k < i ==> #[trigger] values[k] == *self + offsets[k],
            decreases offsets.len() - i,
        {
            if let Some(value) = self.add(offsets[i]) {
                values.push(value);
            }
            i = i + 1;
        }
        assert(values@ =~= self.between(other, min_distance, optimal_distance));
        values
    }
}

impl AxisData<u128> for u128 {
    open spec fn axis_value(&self) -> u128 {
        *self
    }

    open spec fn display_text(value: &u128) -> Seq<char> {
        decimal_text(*value as int)
    }

    open spec fn description_text(&self) -> Seq<char> {
        decimal_text(*self as int)
    }

    fn value(&self) -> (v: &u128) {
        self
    }

    fn display_value(value: &u128) -> (text: String) {
        decimal_string(false, *value as u128)
    }

    fn description(&self) -> (text: String) {
        decimal_string(false, *self as u128)
    }
}

impl AxisValue for i128 {
    open spec fn position(&self) -> int {
        *self as int
    }

    open spec fn step(&self, delta: u128) -> Option<Self> {
        if *self + delta <= i128::MAX {
            Some((*self + delta) as i128)
        } else {
            None
        }
    }

    open spec fn between(&self, other: &Self, min_distance: u128, optimal_distance: u128) -> Seq<
        Self,
    > {
        Seq::new(
            spaced_count(*other - *self, min_distance as int, optimal_distance as int),
            |k: int| (*self + (k + 1) * optimal_distance) as i128,
        )
    }

    fn compare_value(&self, other: &Self) -> (order: Order) {
        if *self < *other {
            Order::Less
        } else if *self == *other {
            Order::Equal
        } else {
            Order::Greater
        }
    }

    fn distance_to(&self, other: &Self) -> (distance: u128) {
        span_signed(*self as i128, *other as i128)
    }

    fn add(&self, value: u128) -> (next: Option<Self>) {
        match offset_signed(*self as i128, value, i128::MAX as i128) {
            Some(sum) => Some(sum as i128),
            None => None,
        }
    }

    fn get_values_in_between(
        &self,
        other: &Self,
        min_distance: u128,
        optimal_distance: u128,
    ) -> (values: Vec<Self>) {
        let span = self.distance_to(other);
        let offsets = spaced_offsets(span, min_distance, optimal_distance);
        let mut values: Vec<i128> = Vec::new();
        let mut i: usize = 0;
        while i < offsets.len()
            invariant
                i <= offsets.len(),
                values.len() == i,
                span == *other - *self,
                forall|k: int|
                    0 <= k < offsets.len() ==> 0 < #[trigger] offsets[k] == (k + 1)
                        * optimal_distance && offsets[k] + min_distance < span,
                forall|j: int, k: int|
                    0 <= j < k < offsets.len() ==> #[trigger] offsets[j] < #[trigger] offsets[k],
                forall|k: int| 0 <= k < i ==> #[trigger] values[k] == *self + offsets[k],
            decreases offsets.len() - i,
        {
            if let Some(value) = self.add(offsets[i]) {
                values.push(value);
            }
            i = i + 1;
        }
        assert(values@ =~= self.between(other, min_distance, optimal_distance));
        values
    }
}

impl AxisData<i128> for i128 {
    open spec fn axis_value(&self) -> i128 {
        *self
    }

    open spec fn display_text(value: &i128) -> Seq<char> {
        decimal_text(*value as int)
    }

    open spec fn description_text(&self) -> Seq<char> {
        decimal_text(*self as int)
    }

    fn value(&self) -> (v: &i128) {
        self
    }

    fn display_value(value: &i128) -> (text: String) {
        decimal_string(*value < 0, magnitude(*value as i128))
    }

    fn description(&self) -> (text: String) {
        decimal_string(*self < 0, magnitude(*self as i128))
    }
}

impl AxisValue for usize {
    open spec fn position(&self) -> int {
        *self as int
    }

    open spec fn step(&self, delta: u128) -> Option<Self> {
        if *self + delta <= usize::MAX {
            Some((*self + delta) as usize)
        } else {
            None
        }
    }

    open spec fn between(&self, other: &Self, min_distance: u128, optimal_distance: u128) -> Seq<
        Self,
    > {
        Seq::new(
            spaced_count(*other - *self, min_distance as int, optimal_distance as int),
            |k: int| (*self + (k + 1) * optimal_distance) as usize,
        )
    }

    fn compare_value(&self, other: &Self) -> (order: Order) {
        if *self < *other {
            Order::Less
        } else if *self == *other {
            Order::Equal
        } else {
            Order::Greater
        }
    }

    fn distance_to(&self, other: &Self) -> (distance: u128) {
        (*other - *self) as u128
    }

    fn add(&self, value: u128) -> (next: Option<Self>) {
        match offset_unsigned(*self as u128, value, usize::MAX as u128) {
            Some(sum) => Some(sum as usize),
            None => None,
        }
    }

    fn get_values_in_between(
        &self,
        other: &Self,
        min_distance: u128,
        optimal_distance: u128,
    ) -> (values: Vec<Self>) {
        let span = self.distance_to(other);
        let offsets = spaced_offsets(span, min_distance, optimal_distance);
        let mut values: Vec<usize> = Vec::new();
        let mut i: usize = 0;
        while i < offsets.len()
            invariant
                i <= offsets.len(),
                values.len() == i,
                span == *other - *self,
                forall|k: int|
                    0 <= k < offsets.len() ==> 0 < #[trigger] offsets[k] == (k + 1)
                        * optimal_distance && offsets[k] + min_distance < span,
                forall|j: int, k: int|
                    0 <= j < k < offsets.len() ==> #[trigger] offsets[j] < #[trigger] offsets[k],
                forall|k: int| 0 <= k < i ==> #[trigger] values[k] == *self + offsets[k],
            decreases offsets.len() - i,
        {
            if let Some(value) = self.add(offsets[i]) {
                values.push(value);
            }
            i = i + 1;
        }
        assert(values@ =~= self.between(other, min_distance, optimal_distance));
        values
    }
}

impl AxisData<usize> for usize {
    open spec fn axis_value(&self) -> usize {
        *self
    }

    open spec fn display_text(value: &usize) -> Seq<char> {
        decimal_text(*value as int)
    }

    open spec fn description_text(&self) -> Seq<char> {
        decimal_text(*self as int)
    }

    fn value(&self) -> (v: &usize) {
        self
    }

    fn display_value(value: &usize) -> (text: String) {
        decimal_string(false, *value as u128)
    }

    fn description(&self) -> (text: String) {
        decimal_string(false, *self as u128)
    }
}

impl AxisValue for isize {
    open spec fn position(&self) -> int {
        *self as int
    }

    open spec fn step(&self, delta: u128) -> Option<Self> {
        if *self + delta <= isize::MAX {
            Some((*self + delta) as isize)
        } else {
            None
        }
    }

    open spec fn between(&self, other: &Self, min_distance: u128, optimal_distance: u128) -> Seq<
        Self,
    > {
        Seq::new(
            spaced_count(*other - *self, min_distance as int, optimal_distance as int),
            |k: int| (*self + (k + 1) * optimal_distance) as isize,
        )
    }

    fn compare_value(&self, other: &Self) -> (order: Order) {
        if *self < *other {
            Order::Less
        } else if *self == *other {
            Order::Equal
        } else {
            Order::Greater
        }
    }

    fn distance_to(&self, other: &Self) -> (distance: u128) {
        span_signed(*self as i128, *other as i128)
    }

    fn add(&self, value: u128) -> (next: Option<Self>) {
        match offset_signed(*self as i128, value, isize::MAX as i128) {
            Some(sum) => Some(sum as isize),
            None => None,
        }
    }

    fn get_values_in_between(
        &self,
        other: &Self,
        min_distance: u128,
        optimal_distance: u128,
    ) -> (values: Vec<Self>) {
        let span = self.distance_to(other);
        let offsets = spaced_offsets(span, min_distance, optimal_distance);
        let mut values: Vec<isize> = Vec::new();
        let mut i: usize = 0;
        while i < offsets.len()
            invariant
                i <= offsets.len(),
                values.len() == i,
                span == *other - *self,
                forall|k: int|
                    0 <= k < offsets.len() ==> 0 < #[trigger] offsets[k] == (k + 1)
                        * optimal_distance && offsets[k] + min_distance < span,
                forall|j: int, k: int|
                    0 <= j < k < offsets.len() ==> #[trigger] offsets[j] < #[trigger] offsets[k],
                forall|k: int| 0 <= k < i ==> #[trigger] values[k] == *self + offsets[k],
            decreases offsets.len() - i,
        {
            if let Some(value) = self.add(offsets[i]) {
                values.push(value);
            }
            i = i + 1;
        }
        assert(values@ =~= self.between(other, min_distance, optimal_distance));
        values
    }
}

impl AxisData<isize> for isize {
    open spec fn axis_value(&self) -> isize {
        *self
    }

    open spec fn display_text(value: &isize) -> Seq<char> {
        decimal_text(*value as int)
    }

    open spec fn description_text(&self) -> Seq<char> {
        decimal_text(*self as int)
    }

    fn value(&self) -> (v: &isize) {
        self
    }

    fn display_value(value: &isize) -> (text: String) {
        decimal_string(*value < 0, magnitude(*value as i128))
    }

    fn description(&self) -> (text: String) {
        decimal_string(*self < 0, magnitude(*self as i128))
    }
}

} // verus!

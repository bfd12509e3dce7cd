//! Characters and truth values as axis values. Neither is subdivided: no
//! label stands between two of them.
use vstd::prelude::*;
use vstd::string::StringExecFns;

use crate::chart::line::data::AxisData;
use crate::chart::line::data::AxisValue;
use crate::chart::line::data::Order;

verus! {

/// Whether `code` is the number of a character: a code point that is no
/// surrogate.
pub open spec fn is_scalar_value(code: int) -> bool {
    0 <= code <= 0xD7FF || 0xE000 <= code <= 0x10FFFF
}

/// `char::from_u32` of the standard library: the character with the given
/// number, and none where the number is a surrogate or lies beyond the last
/// code point.
#[verifier::external_body]
fn char_from_u32(code: u32) -> (c: Option<char>)
    ensures
        c == if is_scalar_value(code as int) {
            Some(code as char)
        } else {
            None::<char>
        },
{
    char::from_u32(code)
}

/// What the standard library's `Debug` formatting writes for a character:
/// the character between single quotes, escaped where it does not print.
pub uninterp spec fn char_debug_text(c: char) -> Seq<char>;

/// `Debug` for `char` of the standard library, through `format!`: the
/// text that it writes for the character.
#[verifier::external_body]
fn char_debug_string(c: char) -> (text: String)
    ensures
        text@ == char_debug_text(c),
{
    format!("{:?}", c)
}

impl AxisValue for char {
    open spec fn position(&self) -> int {
        *self as u32 as int
    }

    open spec fn step(&self, delta: u128) -> Option<Self> {
        if is_scalar_value(*self as u32 + delta) {
            Some((*self as u32 + delta) as char)
        } else {
            None
        }
    }

    open spec fn between(&self, other: &Self, min_distance: u128, optimal_distance: u128) -> Seq<
        Self,
    > {
        Seq::empty()
    }

    fn compare_value(&self, other: &Self) -> (order: Order) {
        let a: u32 = *self as u32;
        let b: u32 = *other as u32;
        if a < b {
            Order::Less
        } else if a == b {
            Order::Equal
        } else {
            Order::Greater
        }
    }

    fn distance_to(&self, other: &Self) -> (distance: u128) {
        (*other as u32 - *self as u32) as u128
    }

    fn add(&self, value: u128) -> (next: Option<Self>) {
        let code: u32 = *self as u32;
        if value <= 0x10FFFF && code as u64 + value as u64 <= 0x10FFFF {
            char_from_u32((code as u64 + value as u64) as u32)
        } else {
            None
        }
    }

    fn get_values_in_between(
        &self,
        _other: &Self,
        _min_distance: u128,
        _optimal_distance: u128,
    ) -> (values: Vec<Self>) {
        Vec::new()
    }
}

impl AxisData<char> for char {
    open spec fn axis_value(&self) -> char {
        *self
    }

    open spec fn display_text(value: &char) -> Seq<char> {
        char_debug_text(*value)
    }

    open spec fn description_text(&self) -> Seq<char> {
        char_debug_text(*self)
    }

    fn value(&self) -> (v: &char) {
        self
    }

    fn display_value(value: &char) -> (text: String) {
        char_debug_string(*value)
    }

    fn description(&self) -> (text: String) {
        char_debug_string(*self)
    }
}

/// The text of a truth value.
pub open spec fn bool_text(b: bool) -> Seq<char> {
    if b {
        seq!['t', 'r', 'u', 'e']
    } else {
        seq!['f', 'a', 'l', 's', 'e']
    }
}

fn bool_string(b: bool) -> (text: String)
    ensures
        text@ == bool_text(b),
{
    proof {
        reveal_strlit("true");
        reveal_strlit("false");
    }
    let text = if b {
        String::from_str("true")
    } else {
        String::from_str("false")
    };
    assert(text@ =~= bool_text(b));
    text
}

impl AxisValue for bool {
    open spec fn position(&self) -> int {
        if *self {
            1
        } else {
            0
        }
    }

    open spec fn step(&self, delta: u128) -> Option<Self> {
        if !*self && delta >= 1 {
            Some(true)
        } else {
            None
        }
    }

    open spec fn between(&self, other: &Self, min_distance: u128, optimal_distance: u128) -> Seq<
        Self,
    > {
        Seq::empty()
    }

    fn compare_value(&self, other: &Self) -> (order: Order) {
        if *self == *other {
            Order::Equal
        } else if *other {
            Order::Less
        } else {
            Order::Greater
        }
    }

    fn distance_to(&self, other: &Self) -> (distance: u128) {
        if *self == *other {
            0
        } else {
            1
        }
    }

    fn add(&self, value: u128) -> (next: Option<Self>) {
        if !*self && value >= 1 {
            Some(true)
        } else {
            None
        }
    }

    fn get_values_in_between(
        &self,
        _other: &Self,
        _min_distance: u128,
        _optimal_distance: u128,
    ) -> (values: Vec<Self>) {
        Vec::new()
    }
}

impl AxisData<bool> for bool {
    open spec fn axis_value(&self) -> bool {
        *self
    }

    open spec fn display_text(value: &bool) -> Seq<char> {
        bool_text(*value)
    }

    open spec fn description_text(&self) -> Seq<char> {
        bool_text(*self)
    }

    fn value(&self) -> (v: &bool) {
        self
    }

    fn display_value(value: &bool) -> (text: String) {
        bool_string(*value)
    }

    fn description(&self) -> (text: String) {
        bool_string(*self)
    }
}

} // verus!

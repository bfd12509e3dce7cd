//! What a line chart is made from: axis values and data.
use vstd::prelude::*;
use vstd::std_specs::cmp::PartialEqSpecImpl;

use crate::canvas::Color;
use crate::geometry::saturate_i32;
use crate::geometry::saturate_u16;
use crate::geometry::to_coordinate;
use crate::geometry::to_length;
use crate::geometry::Rectangle;
use crate::geometry::Size;

pub mod decimal;
pub mod numbers;
pub mod spacing;
pub mod symbols;
pub mod text;
pub mod time;

verus! {

/// Colours and sizes of everything on the chart but the plots.
#[derive(Debug, Clone, Copy)]
pub struct ThemeSettings {
    pub background_color: Color,
    pub padded_background_color: Color,
    pub margined_background_color: Option<Color>,
    pub title_color: Color,
    pub title_size: u16,
    pub data_description_color: Color,
    pub data_description_size: u16,
    pub x_label_text_color: Color,
    pub x_label_text_size: u16,
    pub x_label_long_line_color: Color,
    pub x_label_long_line_width: u16,
    pub x_label_short_line_color: Color,
    pub x_label_short_line_width: u16,
    pub y_label_text_color: Color,
    pub y_label_text_size: u16,
    pub y_label_long_line_color: Color,
    pub y_label_long_line_width: u16,
    pub y_label_short_line_color: Color,
    pub y_label_short_line_width: u16,
}

impl ThemeSettings {
    /// The theme that a chart has unless told otherwise: black text and
    /// slightly transparent black lines on white, inside a light grey frame.
    pub open spec fn standard() -> ThemeSettings {
        let black = Color { r: 0, g: 0, b: 0, a: 255 };
        let line = Color { r: 0, g: 0, b: 0, a: 204 };
        ThemeSettings {
            background_color: Color { r: 211, g: 211, b: 211, a: 255 },
            padded_background_color: Color { r: 255, g: 255, b: 255, a: 255 },
            margined_background_color: Some(Color { r: 241, g: 241, b: 241, a: 255 }),
            title_color: black,
            title_size: 32,
            data_description_color: black,
            data_description_size: 16,
            x_label_text_color: black,
            x_label_text_size: 12,
            x_label_long_line_color: line,
            x_label_long_line_width: 3,
            x_label_short_line_color: line,
            x_label_short_line_width: 1,
            y_label_text_color: black,
            y_label_text_size: 12,
            y_label_long_line_color: line,
            y_label_long_line_width: 3,
            y_label_short_line_color: line,
            y_label_short_line_width: 1,
        }
    }
}

impl Default for ThemeSettings {
    fn default() -> (theme: Self)
        ensures
            theme == ThemeSettings::standard(),
    {
        Self {
            background_color: Color::from_rgb8(211, 211, 211),
            padded_background_color: Color::white(),
            margined_background_color: Some(Color::from_rgb8(241, 241, 241)),
            title_color: Color::black(),
            title_size: 32,
            data_description_color: Color::black(),
            data_description_size: 16,
            x_label_text_color: Color::black(),
            x_label_text_size: 12,
            x_label_long_line_width: 3,
            x_label_long_line_color: Color::black().with_alpha(204),
            x_label_short_line_width: 1,
            x_label_short_line_color: Color::black().with_alpha(204),
            y_label_text_color: Color::black(),
            y_label_text_size: 12,
            y_label_long_line_width: 3,
            y_label_long_line_color: Color::black().with_alpha(204),
            y_label_short_line_width: 1,
            y_label_short_line_color: Color::black().with_alpha(204),
        }
    }
}

/// Everything that shapes a chart but its data.
#[derive(Clone)]
pub struct Settings {
    pub theme: ThemeSettings,
    pub title: Option<String>,
    pub padding: QuadDistance,
    pub margin: QuadDistance,
    pub min_x_label_distance: DistanceValue,
    pub min_y_label_distance: DistanceValue,
}

impl Default for Settings {
    fn default() -> (settings: Self)
        ensures
            settings.theme == ThemeSettings::standard(),
            settings.title.is_none(),
            settings.padding == QuadDistance::uniform(DistanceValue::Fixed(60)),
            settings.margin == QuadDistance::uniform(DistanceValue::Fixed(20)),
            settings.min_x_label_distance == DistanceValue::Fixed(100),
            settings.min_y_label_distance == DistanceValue::Fixed(50),
    {
        Self {
            theme: ThemeSettings::default(),
            title: None,
            padding: QuadDistance::from1(DistanceValue::Fixed(60)),
            margin: QuadDistance::from1(DistanceValue::Fixed(20)),
            min_x_label_distance: DistanceValue::Fixed(100),
            min_y_label_distance: DistanceValue::Fixed(50),
        }
    }
}

/// The colours of one plot.
#[derive(Debug, Clone, Copy, PartialEq, Eq, Structural, Hash)]
pub struct PlotThemeSettings {
    pub line_color: Color,
    pub point_color: Color,
}

impl Default for PlotThemeSettings {
    fn default() -> (theme: Self)
        ensures
            theme.line_color == (Color { r: 200, g: 0, b: 0, a: 255 }),
            theme.point_color == (Color { r: 200, g: 0, b: 0, a: 255 }),
    {
        Self { line_color: Color::from_rgb8(200, 0, 0), point_color: Color::from_rgb8(200, 0, 0) }
    }
}

/// How one plot is drawn. Two of them are equal where they look the same:
/// the two reaches within which a pointer selects are not compared.
#[derive(Debug, Clone, Copy)]
pub struct PlotSettings {
    pub theme: PlotThemeSettings,
    pub line_selection_distance: u16,
    pub point_selection_distance: u16,
    /// Width of a line that is not selected.
    pub line_size1: u16,
    /// Width of a selected line.
    pub line_size2: u16,
    /// Radius of a point that is not selected.
    pub point_size1: u16,
    /// Radius of a point on a selected line.
    pub point_size2: u16,
    /// Radius of the selected point.
    pub point_size3: u16,
}

impl PlotSettings {
    /// Whether two plots look the same.
    pub open spec fn same_look(&self, other: &PlotSettings) -> bool {
        &&& self.theme == other.theme
        &&& self.line_size1 == other.line_size1
        &&& self.line_size2 == other.line_size2
        &&& self.point_size1 == other.point_size1
        &&& self.point_size2 == other.point_size2
        &&& self.point_size3 == other.point_size3
    }
}

impl Default for PlotSettings {
    fn default() -> (plot: Self)
        ensures
            plot.theme.line_color == (Color { r: 200, g: 0, b: 0, a: 255 }),
            plot.theme.point_color == (Color { r: 200, g: 0, b: 0, a: 255 }),
            plot.line_selection_distance == 4,
            plot.point_selection_distance == 10,
            plot.line_size1 == 2,
            plot.line_size2 == 3,
            plot.point_size1 == 5,
            plot.point_size2 == 7,
            plot.point_size3 == 10,
    {
        Self {
            theme: PlotThemeSettings::default(),
            line_selection_distance: 4,
            point_selection_distance: 10,
            line_size1: 2,
            line_size2: 3,
            point_size1: 5,
            point_size2: 7,
            point_size3: 10,
        }
    }
}

impl PartialEq for PlotSettings {
    fn eq(&self, other: &Self) -> (equal: bool) {
        self.theme == other.theme && self.line_size1 == other.line_size1 && self.line_size2
            == other.line_size2 && self.point_size1 == other.point_size1 && self.point_size2
            == other.point_size2 && self.point_size3 == other.point_size3
    }
}

impl PartialEqSpecImpl for PlotSettings {
    open spec fn obeys_eq_spec() -> bool {
        true
    }

    open spec fn eq_spec(&self, other: &Self) -> bool {
        self.same_look(other)
    }
}

/// A length that is taken from the size of the area that it is measured
/// in: any function of the size.
pub trait SizeRelative {
    /// The length in an area of the given size.
    spec fn length_in(&self, size: Size) -> u16;

    fn length(&self, size: Size) -> (length: u16)
        ensures
            length == self.length_in(size),
    ;
}

/// A share of an area's extent, in thousandths of its width and of its
/// height.
#[derive(Debug, Clone, Copy, PartialEq, Eq, Structural)]
pub struct SizeShare {
    pub width_permille: u16,
    pub height_permille: u16,
}

impl SizeShare {
    /// The share of `size`, in pixels, rounded down.
    pub open spec fn of(&self, size: Size) -> u16 {
        saturate_u16(
            (size.width * self.width_permille + size.height * self.height_permille) / 1000,
        )
    }
}

impl SizeRelative for SizeShare {
    open spec fn length_in(&self, size: Size) -> u16 {
        self.of(size)
    }

    fn length(&self, size: Size) -> (length: u16) {
        let w: i64 = size.width as i64;
        let h: i64 = size.height as i64;
        let wp: i64 = self.width_permille as i64;
        let hp: i64 = self.height_permille as i64;
        assert(0 <= w * wp <= 0xffff * 0xffff && 0 <= h * hp <= 0xffff * 0xffff)
            by (nonlinear_arith)
            requires
                0 <= w <= 0xffff,
                0 <= h <= 0xffff,
                0 <= wp <= 0xffff,
                0 <= hp <= 0xffff,
        ;
        to_length((w * wp + h * hp) / 1000)
    }
}

/// A length in pixels: fixed, or a function of the size of the area that
/// it is measured in.
#[derive(Clone, Copy)]
pub enum DistanceValue {
    Fixed(u16),
    Relative(&'static dyn SizeRelative),
}

impl DistanceValue {
    /// The length in an area of the given size.
    pub open spec fn measure(&self, size: Size) -> u16 {
        match *self {
            DistanceValue::Fixed(value) => value,
            DistanceValue::Relative(function) => function.length_in(size),
        }
    }

    pub fn get(&self, size: Size) -> (length: u16)
        ensures
            length == self.measure(size),
    {
        match *self {
            DistanceValue::Fixed(value) => value,
            DistanceValue::Relative(function) => function.length(size),
        }
    }
}

/// Four lengths, one for each side of an area.
#[derive(Clone, Copy)]
pub struct QuadDistance {
    pub top: DistanceValue,
    pub right: DistanceValue,
    pub bottom: DistanceValue,
    pub left: DistanceValue,
}

impl QuadDistance {
    /// The same length on all four sides.
    pub open spec fn uniform(all: DistanceValue) -> QuadDistance {
        QuadDistance { top: all, right: all, bottom: all, left: all }
    }

    /// The area that is left of `area` when each side is moved inwards by
    /// its length. An extent never falls below zero.
    pub open spec fn inset(&self, area: Rectangle) -> Rectangle {
        let size = Size { width: area.width, height: area.height };
        let top = self.top.measure(size);
        let right = self.right.measure(size);
        let bottom = self.bottom.measure(size);
        let left = self.left.measure(size);
        Rectangle {
            x: saturate_i32(area.x + left),
            y: saturate_i32(area.y + top),
            width: saturate_u16(area.width - left - right),
            height: saturate_u16(area.height - top - bottom),
        }
    }

    /// Top, right, bottom and left, each given.
    pub fn from4(
        first: DistanceValue,
        second: DistanceValue,
        third: DistanceValue,
        fourth: DistanceValue,
    ) -> (quad: Self)
        ensures
            quad == (QuadDistance { top: first, right: second, bottom: third, left: fourth }),
    {
        Self { top: first, right: second, bottom: third, left: fourth }
    }

    /// Top, then left and right alike, then bottom.
    pub fn from3(first: DistanceValue, second: DistanceValue, third: DistanceValue) -> (quad: Self)
        ensures
            quad == (QuadDistance { top: first, right: second, bottom: third, left: second }),
    {
        Self { top: first, right: second, bottom: third, left: second }
    }

    /// Top and bottom alike, then left and right alike.
    pub fn from2(first: DistanceValue, second: DistanceValue) -> (quad: Self)
        ensures
            quad == (QuadDistance { top: first, right: second, bottom: first, left: second }),
    {
        Self { top: first, right: second, bottom: first, left: second }
    }

    /// All four sides alike.
    pub fn from1(first: DistanceValue) -> (quad: Self)
        ensures
            quad == QuadDistance::uniform(first),
    {
        Self { top: first, right: first, bottom: first, left: first }
    }

    /// The four lengths in an area of the given size: top, right, bottom,
    /// left.
    pub fn get(&self, size: Size) -> (lengths: (u16, u16, u16, u16))
        ensures
            lengths == (
                self.top.measure(size),
                self.right.measure(size),
                self.bottom.measure(size),
                self.left.measure(size),
            ),
    {
        let top = self.top.get(size);
        let right = self.right.get(size);
        let bottom = self.bottom.get(size);
        let left = self.left.get(size);
        (top, right, bottom, left)
    }

    pub fn transform(&self, area: Rectangle) -> (inner: Rectangle)
        ensures
            inner == self.inset(area),
    {
        let size = area.size();
        let (top, right, bottom, left) = self.get(size);
        Rectangle {
            x: to_coordinate(area.x as i64 + left as i64),
            y: to_coordinate(area.y as i64 + top as i64),
            width: to_length(area.width as i64 - left as i64 - right as i64),
            height: to_length(area.height as i64 - top as i64 - bottom as i64),
        }
    }
}

/// What the chart tells its host: nothing as yet.
#[derive(Debug, Clone)]
pub struct Message {}

/// How one value stands to another on its axis.
#[derive(Clone, Copy, Debug, PartialEq, Eq, Structural)]
pub enum Order {
    Less,
    Equal,
    Greater,
}

/// How the place `a` stands to the place `b`.
pub open spec fn order_of(a: int, b: int) -> Order {
    if a < b {
        Order::Less
    } else if a == b {
        Order::Equal
    } else {
        Order::Greater
    }
}

/// A value that can serve as a coordinate: it has a place on its axis,
/// counted in the axis's own unit, by which values are ordered and measured.
pub trait AxisValue: Copy {
    /// The place of the value on its axis.
    spec fn position(&self) -> int;

    /// The value `delta` units further on, where there is one.
    spec fn step(&self, delta: u128) -> Option<Self>;

    /// The values to label between `self` and `other`.
    spec fn between(&self, other: &Self, min_distance: u128, optimal_distance: u128) -> Seq<Self>;

    fn compare_value(&self, other: &Self) -> (order: Order)
        ensures
            order == order_of(self.position(), other.position()),
    ;

    /// The distance from `self` up to `other`, which must not lie before
    /// `self`.
    fn distance_to(&self, other: &Self) -> (distance: u128)
        requires
            self.position() <= other.position(),
        ensures
            distance == other.position() - self.position(),
            self.position() == other.position() ==> distance == 0,
    ;

    /// Steps forward by `value` units; `None` where the type has no such
    /// value.
    fn add(&self, value: u128) -> (next: Option<Self>)
        ensures
            next == self.step(value),
            next matches Some(v) ==> self.position() <= v.position() <= self.position() + value,
            next matches Some(v) ==> value > 0 ==> self.position() < v.position(),
    ;

    /// Values between `self` and `other`, both left out, `optimal_distance`
    /// apart and each more than `min_distance` before `other`.
    fn get_values_in_between(
        &self,
        other: &Self,
        min_distance: u128,
        optimal_distance: u128,
    ) -> (values: Vec<Self>)
        requires
            self.position() <= other.position(),
            0 < min_distance <= optimal_distance,
        ensures
            values@ == self.between(other, min_distance, optimal_distance),
            forall|i: int|
                0 <= i < values.len() ==> self.position() < (#[trigger] values[i]).position()
                    && values[i].position() + min_distance < other.position(),
            forall|i: int, j: int|
                0 <= i < j < values.len() ==> (#[trigger] values[i]).position() < (
                #[trigger] values[j]).position(),
    ;
}

/// A datum of a chart: it has a place on an axis and a text that
/// describes it.
pub trait AxisData<V: AxisValue>: Clone {
    /// The axis value of the datum.
    spec fn axis_value(&self) -> V;

    /// The text that stands for `value` on a label.
    spec fn display_text(value: &V) -> Seq<char>;

    /// The text that describes the datum; for a plain value, its display
    /// text.
    spec fn description_text(&self) -> Seq<char>;

    fn value(&self) -> (v: &V)
        ensures
            *v == self.axis_value(),
    ;

    fn display_value(value: &V) -> (text: String)
        ensures
            text@ == Self::display_text(value),
    ;

    fn description(&self) -> (text: String)
        ensures
            text@ == self.description_text(),
    ;
}

} // verus!

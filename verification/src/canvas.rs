//! What the chart hands to the host's canvas and takes from it: colours,
//! drawing commands, input events and their answers.
use vstd::prelude::*;

use crate::geometry::Point;
use crate::geometry::Size;

verus! {

/// A colour in eight bits each of red, green, blue and opacity.
#[derive(Clone, Copy, Debug, PartialEq, Eq, Structural, Hash)]
pub struct Color {
    pub r: u8,
    pub g: u8,
    pub b: u8,
    pub a: u8,
}

impl Color {
    /// An opaque colour.
    pub fn from_rgb8(r: u8, g: u8, b: u8) -> (c: Color)
        ensures
            c == (Color { r, g, b, a: 255 }),
    {
        Color { r, g, b, a: 255 }
    }

    pub fn black() -> (c: Color)
        ensures
            c == (Color { r: 0, g: 0, b: 0, a: 255 }),
    {
        Color { r: 0, g: 0, b: 0, a: 255 }
    }

    pub fn white() -> (c: Color)
        ensures
            c == (Color { r: 255, g: 255, b: 255, a: 255 }),
    {
        Color { r: 255, g: 255, b: 255, a: 255 }
    }

    /// The same colour with another opacity.
    pub fn with_alpha(self, a: u8) -> (c: Color)
        ensures
            c == (Color { a, ..self }),
    {
        Color { r: self.r, g: self.g, b: self.b, a }
    }
}

#[derive(Clone, Copy, Debug, PartialEq, Eq, Structural)]
pub enum HorizontalAlignment {
    Left,
    Center,
    Right,
}

#[derive(Clone, Copy, Debug, PartialEq, Eq, Structural)]
pub enum VerticalAlignment {
    Top,
    Center,
    Bottom,
}

/// One step of drawing, in the order in which the host carries them out.
/// `Save` and `Restore` bracket a change of origin made by `Translate`.
#[derive(Debug, Clone, PartialEq, Eq)]
pub enum DrawCommand {
    FillRectangle { top_left: Point, size: Size, color: Color },
    FillCircle { center: Point, radius: u16, color: Color },
    StrokeLine { from: Point, to: Point, color: Color, width: u16 },
    FillText {
        content: String,
        position: Point,
        color: Color,
        text_size: u16,
        horizontal_alignment: HorizontalAlignment,
        vertical_alignment: VerticalAlignment,
    },
    Save,
    Translate { x: i32, y: i32 },
    Restore,
}

/// A drawing command as a plain value, its text as a sequence of
/// characters.
pub enum Drawn {
    FillRectangle { top_left: Point, size: Size, color: Color },
    FillCircle { center: Point, radius: u16, color: Color },
    StrokeLine { from: Point, to: Point, color: Color, width: u16 },
    FillText {
        content: Seq<char>,
        position: Point,
        color: Color,
        text_size: u16,
        horizontal_alignment: HorizontalAlignment,
        vertical_alignment: VerticalAlignment,
    },
    Save,
    Translate { x: i32, y: i32 },
    Restore,
}

impl View for DrawCommand {
    type V = Drawn;

    open spec fn view(&self) -> Drawn {
        match *self {
            DrawCommand::FillRectangle { top_left, size, color } => Drawn::FillRectangle {
                top_left,
                size,
                color,
            },
            DrawCommand::FillCircle { center, radius, color } => Drawn::FillCircle {
                center,
                radius,
                color,
            },
            DrawCommand::StrokeLine { from, to, color, width } => Drawn::StrokeLine {
                from,
                to,
                color,
                width,
            },
            DrawCommand::FillText {
                content,
                position,
                color,
                text_size,
                horizontal_alignment,
                vertical_alignment,
            } => Drawn::FillText {
                content: content@,
                position,
                color,
                text_size,
                horizontal_alignment,
                vertical_alignment,
            },
            DrawCommand::Save => Drawn::Save,
            DrawCommand::Translate { x, y } => Drawn::Translate { x, y },
            DrawCommand::Restore => Drawn::Restore,
        }
    }
}

/// The commands of a frame as plain values.
pub open spec fn drawn(commands: Seq<DrawCommand>) -> Seq<Drawn> {
    commands.map_values(|c: DrawCommand| c@)
}

/// What the host reports to the chart.
#[derive(Clone, Copy, Debug, PartialEq, Eq, Structural)]
pub enum Event {
    /// The pointer moved.
    CursorMoved { position: Point },
    /// Anything else.
    Other,
}

/// Whether the chart took an event.
#[derive(Clone, Copy, Debug, PartialEq, Eq, Structural)]
pub enum Status {
    Ignored,
    Captured,
}

/// The pointer's look over the chart.
#[derive(Clone, Copy, Debug, PartialEq, Eq, Structural)]
pub enum Interaction {
    Idle,
    Pointer,
}

} // verus!

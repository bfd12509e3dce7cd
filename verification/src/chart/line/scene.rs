//! The drawing of a chart, piece by piece: what each piece consists of,
//! and the code that puts it into a frame.
use vstd::prelude::*;

use crate::canvas::drawn;
use crate::canvas::DrawCommand;
use crate::canvas::Drawn;
use crate::canvas::HorizontalAlignment;
use crate::canvas::VerticalAlignment;
use crate::chart::line::data::PlotSettings;
use crate::chart::line::data::Settings;
use crate::chart::line::data::ThemeSettings;
use crate::chart::line::hit::line_count;
use crate::chart::line::hit::Hit;
use crate::chart::line::hit::Selection;
use crate::geometry::saturate_i32;
use crate::geometry::to_coordinate;
use crate::geometry::Cursor;
use crate::geometry::Point;
use crate::geometry::Rectangle;
use crate::geometry::Size;

verus! {

/// Puts one command at the end of a frame.
pub fn emit(frame: &mut Vec<DrawCommand>, command: DrawCommand)
    ensures
        drawn(final(frame)@) == drawn(old(frame)@).push(command@),
{
    frame.push(command);
    assert(drawn(frame@) =~= drawn(old(frame)@).push(command@));
}

/// The areas of a canvas: all of it, what is left inside the padding, and
/// what is left of that inside the margin, where the plots are drawn.
#[derive(Clone, Copy, Debug, PartialEq, Eq, Structural)]
pub struct Layout {
    pub full: Rectangle,
    pub padded: Rectangle,
    pub margined: Rectangle,
    pub padding_top: u16,
    pub padding_left: u16,
}

/// The areas of a canvas of the given size.
pub open spec fn layout_of(settings: Settings, size: Size) -> Layout {
    let full = Rectangle { x: 0, y: 0, width: size.width, height: size.height };
    let padded = settings.padding.inset(full);
    Layout {
        full,
        padded,
        margined: settings.margin.inset(padded),
        padding_top: settings.padding.top.measure(size),
        padding_left: settings.padding.left.measure(size),
    }
}

pub fn layout(settings: &Settings, size: Size) -> (areas: Layout)
    ensures
        areas == layout_of(*settings, size),
{
    let (top, _right, _bottom, left) = settings.padding.get(size);
    let full = Rectangle::new(Point::origin(), size);
    let padded = settings.padding.transform(full);
    let margined = settings.margin.transform(padded);
    Layout { full, padded, margined, padding_top: top, padding_left: left }
}

/// The pointer's place counted from the corner of the area of the plots,
/// if the pointer is over the canvas.
pub open spec fn cursor_in_plots(cursor: Cursor, bounds: Rectangle, margined: Rectangle) -> Option<
    Point,
> {
    match cursor.place_in(bounds) {
        Some(at) => Some(
            Point { x: saturate_i32(at.x - margined.x), y: saturate_i32(at.y - margined.y) },
        ),
        None => None,
    }
}

pub fn locate_cursor(cursor: Cursor, bounds: Rectangle, margined: Rectangle) -> (at: Option<Point>)
    ensures
        at == cursor_in_plots(cursor, bounds, margined),
{
    match cursor.position_in(&bounds) {
        Some(at) => Some(
            Point {
                x: to_coordinate(at.x as i64 - margined.x as i64),
                y: to_coordinate(at.y as i64 - margined.y as i64),
            },
        ),
        None => None,
    }
}

/// The backgrounds: the whole canvas, the padded area, and, where it has a
/// colour, the area of the plots.
pub open spec fn background_commands(theme: ThemeSettings, areas: Layout) -> Seq<Drawn> {
    let outer = seq![
        Drawn::FillRectangle {
            top_left: Point { x: areas.full.x, y: areas.full.y },
            size: Size { width: areas.full.width, height: areas.full.height },
            color: theme.background_color,
        },
        Drawn::FillRectangle {
            top_left: Point { x: areas.padded.x, y: areas.padded.y },
            size: Size { width: areas.padded.width, height: areas.padded.height },
            color: theme.padded_background_color,
        },
    ];
    match theme.margined_background_color {
        Some(color) => outer.push(
            Drawn::FillRectangle {
                top_left: Point { x: areas.margined.x, y: areas.margined.y },
                size: Size { width: areas.margined.width, height: areas.margined.height },
                color,
            },
        ),
        None => outer,
    }
}

pub fn draw_backgrounds(frame: &mut Vec<DrawCommand>, theme: &ThemeSettings, areas: Layout)
    ensures
        drawn(final(frame)@) == drawn(old(frame)@) + background_commands(*theme, areas),
{
    emit(
        frame,
        DrawCommand::FillRectangle {
            top_left: areas.full.position(),
            size: areas.full.size(),
            color: theme.background_color,
        },
    );
    emit(
        frame,
        DrawCommand::FillRectangle {
            top_left: areas.padded.position(),
            size: areas.padded.size(),
            color: theme.padded_background_color,
        },
    );
    if let Some(color) = theme.margined_background_color {
        emit(
            frame,
            DrawCommand::FillRectangle {
                top_left: areas.margined.position(),
                size: areas.margined.size(),
                color,
            },
        );
    }
    assert(drawn(frame@) =~= drawn(old(frame)@) + background_commands(*theme, areas));
}

/// The title, where there is one: at the left, half way down the padding
/// above the plots.
pub open spec fn title_commands(settings: Settings, areas: Layout) -> Seq<Drawn> {
    match settings.title {
        Some(title) => seq![
            Drawn::FillText {
                content: title@,
                position: Point {
                    x: saturate_i32(areas.padding_left as int),
                    y: saturate_i32((areas.padding_top / 2) as int),
                },
                color: settings.theme.title_color,
                text_size: settings.theme.title_size,
                horizontal_alignment: HorizontalAlignment::Left,
                vertical_alignment: VerticalAlignment::Center,
            },
        ],
        None => Seq::empty(),
    }
}

pub fn draw_title(frame: &mut Vec<DrawCommand>, settings: &Settings, areas: Layout)
    ensures
        drawn(final(frame)@) == drawn(old(frame)@) + title_commands(*settings, areas),
{
    if let Some(title) = &settings.title {
        emit(
            frame,
            DrawCommand::FillText {
                content: title.clone(),
                position: Point {
                    x: to_coordinate(areas.padding_left as i64),
                    y: to_coordinate((areas.padding_top / 2) as i64),
                },
                color: settings.theme.title_color,
                text_size: settings.theme.title_size,
                horizontal_alignment: HorizontalAlignment::Left,
                vertical_alignment: VerticalAlignment::Center,
            },
        );
    }
    assert(drawn(frame@) =~= drawn(old(frame)@) + title_commands(*settings, areas));
}

/// A label of the y axis in row `y`: a short tick across the left edge of
/// the padded area, a long line across the canvas, and the text left of
/// the tick.
pub open spec fn y_label_commands(
    theme: ThemeSettings,
    frame_width: u16,
    padded_area: Rectangle,
    y: i32,
    text: Seq<char>,
) -> Seq<Drawn> {
    seq![
        Drawn::StrokeLine {
            from: Point { x: saturate_i32(padded_area.x - 3), y },
            to: Point { x: saturate_i32(padded_area.x + 3), y },
            color: theme.y_label_short_line_color,
            width: theme.y_label_short_line_width,
        },
        Drawn::StrokeLine {
            from: Point { x: padded_area.x, y },
            to: Point { x: saturate_i32(frame_width - padded_area.x), y },
            color: theme.y_label_long_line_color,
            width: theme.y_label_long_line_width,
        },
        Drawn::FillText {
            content: text,
            position: Point { x: saturate_i32(padded_area.x - 5), y },
            color: theme.y_label_text_color,
            text_size: theme.y_label_text_size,
            horizontal_alignment: HorizontalAlignment::Right,
            vertical_alignment: VerticalAlignment::Center,
        },
    ]
}

/// A label of the x axis in column `x`: a short tick across the lower edge
/// of the padded area, a long line down the canvas, and the text below the
/// tick.
pub open spec fn x_label_commands(
    theme: ThemeSettings,
    frame_height: u16,
    padded_area: Rectangle,
    x: i32,
    text: Seq<char>,
) -> Seq<Drawn> {
    seq![
        Drawn::StrokeLine {
            from: Point { x, y: saturate_i32(frame_height - padded_area.y - 3) },
            to: Point { x, y: saturate_i32(frame_height - padded_area.y + 3) },
            color: theme.x_label_short_line_color,
            width: theme.x_label_short_line_width,
        },
        Drawn::StrokeLine {
            from: Point { x, y: padded_area.y },
            to: Point { x, y: saturate_i32(frame_height - padded_area.y) },
            color: theme.x_label_long_line_color,
            width: theme.x_label_long_line_width,
        },
        Drawn::FillText {
            content: text,
            position: Point { x, y: saturate_i32(frame_height - padded_area.y + 5) },
            color: theme.x_label_text_color,
            text_size: theme.x_label_text_size,
            horizontal_alignment: HorizontalAlignment::Center,
            vertical_alignment: VerticalAlignment::Top,
        },
    ]
}

/// The row of a label `offset` pixels above the lower edge of the area of
/// the plots.
pub open spec fn label_row(margined: Rectangle, offset: int) -> i32 {
    saturate_i32(margined.y + margined.height - offset)
}

/// The column of a label `offset` pixels right of the left edge of the
/// area of the plots.
pub open spec fn label_column(margined: Rectangle, offset: int) -> i32 {
    saturate_i32(margined.x + offset)
}

/// The width of the line and the radius of the points of a plot: larger
/// where the plot is selected.
pub open spec fn plot_sizes(plot: PlotSettings, selected: bool) -> (u16, u16) {
    if selected {
        (plot.line_size2, plot.point_size2)
    } else {
        (plot.line_size1, plot.point_size1)
    }
}

/// The radius of point `index` of plot `series`: the largest where the
/// point itself is selected.
pub open spec fn point_radius(plot: PlotSettings, series: int, index: int, selection: Selection) -> u16 {
    if selection.point == Some(Hit { series: series as usize, index: index as usize }) {
        plot.point_size3
    } else {
        plot_sizes(plot, selection.plot_of() == Some(series as usize)).1
    }
}

/// The lines of a plot, from each point to the next.
pub open spec fn line_commands(plot: PlotSettings, points: Seq<Point>, selected: bool) -> Seq<Drawn> {
    Seq::new(
        line_count(points.len()),
        |i: int|
            Drawn::StrokeLine {
                from: points[i],
                to: points[i + 1],
                color: plot.theme.line_color,
                width: plot_sizes(plot, selected).0,
            },
    )
}

/// The points of a plot, each a filled circle.
pub open spec fn circle_commands(
    plot: PlotSettings,
    points: Seq<Point>,
    series: int,
    selection: Selection,
) -> Seq<Drawn> {
    Seq::new(
        points.len(),
        |i: int|
            Drawn::FillCircle {
                center: points[i],
                radius: point_radius(plot, series, i, selection),
                color: plot.theme.point_color,
            },
    )
}

/// One plot: its lines, then its points on top of them.
pub open spec fn plot_commands(
    plot: PlotSettings,
    points: Seq<Point>,
    series: int,
    selection: Selection,
) -> Seq<Drawn> {
    line_commands(plot, points, selection.plot_of() == Some(series as usize)) + circle_commands(
        plot,
        points,
        series,
        selection,
    )
}

pub fn draw_plot(
    frame: &mut Vec<DrawCommand>,
    plot: &PlotSettings,
    points: &Vec<Point>,
    series: usize,
    selection: Selection,
)
    ensures
        drawn(final(frame)@) == drawn(old(frame)@) + plot_commands(
            *plot,
            points@,
            series as int,
            selection,
        ),
{
    let selected = match selection.plot() {
        Some(chosen) => chosen == series,
        None => false,
    };
    let line_size = if selected { plot.line_size2 } else { plot.line_size1 };
    let point_size = if selected { plot.point_size2 } else { plot.point_size1 };
    let ghost lines = line_commands(*plot, points@, selected);
    let ghost circles = circle_commands(*plot, points@, series as int, selection);
    let mut i: usize = 0;
    while i + 1 < points.len()
        invariant
            i <= line_count(points.len() as nat),
            lines == line_commands(*plot, points@, selected),
            line_size == plot_sizes(*plot, selected).0,
            drawn(frame@) == drawn(old(frame)@) + lines.take(i as int),
        decreases points.len() - i,
    {
        emit(
            frame,
            DrawCommand::StrokeLine {
                from: points[i],
                to: points[i + 1],
                color: plot.theme.line_color,
                width: line_size,
            },
        );
        assert(lines.take(i + 1) =~= lines.take(i as int).push(lines[i as int]));
        i = i + 1;
    }
    assert(lines.take(i as int) =~= lines);
    let mut k: usize = 0;
    while k < points.len()
        invariant
            k <= points.len(),
            circles == circle_commands(*plot, points@, series as int, selection),
            selected == (selection.plot_of() == Some(series)),
            point_size == plot_sizes(*plot, selected).1,
            drawn(frame@) == drawn(old(frame)@) + lines + circles.take(k as int),
        decreases points.len() - k,
    {
        let chosen = match selection.point {
            Some(hit) => hit.series == series && hit.index == k,
            None => false,
        };
        let radius = if chosen { plot.point_size3 } else { point_size };
        emit(
            frame,
            DrawCommand::FillCircle { center: points[k], radius, color: plot.theme.point_color },
        );
        assert(circles.take(k + 1) =~= circles.take(k as int).push(circles[k as int]));
        assert(drawn(frame@) =~= drawn(old(frame)@) + lines + circles.take(k + 1));
        k = k + 1;
    }
    assert(circles.take(k as int) =~= circles);
    assert(drawn(frame@) =~= drawn(old(frame)@) + (lines + circles));
}

} // verus!

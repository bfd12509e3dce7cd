use hotplot::canvas::Color;
use hotplot::canvas::DrawCommand;
use hotplot::canvas::Event;
use hotplot::canvas::HorizontalAlignment;
use hotplot::canvas::Interaction;
use hotplot::canvas::Status;
use hotplot::canvas::VerticalAlignment;
use hotplot::chart::line::data::time::DateTime;
use hotplot::chart::line::data::DistanceValue;
use hotplot::chart::line::data::PlotSettings;
use hotplot::chart::line::data::QuadDistance;
use hotplot::chart::line::data::Settings;
use hotplot::chart::line::data::SizeShare;
use hotplot::chart::line::hit::select;
use hotplot::chart::line::hit::Hit;
use hotplot::chart::line::hit::Selection;
use hotplot::chart::line::labels::axis_labels;
use hotplot::chart::line::labels::spacing;
use hotplot::chart::line::projection::column_of;
use hotplot::chart::line::projection::project;
use hotplot::chart::line::projection::row_of;
use hotplot::chart::line::Chart;
use hotplot::chart::line::ChartBuilder;
use hotplot::chart::line::Drawing;
use hotplot::geometry::Cursor;
use hotplot::geometry::Point;
use hotplot::geometry::Rectangle;
use hotplot::geometry::Size;

fn bare() -> Settings {
    Settings {
        padding: QuadDistance::from1(DistanceValue::Fixed(0)),
        margin: QuadDistance::from1(DistanceValue::Fixed(0)),
        ..Settings::default()
    }
}

fn crossing() -> Chart<u8, u8, u8, u8> {
    ChartBuilder::new(bare())
        .add_data(PlotSettings::default(), vec![(0, 0), (10, 10)])
        .add_data(PlotSettings::default(), vec![(0, 10), (10, 0)])
        .min_x_value(0)
        .max_x_value(10)
        .min_y_value(0)
        .max_y_value(10)
        .build()
        .unwrap()
}

fn canvas(width: u16, height: u16) -> Rectangle {
    Rectangle::new(Point::new(0, 0), Size::new(width, height))
}

#[test]
fn the_ends_of_an_axis_land_on_the_ends_of_the_area() {
    assert_eq!(project(0, 10, 100), 0);
    assert_eq!(project(10, 10, 100), 100);
    assert_eq!(project(0, 7, 333), 0);
    assert_eq!(project(7, 7, 333), 333);
    assert_eq!(project(u128::MAX, u128::MAX, u16::MAX), u16::MAX as u128);
    assert_eq!(column_of(0, 10, 100), 0);
    assert_eq!(column_of(10, 10, 100), 100);
    assert_eq!(row_of(0, 10, 100), 100);
    assert_eq!(row_of(10, 10, 100), 0);
}

#[test]
fn values_are_projected_in_proportion() {
    assert_eq!(project(5, 10, 100), 50);
    assert_eq!(project(1, 3, 100), 33);
    assert_eq!(column_of(1, 3, 100), 33);
    assert_eq!(row_of(1, 3, 100), 67);
    // On an axis of no length everything stands in the middle.
    assert_eq!(project(0, 0, 100), 50);
    assert_eq!(column_of(0, 0, 101), 50);
    assert_eq!(row_of(0, 0, 101), 51);
}

#[test]
fn the_ends_of_an_axis_land_on_the_edges_of_the_largest_area() {
    assert_eq!(column_of(0, 10, u16::MAX), 0);
    assert_eq!(column_of(10, 10, u16::MAX), 65535);
    assert_eq!(row_of(0, 10, u16::MAX), 65535);
    assert_eq!(row_of(10, 10, u16::MAX), 0);
    let chart: Chart<u8, u8, u8, u8> = ChartBuilder::new(bare())
        .add_data(PlotSettings::default(), vec![(3, 7), (9, 200)])
        .min_x_value(3)
        .max_x_value(9)
        .min_y_value(7)
        .max_y_value(200)
        .build()
        .unwrap();
    assert_eq!(
        chart.points(Size::new(40000, 65535)),
        vec![vec![Point::new(0, 65535), Point::new(40000, 0)]]
    );
}

#[test]
fn pixels_far_beyond_the_area_stop_at_the_ends_of_their_range() {
    assert_eq!(column_of(1000, 1, 100), 100_000);
    assert_eq!(column_of(u128::MAX, 1, 100), i32::MAX);
    assert_eq!(row_of(1000, 1, 100), -99_900);
    assert_eq!(row_of(u128::MAX, 1, 100), i32::MIN);
    assert_eq!(row_of(20, 10, 100), -100);
}

#[test]
fn labels_divide_the_axis_into_equal_bands() {
    // 400 pixels hold 8 bands of 50 pixels: on an axis of 80 units the labels
    // stand 10 units apart.
    assert_eq!(spacing(50, 400, 80), Some((10, 10)));
    // 160 pixels hold 3 bands of 53 pixels, 5 units each on an axis of 16.
    assert_eq!(spacing(50, 160, 16), Some((5, 5)));
    // 100 pixels hold one band of 100 pixels.
    assert_eq!(spacing(60, 100, 1000), Some((600, 1000)));
    // 100 pixels hold three bands: a third of the axis each, rounded down.
    assert_eq!(spacing(30, 100, 1000), Some((300, 333)));
    assert_eq!(spacing(1, u16::MAX, u128::MAX), Some((u128::MAX / 65535, u128::MAX / 65535)));
    // Less than a unit counts as one unit.
    assert_eq!(spacing(50, 400, 3), Some((1, 1)));
    assert_eq!(spacing(50, 400, 0), Some((1, 1)));
    // Not even one band fits.
    assert_eq!(spacing(50, 49, 80), None);
    assert_eq!(spacing(0, 400, 80), None);
    assert_eq!(spacing(0, 0, 80), None);
}

#[test]
fn both_ends_of_an_axis_are_labelled() {
    assert_eq!(axis_labels(&0u8, &80, Some((10, 10))), vec![0, 10, 20, 30, 40, 50, 60, 80]);
    assert_eq!(axis_labels(&0u8, &16, Some((5, 5))), vec![0, 5, 10, 16]);
    assert_eq!(axis_labels(&0u8, &16, None), vec![0, 16]);
    assert_eq!(axis_labels(&7i64, &7, Some((1, 1))), vec![7, 7]);
    assert_eq!(axis_labels(&false, &true, Some((1, 1))), vec![false, true]);
    assert_eq!(axis_labels(&'a', &'z', Some((1, 5))), vec!['a', 'z']);
}

#[test]
fn at_the_crossing_of_two_lines_the_first_is_selected() {
    let chart = crossing();
    let points = chart.points(Size::new(100, 100));
    assert_eq!(
        points,
        vec![
            vec![Point::new(0, 100), Point::new(100, 0)],
            vec![Point::new(0, 0), Point::new(100, 100)],
        ]
    );
    assert_eq!(
        select(&points, Some(Point::new(50, 50))),
        Selection { point: None, line: Some(Hit { series: 0, index: 0 }) }
    );
    // The drawing shows the first plot with the wider line and the larger points.
    let commands = chart.render(canvas(100, 100), Cursor::Available(Point::new(50, 50)));
    let wide = PlotSettings::default().line_size2;
    let narrow = PlotSettings::default().line_size1;
    let widths: Vec<u16> = commands
        .iter()
        .filter_map(|c| match c {
            DrawCommand::StrokeLine { from, to, width, .. }
                if from.x == 0 && to.x == 100 && from.y != to.y =>
            {
                Some(*width)
            }
            _ => None,
        })
        .collect();
    assert_eq!(widths, vec![wide, narrow]);
    let radii: Vec<u16> = commands
        .iter()
        .filter_map(|c| match c {
            DrawCommand::FillCircle { radius, .. } => Some(*radius),
            _ => None,
        })
        .collect();
    assert_eq!(radii, vec![7, 7, 5, 5]);
}

#[test]
fn off_the_crossing_the_nearer_line_is_selected() {
    let chart = crossing();
    let points = chart.points(Size::new(100, 100));
    assert_eq!(select(&points, Some(Point::new(60, 45))).plot(), Some(0));
    assert_eq!(select(&points, Some(Point::new(60, 55))).plot(), Some(1));
    assert_eq!(select(&points, Some(Point::new(50, 20))).plot(), None);
    assert_eq!(
        select(&points, Some(Point::new(95, 95))),
        Selection { point: Some(Hit { series: 1, index: 1 }), line: None }
    );
}

#[test]
fn a_drawing_is_made_once_for_each_size_until_the_pointer_moves() {
    let mut chart = crossing();
    let bounds = canvas(100, 100);
    let cursor = Cursor::Available(Point::new(50, 50));
    let first = chart.draw(bounds, cursor);
    assert!(matches!(first, Drawing::Redrawn(_)));
    assert_eq!(chart.draw(bounds, cursor), Drawing::Reused);
    assert_eq!(chart.draw(bounds, Cursor::Unavailable), Drawing::Reused);
    // A move of the pointer makes the drawing void.
    let moved = Event::CursorMoved { position: Point::new(51, 50) };
    let (status, message) = chart.update(moved, bounds, cursor);
    assert_eq!(status, Status::Captured);
    assert!(message.is_none());
    let second = chart.draw(bounds, cursor);
    assert_eq!(second, first);
    assert_eq!(chart.draw(bounds, cursor), Drawing::Reused);
    // Other events leave it in place.
    let (status, message) = chart.update(Event::Other, bounds, cursor);
    assert_eq!(status, Status::Ignored);
    assert!(message.is_none());
    assert_eq!(chart.draw(bounds, cursor), Drawing::Reused);
    // A canvas of another size needs a new drawing.
    assert!(matches!(chart.draw(canvas(100, 101), cursor), Drawing::Redrawn(_)));
    assert!(matches!(chart.draw(bounds, cursor), Drawing::Redrawn(_)));
}

#[test]
fn a_drawing_equals_what_render_gives() {
    let mut chart = crossing();
    let bounds = canvas(100, 100);
    let cursor = Cursor::Available(Point::new(60, 45));
    let rendered = chart.render(bounds, cursor);
    assert_eq!(chart.draw(bounds, cursor), Drawing::Redrawn(rendered));
}

#[test]
fn the_pointer_turns_into_a_hand_over_lines_and_points() {
    let chart = crossing();
    let bounds = canvas(100, 100);
    let at = |x, y| chart.mouse_interaction(bounds, Cursor::Available(Point::new(x, y)));
    assert_eq!(at(50, 50), Interaction::Pointer);
    assert_eq!(at(60, 45), Interaction::Pointer);
    assert_eq!(at(50, 20), Interaction::Idle);
    assert_eq!(at(10, 10), Interaction::Pointer);
    assert_eq!(at(101, 50), Interaction::Idle);
    assert_eq!(chart.mouse_interaction(bounds, Cursor::Unavailable), Interaction::Idle);
}

fn small() -> Chart<u8, i32, u8, i32> {
    let settings = Settings {
        title: Some(String::from("T")),
        padding: QuadDistance::from1(DistanceValue::Fixed(20)),
        margin: QuadDistance::from1(DistanceValue::Fixed(10)),
        min_x_label_distance: DistanceValue::Fixed(50),
        min_y_label_distance: DistanceValue::Fixed(50),
        ..Settings::default()
    };
    ChartBuilder::new(settings)
        .add_data(PlotSettings::default(), vec![(0, 0), (16, 8)])
        .min_x_value(0)
        .max_x_value(16)
        .min_y_value(0)
        .max_y_value(8)
        .build()
        .unwrap()
}

fn line(from: (i32, i32), to: (i32, i32), color: Color, width: u16) -> DrawCommand {
    DrawCommand::StrokeLine {
        from: Point::new(from.0, from.1),
        to: Point::new(to.0, to.1),
        color,
        width,
    }
}

fn text(
    content: &str,
    at: (i32, i32),
    text_size: u16,
    horizontal_alignment: HorizontalAlignment,
    vertical_alignment: VerticalAlignment,
) -> DrawCommand {
    DrawCommand::FillText {
        content: String::from(content),
        position: Point::new(at.0, at.1),
        color: Color::black(),
        text_size,
        horizontal_alignment,
        vertical_alignment,
    }
}

fn fill(x: i32, y: i32, width: u16, height: u16, color: Color) -> DrawCommand {
    DrawCommand::FillRectangle { top_left: Point::new(x, y), size: Size::new(width, height), color }
}

fn y_label(row: i32, content: &str) -> Vec<DrawCommand> {
    let grey = Color { r: 0, g: 0, b: 0, a: 204 };
    vec![
        line((17, row), (23, row), grey, 1),
        line((20, row), (200, row), grey, 3),
        text(content, (15, row), 12, HorizontalAlignment::Right, VerticalAlignment::Center),
    ]
}

fn x_label(column: i32, content: &str) -> Vec<DrawCommand> {
    let grey = Color { r: 0, g: 0, b: 0, a: 204 };
    vec![
        line((column, 117), (column, 123), grey, 1),
        line((column, 20), (column, 120), grey, 3),
        text(content, (column, 125), 12, HorizontalAlignment::Center, VerticalAlignment::Top),
    ]
}

fn frame_of_small() -> Vec<DrawCommand> {
    let mut expected = vec![
        fill(0, 0, 220, 140, Color::from_rgb8(211, 211, 211)),
        fill(20, 20, 180, 100, Color::white()),
        fill(30, 30, 160, 80, Color::from_rgb8(241, 241, 241)),
        text("T", (20, 10), 32, HorizontalAlignment::Left, VerticalAlignment::Center),
    ];
    expected.extend(y_label(110, "0"));
    expected.extend(y_label(30, "8"));
    expected.extend(x_label(30, "0"));
    expected.extend(x_label(80, "5"));
    expected.extend(x_label(130, "10"));
    expected.extend(x_label(190, "16"));
    expected
}

#[test]
fn the_drawing_of_a_small_chart() {
    let chart = small();
    let red = Color::from_rgb8(200, 0, 0);
    let mut expected = frame_of_small();
    expected.extend(vec![
        DrawCommand::Save,
        DrawCommand::Translate { x: 30, y: 30 },
        line((0, 80), (160, 0), red, 2),
        DrawCommand::FillCircle { center: Point::new(0, 80), radius: 5, color: red },
        DrawCommand::FillCircle { center: Point::new(160, 0), radius: 5, color: red },
        DrawCommand::Restore,
    ]);
    assert_eq!(chart.render(canvas(220, 140), Cursor::Unavailable), expected);
    // A pointer far from everything changes nothing.
    assert_eq!(chart.render(canvas(220, 140), Cursor::Available(Point::new(200, 130))), expected);
    // Nor does a pointer outside the canvas.
    assert_eq!(chart.render(canvas(220, 140), Cursor::Available(Point::new(30, 141))), expected);
}

#[test]
fn the_drawing_with_a_selected_point() {
    let chart = small();
    let red = Color::from_rgb8(200, 0, 0);
    let mut expected = frame_of_small();
    expected.extend(vec![
        text("0\n0", (200, 10), 16, HorizontalAlignment::Right, VerticalAlignment::Center),
        DrawCommand::Save,
        DrawCommand::Translate { x: 30, y: 30 },
        line((0, 80), (160, 0), red, 3),
        DrawCommand::FillCircle { center: Point::new(0, 80), radius: 10, color: red },
        DrawCommand::FillCircle { center: Point::new(160, 0), radius: 7, color: red },
        DrawCommand::Restore,
    ]);
    assert_eq!(chart.render(canvas(220, 140), Cursor::Available(Point::new(30, 110))), expected);
    assert_eq!(chart.render(canvas(220, 140), Cursor::Available(Point::new(39, 119))), expected);
}

#[test]
fn the_drawing_with_a_selected_line() {
    let chart = small();
    let red = Color::from_rgb8(200, 0, 0);
    let mut expected = frame_of_small();
    expected.extend(vec![
        DrawCommand::Save,
        DrawCommand::Translate { x: 30, y: 30 },
        line((0, 80), (160, 0), red, 3),
        DrawCommand::FillCircle { center: Point::new(0, 80), radius: 7, color: red },
        DrawCommand::FillCircle { center: Point::new(160, 0), radius: 7, color: red },
        DrawCommand::Restore,
    ]);
    // The middle of the line, seen from the canvas.
    assert_eq!(chart.render(canvas(220, 140), Cursor::Available(Point::new(110, 70))), expected);
}

#[test]
fn a_canvas_elsewhere_is_drawn_from_its_own_corner() {
    let chart = small();
    let here = chart.render(canvas(220, 140), Cursor::Available(Point::new(30, 110)));
    let bounds = Rectangle::new(Point::new(500, -40), Size::new(220, 140));
    let there = chart.render(bounds, Cursor::Available(Point::new(530, 70)));
    assert_eq!(here, there);
}

#[test]
fn a_theme_without_inner_background_and_a_chart_without_title() {
    let mut settings = bare();
    settings.theme.margined_background_color = None;
    let chart: Chart<bool, char, bool, char> = ChartBuilder::new(settings)
        .min_x_value(false)
        .max_x_value(true)
        .min_y_value('a')
        .max_y_value('c')
        .build()
        .unwrap();
    let commands = chart.render(canvas(40, 40), Cursor::Unavailable);
    let texts: Vec<&str> = commands
        .iter()
        .filter_map(|c| match c {
            DrawCommand::FillText { content, .. } => Some(content.as_str()),
            _ => None,
        })
        .collect();
    assert_eq!(texts, vec!["'a'", "'c'", "false", "true"]);
    let fills = commands
        .iter()
        .filter(|c| matches!(c, DrawCommand::FillRectangle { .. }))
        .count();
    assert_eq!(fills, 2);
    assert_eq!(commands.len(), 2 + 4 * 3 + 3);
}

#[test]
fn custom_labels_are_drawn_before_the_regular_ones() {
    let settings = Settings {
        title: Some(String::from("T")),
        padding: QuadDistance::from1(DistanceValue::Fixed(20)),
        margin: QuadDistance::from1(DistanceValue::Fixed(10)),
        min_x_label_distance: DistanceValue::Fixed(50),
        min_y_label_distance: DistanceValue::Fixed(50),
        ..Settings::default()
    };
    let chart: Chart<u8, i32, u8, i32> = ChartBuilder::new(settings)
        .add_data(PlotSettings::default(), vec![(0, 0), (16, 8)])
        .min_x_value(0)
        .max_x_value(16)
        .min_y_value(0)
        .max_y_value(8)
        .custom_x_labels(vec![
            (8, Some(String::from("half"))),
            (0, Some(String::from("first"))),
            (4, None),
            (16, None),
            (17, None),
        ])
        .custom_y_labels(vec![(2, None), (8, Some(String::from("top"))), (-1, None)])
        .build()
        .unwrap();
    let red = Color::from_rgb8(200, 0, 0);
    let mut expected = vec![
        fill(0, 0, 220, 140, Color::from_rgb8(211, 211, 211)),
        fill(20, 20, 180, 100, Color::white()),
        fill(30, 30, 160, 80, Color::from_rgb8(241, 241, 241)),
        text("T", (20, 10), 32, HorizontalAlignment::Left, VerticalAlignment::Center),
    ];
    // Of the custom labels those strictly between the bounds are drawn.
    expected.extend(y_label(90, "2"));
    expected.extend(y_label(110, "0"));
    expected.extend(y_label(30, "8"));
    expected.extend(x_label(110, "half"));
    expected.extend(x_label(70, "4"));
    expected.extend(x_label(30, "0"));
    expected.extend(x_label(80, "5"));
    expected.extend(x_label(130, "10"));
    expected.extend(x_label(190, "16"));
    expected.extend(vec![
        DrawCommand::Save,
        DrawCommand::Translate { x: 30, y: 30 },
        line((0, 80), (160, 0), red, 2),
        DrawCommand::FillCircle { center: Point::new(0, 80), radius: 5, color: red },
        DrawCommand::FillCircle { center: Point::new(160, 0), radius: 5, color: red },
        DrawCommand::Restore,
    ]);
    assert_eq!(chart.render(canvas(220, 140), Cursor::Unavailable), expected);
}

#[test]
fn a_custom_label_on_the_edge_of_the_area_is_not_drawn() {
    // On a canvas three pixels high the value 1 of 0 to 10 stands in the
    // bottom row of the area, and is left out; the value 9 stands two rows up.
    let chart: Chart<u8, u8, u8, u8> = ChartBuilder::new(bare())
        .min_x_value(0)
        .max_x_value(10)
        .min_y_value(0)
        .max_y_value(10)
        .custom_y_labels(vec![(1, None), (9, None)])
        .build()
        .unwrap();
    let commands = chart.render(canvas(3, 3), Cursor::Unavailable);
    let texts: Vec<(&str, i32)> = commands
        .iter()
        .filter_map(|c| match c {
            DrawCommand::FillText { content, position, horizontal_alignment, .. }
                if *horizontal_alignment == HorizontalAlignment::Right =>
            {
                Some((content.as_str(), position.y))
            }
            _ => None,
        })
        .collect();
    assert_eq!(texts, vec![("9", 1), ("0", 3), ("10", 0)]);
}

fn texts_of(commands: &[DrawCommand], alignment: HorizontalAlignment) -> Vec<(String, i32, i32)> {
    commands
        .iter()
        .filter_map(|c| match c {
            DrawCommand::FillText { content, position, horizontal_alignment, .. }
                if *horizontal_alignment == alignment =>
            {
                Some((content.clone(), position.x, position.y))
            }
            _ => None,
        })
        .collect()
}

#[test]
fn a_chart_over_time() {
    let day = 86_400_000;
    let at = |days: i64| DateTime::from_timestamp_millis(1_607_040_000_000 + days * day).unwrap();
    let settings = Settings {
        title: Some(String::from("Test")),
        min_x_label_distance: DistanceValue::Fixed(200),
        ..Settings::default()
    };
    let chart: Chart<DateTime, i32, DateTime, i32> = ChartBuilder::new(settings)
        .add_data(PlotSettings::default(), vec![(at(3), 55), (at(5), -18), (at(7), 15)])
        .add_data(PlotSettings::default(), vec![(at(2), 11), (at(6), 117), (at(8), 12)])
        .min_x_value(at(0))
        .max_x_value(at(9))
        .calculate_min_max_y_values()
        .unwrap()
        .build()
        .unwrap();
    let commands = chart.render(canvas(1000, 600), Cursor::Unavailable);
    // The area of the plots is 840 pixels wide: four bands of 210 pixels, two
    // days and a quarter each.
    assert_eq!(
        texts_of(&commands, HorizontalAlignment::Center),
        vec![
            (String::from("2020-12-04T00:00:00"), 80, 545),
            (String::from("2020-12-06T06:00:00"), 290, 545),
            (String::from("2020-12-08T12:00:00"), 500, 545),
            (String::from("2020-12-10T18:00:00"), 710, 545),
            (String::from("2020-12-13T00:00:00"), 920, 545),
        ]
    );
    // It is 440 pixels high: eight bands of 55 pixels, 16 units each of the
    // 135 from -18 to 117.
    let rows: Vec<(String, i32)> = texts_of(&commands, HorizontalAlignment::Right)
        .into_iter()
        .map(|(text, _x, y)| (text, y))
        .collect();
    assert_eq!(
        rows,
        vec![
            (String::from("-18"), 520),
            (String::from("-2"), 468),
            (String::from("14"), 416),
            (String::from("30"), 364),
            (String::from("46"), 312),
            (String::from("62"), 260),
            (String::from("78"), 208),
            (String::from("94"), 155),
            (String::from("117"), 80),
        ]
    );
    assert_eq!(
        texts_of(&commands, HorizontalAlignment::Left),
        vec![(String::from("Test"), 60, 30)]
    );
    // The pointer on the datum of the sixth day selects it and shows its description.
    let points = chart.points(Size::new(840, 440));
    assert_eq!(points[1][1], Point::new(560, 0));
    let commands = chart.render(canvas(1000, 600), Cursor::Available(Point::new(640, 80)));
    assert_eq!(
        texts_of(&commands, HorizontalAlignment::Right).last(),
        Some(&(String::from("2020-12-10T00:00:00\n117"), 940, 30))
    );
}

#[test]
fn on_an_axis_of_no_length_everything_stands_in_the_middle() {
    let chart: Chart<u8, u8, u8, u8> = ChartBuilder::new(bare())
        .add_data(PlotSettings::default(), vec![(5, 5), (9, 200)])
        .min_x_value(5)
        .max_x_value(5)
        .min_y_value(5)
        .max_y_value(5)
        .build()
        .unwrap();
    assert_eq!(
        chart.points(Size::new(100, 60)),
        vec![vec![Point::new(50, 30), Point::new(50, 30)]]
    );
}

#[test]
fn insets_may_be_shares_of_the_canvas() {
    let tenth = DistanceValue::Relative(&SizeShare { width_permille: 100, height_permille: 0 });
    let fifth = DistanceValue::Relative(&SizeShare { width_permille: 0, height_permille: 200 });
    let settings = Settings {
        padding: QuadDistance::from2(fifth, tenth),
        margin: QuadDistance::from1(DistanceValue::Fixed(0)),
        ..Settings::default()
    };
    let chart: Chart<u8, u8, u8, u8> = ChartBuilder::new(settings)
        .min_x_value(0)
        .max_x_value(1)
        .min_y_value(0)
        .max_y_value(1)
        .build()
        .unwrap();
    let commands = chart.render(canvas(200, 100), Cursor::Unavailable);
    assert_eq!(commands[1], fill(20, 20, 160, 60, Color::white()));
    assert_eq!(commands[2], fill(20, 20, 160, 60, Color::from_rgb8(241, 241, 241)));
}

#[test]
fn the_pointer_is_looked_for_inside_the_margin() {
    let chart = small();
    let bounds = canvas(220, 140);
    let at = |x, y| chart.mouse_interaction(bounds, Cursor::Available(Point::new(x, y)));
    // The line runs from (30, 110) to (190, 30) on the canvas.
    assert_eq!(at(110, 70), Interaction::Pointer);
    assert_eq!(at(30, 110), Interaction::Pointer);
    assert_eq!(at(190, 30), Interaction::Pointer);
    assert_eq!(at(20, 20), Interaction::Idle);
    assert_eq!(at(110, 90), Interaction::Idle);
}

#[test]
fn the_pointer_turns_into_a_hand_over_a_plot_of_a_single_point() {
    let chart: Chart<i32, i32, i32, i32> = ChartBuilder::new(bare())
        .add_data(PlotSettings::default(), vec![(5, 5)])
        .min_x_value(0)
        .max_x_value(10)
        .min_y_value(0)
        .max_y_value(10)
        .build()
        .unwrap();
    let bounds = canvas(100, 100);
    let at = |x, y| chart.mouse_interaction(bounds, Cursor::Available(Point::new(x, y)));
    assert_eq!(chart.points(Size::new(100, 100)), vec![vec![Point::new(50, 50)]]);
    assert_eq!(at(50, 50), Interaction::Pointer);
    assert_eq!(at(50, 64), Interaction::Pointer);
    assert_eq!(at(50, 65), Interaction::Idle);
    assert_eq!(at(40, 40), Interaction::Idle);
    assert_eq!(at(41, 40), Interaction::Pointer);
    // The drawing selects the point at the same places.
    let selected = |x, y| {
        chart
            .render(bounds, Cursor::Available(Point::new(x, y)))
            .iter()
            .any(|c| matches!(c, DrawCommand::FillCircle { radius: 10, .. }))
    };
    assert!(selected(50, 50));
    assert!(selected(50, 64));
    assert!(!selected(50, 65));
}

#[test]
fn the_look_of_the_pointer_follows_the_selection_of_the_drawing() {
    let chart = small();
    let bounds = canvas(220, 140);
    for x in (0..=220).step_by(5) {
        for y in (0..=140).step_by(5) {
            let cursor = Cursor::Available(Point::new(x, y));
            let selected = chart
                .render(bounds, cursor)
                .iter()
                .any(|c| matches!(c, DrawCommand::StrokeLine { width: 3, from, .. } if from.x == 0));
            let look = chart.mouse_interaction(bounds, cursor);
            assert_eq!(look == Interaction::Pointer, selected);
        }
    }
}

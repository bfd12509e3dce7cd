use hotplot::canvas::Color;
use hotplot::chart::line::data::DistanceValue;
use hotplot::chart::line::data::PlotSettings;
use hotplot::chart::line::data::PlotThemeSettings;
use hotplot::chart::line::data::QuadDistance;
use hotplot::chart::line::data::Settings;
use hotplot::chart::line::data::SizeRelative;
use hotplot::chart::line::data::SizeShare;
use hotplot::chart::line::data::ThemeSettings;
use hotplot::geometry::Cursor;
use hotplot::geometry::Point;
use hotplot::geometry::Rectangle;
use hotplot::geometry::Size;

#[test]
fn default_theme() {
    let theme = ThemeSettings::default();
    assert_eq!(theme.background_color, Color::from_rgb8(211, 211, 211));
    assert_eq!(theme.padded_background_color, Color::white());
    assert_eq!(theme.margined_background_color, Some(Color::from_rgb8(241, 241, 241)));
    assert_eq!(theme.title_color, Color::black());
    assert_eq!(theme.title_size, 32);
    assert_eq!(theme.data_description_size, 16);
    assert_eq!(theme.x_label_text_size, 12);
    assert_eq!(theme.x_label_long_line_width, 3);
    assert_eq!(theme.x_label_short_line_width, 1);
    assert_eq!(theme.y_label_long_line_color, Color { r: 0, g: 0, b: 0, a: 204 });
    assert_eq!(theme.y_label_short_line_color, Color { r: 0, g: 0, b: 0, a: 204 });
    assert_eq!(theme.y_label_text_size, 12);
}

#[test]
fn default_settings() {
    let settings = Settings::default();
    assert_eq!(settings.title, None);
    let size = Size::new(7, 9);
    assert_eq!(settings.padding.get(size), (60, 60, 60, 60));
    assert_eq!(settings.margin.get(size), (20, 20, 20, 20));
    assert_eq!(settings.min_x_label_distance.get(size), 100);
    assert_eq!(settings.min_y_label_distance.get(size), 50);
    assert!(matches!(settings.padding.top, DistanceValue::Fixed(60)));
    assert!(matches!(settings.min_x_label_distance, DistanceValue::Fixed(100)));
}

#[test]
fn default_plot_settings() {
    let plot = PlotSettings::default();
    assert_eq!(plot.theme, PlotThemeSettings::default());
    assert_eq!(plot.theme.line_color, Color::from_rgb8(200, 0, 0));
    assert_eq!(plot.theme.point_color, Color::from_rgb8(200, 0, 0));
    assert_eq!(plot.line_selection_distance, 4);
    assert_eq!(plot.point_selection_distance, 10);
    assert_eq!(
        (plot.line_size1, plot.line_size2, plot.point_size1, plot.point_size2, plot.point_size3),
        (2, 3, 5, 7, 10)
    );
}

#[test]
fn plots_are_equal_where_they_look_the_same() {
    let plot = PlotSettings::default();
    let mut other = PlotSettings::default();
    other.line_selection_distance = 40;
    other.point_selection_distance = 50;
    assert!(plot == other);
    other.line_size2 = 4;
    assert!(plot != other);
    let mut coloured = PlotSettings::default();
    coloured.theme.point_color = Color::from_rgb8(0, 200, 0);
    assert!(plot != coloured);
}

#[test]
fn distances_are_fixed_or_a_share_of_the_size() {
    let size = Size::new(200, 100);
    assert_eq!(DistanceValue::Fixed(60).get(size), 60);
    let tenth_of_width = &SizeShare { width_permille: 100, height_permille: 0 };
    assert_eq!(DistanceValue::Relative(tenth_of_width).get(size), 20);
    let half_of_height = &SizeShare { width_permille: 0, height_permille: 500 };
    assert_eq!(DistanceValue::Relative(half_of_height).get(size), 50);
    let both = &SizeShare { width_permille: 1, height_permille: 1 };
    assert_eq!(DistanceValue::Relative(both).get(size), 0);
    let huge = &SizeShare { width_permille: u16::MAX, height_permille: u16::MAX };
    assert_eq!(DistanceValue::Relative(huge).get(Size::new(u16::MAX, u16::MAX)), u16::MAX);
}

/// The lesser of a tenth of the width and twelve pixels.
struct Capped;

impl SizeRelative for Capped {
    fn length_in(&self, size: Size) -> u16 {
        (size.width / 10).min(12)
    }

    fn length(&self, size: Size) -> u16 {
        self.length_in(size)
    }
}

#[test]
fn a_distance_may_be_any_function_of_the_size() {
    let capped = DistanceValue::Relative(&Capped);
    assert_eq!(capped.get(Size::new(50, 100)), 5);
    assert_eq!(capped.get(Size::new(500, 100)), 12);
    let area = Rectangle::new(Point::new(0, 0), Size::new(500, 100));
    assert_eq!(
        QuadDistance::from2(DistanceValue::Fixed(1), capped).transform(area),
        Rectangle { x: 12, y: 1, width: 476, height: 98 }
    );
}

#[test]
fn four_sides_from_one_to_four_values() {
    let a = DistanceValue::Fixed(1);
    let b = DistanceValue::Fixed(2);
    let c = DistanceValue::Fixed(3);
    let d = DistanceValue::Fixed(4);
    let size = Size::new(10, 10);
    assert_eq!(QuadDistance::from4(a, b, c, d).get(size), (1, 2, 3, 4));
    assert_eq!(QuadDistance::from3(a, b, c).get(size), (1, 2, 3, 2));
    assert_eq!(QuadDistance::from2(a, b).get(size), (1, 2, 1, 2));
    assert_eq!(QuadDistance::from1(a).get(size), (1, 1, 1, 1));
}

#[test]
fn insets_shrink_an_area() {
    let a = DistanceValue::Fixed(1);
    let b = DistanceValue::Fixed(2);
    let c = DistanceValue::Fixed(3);
    let d = DistanceValue::Fixed(4);
    let area = Rectangle::new(Point::new(10, 20), Size::new(100, 50));
    assert_eq!(
        QuadDistance::from4(a, b, c, d).transform(area),
        Rectangle { x: 14, y: 21, width: 94, height: 46 }
    );
    // An extent never falls below zero.
    let wide = QuadDistance::from1(DistanceValue::Fixed(30));
    assert_eq!(wide.transform(area), Rectangle { x: 40, y: 50, width: 40, height: 0 });
    // A coordinate stops at the end of its range.
    let edge = Rectangle::new(Point::new(i32::MAX, i32::MAX), Size::new(10, 10));
    assert_eq!(
        QuadDistance::from1(a).transform(edge),
        Rectangle { x: i32::MAX, y: i32::MAX, width: 8, height: 8 }
    );
}

#[test]
fn rectangles_hold_their_edges() {
    let area = Rectangle::new(Point::new(10, 20), Size::new(100, 50));
    assert_eq!(area.position(), Point::new(10, 20));
    assert_eq!(area.size(), Size::new(100, 50));
    assert!(area.contains(Point::new(10, 20)));
    assert!(area.contains(Point::new(110, 70)));
    assert!(!area.contains(Point::new(111, 70)));
    assert!(!area.contains(Point::new(9, 20)));
    assert!(!area.contains(Point::new(10, 71)));
    let far = Rectangle::new(Point::new(i32::MAX, i32::MAX), Size::new(u16::MAX, u16::MAX));
    assert!(far.contains(Point::new(i32::MAX, i32::MAX)));
    let large = Rectangle::new(Point::new(0, 0), Size::new(u16::MAX, u16::MAX));
    assert!(large.contains(Point::new(65535, 65535)));
    assert!(!large.contains(Point::new(65536, 65535)));
}

#[test]
fn the_cursor_is_placed_within_bounds() {
    let bounds = Rectangle::new(Point::new(10, 20), Size::new(100, 50));
    assert_eq!(Cursor::Unavailable.position_in(&bounds), None);
    assert_eq!(
        Cursor::Available(Point::new(15, 27)).position_in(&bounds),
        Some(Point::new(5, 7))
    );
    assert_eq!(Cursor::Available(Point::new(9, 27)).position_in(&bounds), None);
    let wide = Rectangle::new(Point::new(i32::MIN, 0), Size::new(u16::MAX, 10));
    assert_eq!(
        Cursor::Available(Point::new(i32::MIN + 65535, 0)).position_in(&wide),
        Some(Point::new(65535, 0))
    );
}

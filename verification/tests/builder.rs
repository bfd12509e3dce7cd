use hotplot::chart::line::data::DistanceValue;
use hotplot::chart::line::data::PlotSettings;
use hotplot::chart::line::data::QuadDistance;
use hotplot::chart::line::data::Settings;
use hotplot::chart::line::Chart;
use hotplot::chart::line::ChartBuilder;
use hotplot::chart::line::ChartError;
use hotplot::geometry::Point;
use hotplot::geometry::Size;

type Builder = ChartBuilder<u8, i32, u8, i32>;

fn bare() -> Settings {
    Settings {
        padding: QuadDistance::from1(DistanceValue::Fixed(0)),
        margin: QuadDistance::from1(DistanceValue::Fixed(0)),
        ..Settings::default()
    }
}

fn plots() -> Vec<(PlotSettings, Vec<(u8, i32)>)> {
    vec![
        (PlotSettings::default(), vec![(4, 10), (2, -5), (9, 3)]),
        (PlotSettings::default(), vec![]),
        (PlotSettings::default(), vec![(2, 40), (12, -5)]),
    ]
}

fn error_of(built: Result<Chart<u8, i32, u8, i32>, ChartError>) -> Option<ChartError> {
    built.err()
}

#[test]
fn an_empty_list_of_plots_has_no_least_x_value() {
    let builder = Builder::new(bare());
    assert_eq!(builder.calculate_min_x_value().err(), Some(ChartError::NoData));
}

#[test]
fn plots_without_data_have_no_bounds() {
    let empty = || {
        Builder::new(bare())
            .add_data(PlotSettings::default(), vec![])
            .add_data(PlotSettings::default(), vec![])
    };
    assert_eq!(empty().calculate_min_x_value().err(), Some(ChartError::NoData));
    assert_eq!(empty().calculate_max_x_value().err(), Some(ChartError::NoData));
    assert_eq!(empty().calculate_min_y_value().err(), Some(ChartError::NoData));
    assert_eq!(empty().calculate_max_y_value().err(), Some(ChartError::NoData));
    assert_eq!(empty().calculate_min_max_x_values().err(), Some(ChartError::NoData));
    assert_eq!(empty().calculate_min_max_y_values().err(), Some(ChartError::NoData));
    assert_eq!(empty().calculate_min_max_values().err(), Some(ChartError::NoData));
}

#[test]
fn a_chart_needs_all_four_bounds() {
    let b = || Builder::new(bare()).data(plots());
    assert_eq!(error_of(b().build()), Some(ChartError::NoMinXValue));
    assert_eq!(error_of(b().min_x_value(0).build()), Some(ChartError::NoMaxXValue));
    assert_eq!(
        error_of(b().min_x_value(0).max_x_value(20).build()),
        Some(ChartError::NoMinYValue)
    );
    assert_eq!(
        error_of(b().min_x_value(0).max_x_value(20).min_y_value(-5).build()),
        Some(ChartError::NoMaxYValue)
    );
    assert_eq!(
        error_of(b().max_x_value(20).min_y_value(-5).max_y_value(40).build()),
        Some(ChartError::NoMinXValue)
    );
    assert!(b().min_x_value(0).max_x_value(20).min_y_value(-5).max_y_value(40).build().is_ok());
}

#[test]
fn bounds_must_not_be_reversed() {
    let b = || Builder::new(bare());
    assert_eq!(
        error_of(b().min_x_value(5).max_x_value(4).min_y_value(0).max_y_value(1).build()),
        Some(ChartError::XBoundsReversed)
    );
    assert_eq!(
        error_of(b().min_x_value(4).max_x_value(4).min_y_value(2).max_y_value(1).build()),
        Some(ChartError::YBoundsReversed)
    );
    assert_eq!(
        error_of(b().min_x_value(5).max_x_value(4).min_y_value(2).max_y_value(1).build()),
        Some(ChartError::XBoundsReversed)
    );
    assert!(b().min_x_value(4).max_x_value(4).min_y_value(1).max_y_value(1).build().is_ok());
}

#[test]
fn no_datum_may_lie_before_the_least_value() {
    let b = || Builder::new(bare()).data(plots());
    assert_eq!(
        error_of(b().min_x_value(3).max_x_value(20).min_y_value(-5).max_y_value(40).build()),
        Some(ChartError::DataBeforeMinX)
    );
    assert_eq!(
        error_of(b().min_x_value(2).max_x_value(20).min_y_value(-4).max_y_value(40).build()),
        Some(ChartError::DataBeforeMinY)
    );
    assert_eq!(
        error_of(b().min_x_value(3).max_x_value(20).min_y_value(-4).max_y_value(40).build()),
        Some(ChartError::DataBeforeMinX)
    );
    // Data beyond the greatest value are allowed.
    assert!(b().min_x_value(2).max_x_value(5).min_y_value(-5).max_y_value(0).build().is_ok());
}

#[test]
fn bounds_are_taken_from_the_data() {
    let chart = Builder::new(bare())
        .data(plots())
        .calculate_min_max_values()
        .unwrap()
        .build()
        .unwrap();
    // x runs from 2 to 12 and y from -5 to 40: the corners of the data land on the
    // corners of the area.
    let points = chart.points(Size::new(100, 90));
    assert_eq!(
        points,
        vec![
            vec![Point::new(20, 60), Point::new(0, 90), Point::new(70, 74)],
            vec![],
            vec![Point::new(0, 0), Point::new(100, 90)],
        ]
    );
}

#[test]
fn each_bound_is_taken_alone() {
    let b = || Builder::new(bare()).data(plots());
    let chart = b()
        .calculate_min_x_value()
        .unwrap()
        .max_x_value(22)
        .min_y_value(-45)
        .calculate_max_y_value()
        .unwrap()
        .build()
        .unwrap();
    // x from 2 to 22, y from -45 to 40.
    assert_eq!(chart.points(Size::new(100, 85))[2], vec![Point::new(0, 0), Point::new(50, 45)]);
    let chart = b()
        .min_x_value(0)
        .calculate_max_x_value()
        .unwrap()
        .calculate_min_y_value()
        .unwrap()
        .max_y_value(45)
        .build()
        .unwrap();
    // x from 0 to 12, y from -5 to 45.
    assert_eq!(chart.points(Size::new(120, 50))[2], vec![Point::new(20, 5), Point::new(120, 50)]);
}

#[test]
fn later_settings_replace_earlier_ones() {
    let chart = Builder::new(bare())
        .data(vec![(PlotSettings::default(), vec![(200, 200)])])
        .data(plots())
        .add_data(PlotSettings::default(), vec![(7, 7)])
        .min_x_value(200)
        .min_x_value(2)
        .max_x_value(12)
        .min_y_value(-5)
        .max_y_value(40)
        .build()
        .unwrap();
    let points = chart.points(Size::new(100, 90));
    assert_eq!(points.len(), 4);
    assert_eq!(points[3], vec![Point::new(50, 66)]);
}

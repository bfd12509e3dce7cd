//! The line chart: a builder that gathers settings, plots and axis bounds,
//! and the chart that it builds.
use vstd::prelude::*;
use vstd::string::StringExecFns;

use crate::canvas::DrawCommand;
use crate::canvas::Drawn;
use crate::canvas::Event;
use crate::canvas::HorizontalAlignment;
use crate::canvas::Interaction;
use crate::canvas::Status;
use crate::canvas::VerticalAlignment;
use crate::canvas::drawn;
use crate::chart::line::bounds::all_x_values;
use crate::chart::line::bounds::all_y_values;
use crate::chart::line::bounds::collect_x_values;
use crate::chart::line::bounds::collect_y_values;
use crate::chart::line::bounds::greatest;
use crate::chart::line::bounds::greatest_of;
use crate::chart::line::bounds::least;
use crate::chart::line::bounds::least_of;
use crate::chart::line::data::AxisData;
use crate::chart::line::data::AxisValue;
use crate::chart::line::data::Message;
use crate::chart::line::data::Order;
use crate::chart::line::data::PlotSettings;
use crate::chart::line::data::Settings;
use crate::chart::line::hit::Selection;
use crate::chart::line::hit::anything_in_reach;
use crate::chart::line::hit::is_over_anything;
use crate::chart::line::hit::is_selection;
use crate::chart::line::hit::plots;
use crate::chart::line::hit::select;
use crate::chart::line::hit::selection_of;
use crate::chart::line::labels::axis_labels;
use crate::chart::line::labels::label_spacing;
use crate::chart::line::labels::labels_of;
use crate::chart::line::labels::spacing;
use crate::chart::line::projection::column_of;
use crate::chart::line::projection::lemma_bounds_land_on_edges;
use crate::chart::line::projection::pixel_column;
use crate::chart::line::projection::pixel_offset;
use crate::chart::line::projection::pixel_row;
use crate::chart::line::projection::project;
use crate::chart::line::projection::row_of;
use crate::chart::line::scene::Layout;
use crate::chart::line::scene::background_commands;
use crate::chart::line::scene::cursor_in_plots;
use crate::chart::line::scene::draw_backgrounds;
use crate::chart::line::scene::draw_plot;
use crate::chart::line::scene::draw_title;
use crate::chart::line::scene::emit;
use crate::chart::line::scene::label_column;
use crate::chart::line::scene::label_row;
use crate::chart::line::scene::layout;
use crate::chart::line::scene::layout_of;
use crate::chart::line::scene::locate_cursor;
use crate::chart::line::scene::plot_commands;
use crate::chart::line::scene::title_commands;
use crate::chart::line::scene::x_label_commands;
use crate::chart::line::scene::y_label_commands;
use crate::geometry::Cursor;
use crate::geometry::Point;
use crate::geometry::Rectangle;
use crate::geometry::Size;
use crate::geometry::saturate_i32;
use crate::geometry::to_coordinate;

pub mod bounds;
pub mod data;
pub mod hit;
pub mod labels;
pub mod projection;
pub mod scene;

verus! {

/// Why a chart could not be built, or a bound not be taken from the data.
#[derive(Clone, Copy, Debug, PartialEq, Eq, Structural)]
pub enum ChartError {
    /// No plot holds a single datum.
    NoData,
    NoMinXValue,
    NoMaxXValue,
    NoMinYValue,
    NoMaxYValue,
    /// The least x value lies beyond the greatest.
    XBoundsReversed,
    /// The least y value lies beyond the greatest.
    YBoundsReversed,
    /// A datum lies before the least x value.
    DataBeforeMinX,
    /// A datum lies before the least y value.
    DataBeforeMinY,
}

/// Whether no datum of any plot lies before `min_x` on the x axis.
pub open spec fn x_values_from<XV: AxisValue, YV: AxisValue, XD: AxisData<XV>, YD: AxisData<YV>>(
    data: Seq<(PlotSettings, Vec<(XD, YD)>)>,
    min_x: XV,
) -> bool {
    forall|s: int, i: int|
        0 <= s < data.len() && 0 <= i < data[s].1.len() ==> min_x.position() <= (
        #[trigger] data[s].1[i]).0.axis_value().position()
}

/// Whether no datum of any plot lies before `min_y` on the y axis.
pub open spec fn y_values_from<XV: AxisValue, YV: AxisValue, XD: AxisData<XV>, YD: AxisData<YV>>(
    data: Seq<(PlotSettings, Vec<(XD, YD)>)>,
    min_y: YV,
) -> bool {
    forall|s: int, i: int|
        0 <= s < data.len() && 0 <= i < data[s].1.len() ==> min_y.position() <= (
        #[trigger] data[s].1[i]).1.axis_value().position()
}

/// What a builder holds.
pub struct ChartBuilderView<XV: AxisValue, YV: AxisValue, XD: AxisData<XV>, YD: AxisData<YV>> {
    pub settings: Settings,
    pub min_x_value: Option<XV>,
    pub max_x_value: Option<XV>,
    pub min_y_value: Option<YV>,
    pub max_y_value: Option<YV>,
    pub data: Seq<(PlotSettings, Vec<(XD, YD)>)>,
    pub custom_x_labels: Seq<(XV, Option<String>)>,
    pub custom_y_labels: Seq<(YV, Option<String>)>,
}

impl<XV: AxisValue, YV: AxisValue, XD: AxisData<XV>, YD: AxisData<YV>> ChartBuilderView<
    XV,
    YV,
    XD,
    YD,
> {
    /// What stands in the way of building a chart, if anything: a bound
    /// that is missing, bounds the wrong way round, or a datum before the
    /// least value of its axis, looked for in this order.
    pub open spec fn obstacle(self) -> Option<ChartError> {
        if self.min_x_value.is_none() {
            Some(ChartError::NoMinXValue)
        } else if self.max_x_value.is_none() {
            Some(ChartError::NoMaxXValue)
        } else if self.min_y_value.is_none() {
            Some(ChartError::NoMinYValue)
        } else if self.max_y_value.is_none() {
            Some(ChartError::NoMaxYValue)
        } else if self.min_x_value.unwrap().position() > self.max_x_value.unwrap().position() {
            Some(ChartError::XBoundsReversed)
        } else if self.min_y_value.unwrap().position() > self.max_y_value.unwrap().position() {
            Some(ChartError::YBoundsReversed)
        } else if !x_values_from(self.data, self.min_x_value.unwrap()) {
            Some(ChartError::DataBeforeMinX)
        } else if !y_values_from(self.data, self.min_y_value.unwrap()) {
            Some(ChartError::DataBeforeMinY)
        } else {
            None
        }
    }

    /// The chart that is built where nothing stands in the way.
    pub open spec fn chart(self) -> ChartView<XV, YV, XD, YD> {
        ChartView {
            settings: self.settings,
            min_x_value: self.min_x_value.unwrap(),
            max_x_value: self.max_x_value.unwrap(),
            min_y_value: self.min_y_value.unwrap(),
            max_y_value: self.max_y_value.unwrap(),
            data: self.data,
            custom_x_labels: self.custom_x_labels,
            custom_y_labels: self.custom_y_labels,
            drawn_for: None,
        }
    }
}

/// Gathers what a chart is made of. The bounds of both axes have to be
/// given, or asked to be taken from the data: the builder infers nothing
/// by itself.
pub struct ChartBuilder<XV: AxisValue, YV: AxisValue, XD: AxisData<XV>, YD: AxisData<YV>> {
    settings: Settings,
    min_x_value_opt: Option<XV>,
    max_x_value_opt: Option<XV>,
    min_y_value_opt: Option<YV>,
    max_y_value_opt: Option<YV>,
    data: Vec<(PlotSettings, Vec<(XD, YD)>)>,
    custom_x_labels: Vec<(XV, Option<String>)>,
    custom_y_labels: Vec<(YV, Option<String>)>,
}

impl<XV: AxisValue, YV: AxisValue, XD: AxisData<XV>, YD: AxisData<YV>> View for ChartBuilder<
    XV,
    YV,
    XD,
    YD,
> {
    type V = ChartBuilderView<XV, YV, XD, YD>;

    closed spec fn view(&self) -> ChartBuilderView<XV, YV, XD, YD> {
        ChartBuilderView {
            settings: self.settings,
            min_x_value: self.min_x_value_opt,
            max_x_value: self.max_x_value_opt,
            min_y_value: self.min_y_value_opt,
            max_y_value: self.max_y_value_opt,
            data: self.data@,
            custom_x_labels: self.custom_x_labels@,
            custom_y_labels: self.custom_y_labels@,
        }
    }
}

impl<XV: AxisValue, YV: AxisValue, XD: AxisData<XV>, YD: AxisData<YV>> ChartBuilder<
    XV,
    YV,
    XD,
    YD,
> {
    pub fn new(settings: Settings) -> (builder: Self)
        ensures
            builder@ == (ChartBuilderView::<XV, YV, XD, YD> {
                settings,
                min_x_value: None,
                max_x_value: None,
                min_y_value: None,
                max_y_value: None,
                data: Seq::empty(),
                custom_x_labels: Seq::empty(),
                custom_y_labels: Seq::empty(),
            }),
    {
        Self {
            settings,
            min_x_value_opt: None,
            max_x_value_opt: None,
            min_y_value_opt: None,
            max_y_value_opt: None,
            data: Vec::new(),
            custom_x_labels: Vec::new(),
            custom_y_labels: Vec::new(),
        }
    }

    /// Builds the chart, or says what stands in the way.
    pub fn build(self) -> (built: Result<Chart<XV, YV, XD, YD>, ChartError>)
        ensures
            match built {
                Ok(chart) => self@.obstacle().is_none() && chart@ == self@.chart(),
                Err(error) => self@.obstacle() == Some(error),
            },
    {
        let min_x_value = match self.min_x_value_opt {
            Some(value) => value,
            None => { return Err(ChartError::NoMinXValue); },
        };
        let max_x_value = match self.max_x_value_opt {
            Some(value) => value,
            None => { return Err(ChartError::NoMaxXValue); },
        };
        let min_y_value = match self.min_y_value_opt {
            Some(value) => value,
            None => { return Err(ChartError::NoMinYValue); },
        };
        let max_y_value = match self.max_y_value_opt {
            Some(value) => value,
            None => { return Err(ChartError::NoMaxYValue); },
        };
        if let Order::Greater = min_x_value.compare_value(&max_x_value) {
            return Err(ChartError::XBoundsReversed);
        }
        if let Order::Greater = min_y_value.compare_value(&max_y_value) {
            return Err(ChartError::YBoundsReversed);
        }
        if !no_x_value_before(&self.data, &min_x_value) {
            return Err(ChartError::DataBeforeMinX);
        }
        if !no_y_value_before(&self.data, &min_y_value) {
            return Err(ChartError::DataBeforeMinY);
        }
        let chart = Chart::new(
            self.settings,
            min_x_value,
            max_x_value,
            min_y_value,
            max_y_value,
            self.data,
        );
        Ok(chart.with_custom_labels(self.custom_x_labels, self.custom_y_labels))
    }

    /// Replaces the plots.
    pub fn data(self, data: Vec<(PlotSettings, Vec<(XD, YD)>)>) -> (builder: Self)
        ensures
            builder@ == (ChartBuilderView { data: data@, ..self@ }),
    {
        let mut builder = self;
        builder.data = data;
        builder
    }

    /// Sets labels of the x axis that are drawn besides the regular ones:
    /// each a value, and a text where the value is not to be written out.
    pub fn custom_x_labels(self, labels: Vec<(XV, Option<String>)>) -> (builder: Self)
        ensures
            builder@ == (ChartBuilderView { custom_x_labels: labels@, ..self@ }),
    {
        let mut builder = self;
        builder.custom_x_labels = labels;
        builder
    }

    /// Sets labels of the y axis that are drawn besides the regular ones:
    /// each a value, and a text where the value is not to be written out.
    pub fn custom_y_labels(self, labels: Vec<(YV, Option<String>)>) -> (builder: Self)
        ensures
            builder@ == (ChartBuilderView { custom_y_labels: labels@, ..self@ }),
    {
        let mut builder = self;
        builder.custom_y_labels = labels;
        builder
    }

    /// Adds a plot behind those that are there.
    pub fn add_data(self, plot_settings: PlotSettings, edges: Vec<(XD, YD)>) -> (builder: Self)
        ensures
            builder@ == (ChartBuilderView {
                data: self@.data.push((plot_settings, edges)),
                ..self@
            }),
    {
        let mut builder = self;
        builder.data.push((plot_settings, edges));
        builder
    }

    pub fn min_x_value(self, min_x_value: XV) -> (builder: Self)
        ensures
            builder@ == (ChartBuilderView { min_x_value: Some(min_x_value), ..self@ }),
    {
        let mut builder = self;
        builder.min_x_value_opt = Some(min_x_value);
        builder
    }

    pub fn max_x_value(self, max_x_value: XV) -> (builder: Self)
        ensures
            builder@ == (ChartBuilderView { max_x_value: Some(max_x_value), ..self@ }),
    {
        let mut builder = self;
        builder.max_x_value_opt = Some(max_x_value);
        builder
    }

    pub fn min_y_value(self, min_y_value: YV) -> (builder: Self)
        ensures
            builder@ == (ChartBuilderView { min_y_value: Some(min_y_value), ..self@ }),
    {
        let mut builder = self;
        builder.min_y_value_opt = Some(min_y_value);
        builder
    }

    pub fn max_y_value(self, max_y_value: YV) -> (builder: Self)
        ensures
            builder@ == (ChartBuilderView { max_y_value: Some(max_y_value), ..self@ }),
    {
        let mut builder = self;
        builder.max_y_value_opt = Some(max_y_value);
        builder
    }

    /// Takes the least x value from the data: the first datum that none
    /// lies before. Fails where no plot holds a datum.
    pub fn calculate_min_x_value(self) -> (builder: Result<Self, ChartError>)
        ensures
            match builder {
                Ok(b) => all_x_values::<XV, YV, XD, YD>(self@.data).len() > 0 && b@ == (
                ChartBuilderView {
                    min_x_value: least_of(all_x_values::<XV, YV, XD, YD>(self@.data)),
                    ..self@
                }),
                Err(error) => error == ChartError::NoData && all_x_values::<XV, YV, XD, YD>(
                    self@.data,
                ).len() == 0,
            },
    {
        let values = collect_x_values(&self.data);
        proof {
            crate::chart::line::bounds::lemma_least_of(values@);
        }
        match least(&values) {
            Some(value) => Ok(self.min_x_value(value)),
            None => Err(ChartError::NoData),
        }
    }

    /// Takes the greatest x value from the data: the last datum that none
    /// lies beyond. Fails where no plot holds a datum.
    pub fn calculate_max_x_value(self) -> (builder: Result<Self, ChartError>)
        ensures
            match builder {
                Ok(b) => all_x_values::<XV, YV, XD, YD>(self@.data).len() > 0 && b@ == (
                ChartBuilderView {
                    max_x_value: greatest_of(all_x_values::<XV, YV, XD, YD>(self@.data)),
                    ..self@
                }),
                Err(error) => error == ChartError::NoData && all_x_values::<XV, YV, XD, YD>(
                    self@.data,
                ).len() == 0,
            },
    {
        let values = collect_x_values(&self.data);
        proof {
            crate::chart::line::bounds::lemma_greatest_of(values@);
        }
        match greatest(&values) {
            Some(value) => Ok(self.max_x_value(value)),
            None => Err(ChartError::NoData),
        }
    }

    /// Takes the least y value from the data: the first datum that none
    /// lies before. Fails where no plot holds a datum.
    pub fn calculate_min_y_value(self) -> (builder: Result<Self, ChartError>)
        ensures
            match builder {
                Ok(b) => all_y_values::<XV, YV, XD, YD>(self@.data).len() > 0 && b@ == (
                ChartBuilderView {
                    min_y_value: least_of(all_y_values::<XV, YV, XD, YD>(self@.data)),
                    ..self@
                }),
                Err(error) => error == ChartError::NoData && all_y_values::<XV, YV, XD, YD>(
                    self@.data,
                ).len() == 0,
            },
    {
        let values = collect_y_values(&self.data);
        proof {
            crate::chart::line::bounds::lemma_least_of(values@);
        }
        match least(&values) {
            Some(value) => Ok(self.min_y_value(value)),
            None => Err(ChartError::NoData),
        }
    }

    /// Takes the greatest y value from the data: the last datum that none
    /// lies beyond. Fails where no plot holds a datum.
    pub fn calculate_max_y_value(self) -> (builder: Result<Self, ChartError>)
        ensures
            match builder {
                Ok(b) => all_y_values::<XV, YV, XD, YD>(self@.data).len() > 0 && b@ == (
                ChartBuilderView {
                    max_y_value: greatest_of(all_y_values::<XV, YV, XD, YD>(self@.data)),
                    ..self@
                }),
                Err(error) => error == ChartError::NoData && all_y_values::<XV, YV, XD, YD>(
                    self@.data,
                ).len() == 0,
            },
    {
        let values = collect_y_values(&self.data);
        proof {
            crate::chart::line::bounds::lemma_greatest_of(values@);
        }
        match greatest(&values) {
            Some(value) => Ok(self.max_y_value(value)),
            None => Err(ChartError::NoData),
        }
    }

    /// Takes both x bounds from the data.
    pub fn calculate_min_max_x_values(self) -> (builder: Result<Self, ChartError>)
        ensures
            match builder {
                Ok(b) => all_x_values::<XV, YV, XD, YD>(self@.data).len() > 0 && b@ == (
                ChartBuilderView {
                    min_x_value: least_of(all_x_values::<XV, YV, XD, YD>(self@.data)),
                    max_x_value: greatest_of(all_x_values::<XV, YV, XD, YD>(self@.data)),
                    ..self@
                }),
                Err(error) => error == ChartError::NoData && all_x_values::<XV, YV, XD, YD>(
                    self@.data,
                ).len() == 0,
            },
    {
        match self.calculate_min_x_value() {
            Ok(builder) => builder.calculate_max_x_value(),
            Err(error) => Err(error),
        }
    }

    /// Takes both y bounds from the data.
    pub fn calculate_min_max_y_values(self) -> (builder: Result<Self, ChartError>)
        ensures
            match builder {
                Ok(b) => all_y_values::<XV, YV, XD, YD>(self@.data).len() > 0 && b@ == (
                ChartBuilderView {
                    min_y_value: least_of(all_y_values::<XV, YV, XD, YD>(self@.data)),
                    max_y_value: greatest_of(all_y_values::<XV, YV, XD, YD>(self@.data)),
                    ..self@
                }),
                Err(error) => error == ChartError::NoData && all_y_values::<XV, YV, XD, YD>(
                    self@.data,
                ).len() == 0,
            },
    {
        match self.calculate_min_y_value() {
            Ok(builder) => builder.calculate_max_y_value(),
            Err(error) => Err(error),
        }
    }

    /// Takes all four bounds from the data.
    pub fn calculate_min_max_values(self) -> (builder: Result<Self, ChartError>)
        ensures
            match builder {
                Ok(b) => all_x_values::<XV, YV, XD, YD>(self@.data).len() > 0 && b@ == (
                ChartBuilderView {
                    min_x_value: least_of(all_x_values::<XV, YV, XD, YD>(self@.data)),
                    max_x_value: greatest_of(all_x_values::<XV, YV, XD, YD>(self@.data)),
                    min_y_value: least_of(all_y_values::<XV, YV, XD, YD>(self@.data)),
                    max_y_value: greatest_of(all_y_values::<XV, YV, XD, YD>(self@.data)),
                    ..self@
                }),
                Err(error) => error == ChartError::NoData && all_x_values::<XV, YV, XD, YD>(
                    self@.data,
                ).len() == 0,
            },
    {
        proof {
            crate::chart::line::bounds::lemma_same_count::<XV, YV, XD, YD>(self@.data);
        }
        match self.calculate_min_max_x_values() {
            Ok(builder) => builder.calculate_min_max_y_values(),
            Err(error) => Err(error),
        }
    }
}

/// Whether no datum of any plot lies before `min_x` on the x axis.
fn no_x_value_before<XV: AxisValue, YV: AxisValue, XD: AxisData<XV>, YD: AxisData<YV>>(
    data: &Vec<(PlotSettings, Vec<(XD, YD)>)>,
    min_x: &XV,
) -> (none: bool)
    ensures
        none == x_values_from(data@, *min_x),
{
    let mut s: usize = 0;
    while s < data.len()
        invariant
            s <= data.len(),
            x_values_from(data@.take(s as int), *min_x),
        decreases data.len() - s,
    {
        let edges = &data[s].1;
        let mut i: usize = 0;
        while i < edges.len()
            invariant
                i <= edges.len(),
                s < data.len(),
                edges == &data@[s as int].1,
                forall|k: int|
                    0 <= k < i ==> min_x.position() <= (
                    #[trigger] edges[k]).0.axis_value().position(),
            decreases edges.len() - i,
        {
            if let Order::Greater = min_x.compare_value(edges[i].0.value()) {
                assert(min_x.position() > data@[s as int].1[i as int].0.axis_value().position());
                return false;
            }
            i = i + 1;
        }
        proof {
            assert forall|t: int, k: int|
                0 <= t < data@.take(s + 1).len() && 0 <= k < data@.take(s + 1)[t].1.len() implies min_x.position()
                <= (#[trigger] data@.take(s + 1)[t].1[k]).0.axis_value().position() by {
                if t < s {
                    assert(data@.take(s + 1)[t] == data@.take(s as int)[t]);
                }
            }
        }
        s = s + 1;
    }
    proof {
        assert(data@.take(s as int) =~= data@);
    }
    true
}

/// Whether no datum of any plot lies before `min_y` on the y axis.
fn no_y_value_before<XV: AxisValue, YV: AxisValue, XD: AxisData<XV>, YD: AxisData<YV>>(
    data: &Vec<(PlotSettings, Vec<(XD, YD)>)>,
    min_y: &YV,
) -> (none: bool)
    ensures
        none == y_values_from(data@, *min_y),
{
    let mut s: usize = 0;
    while s < data.len()
        invariant
            s <= data.len(),
            y_values_from(data@.take(s as int), *min_y),
        decreases data.len() - s,
    {
        let edges = &data[s].1;
        let mut i: usize = 0;
        while i < edges.len()
            invariant
                i <= edges.len(),
                s < data.len(),
                edges == &data@[s as int].1,
                forall|k: int|
                    0 <= k < i ==> min_y.position() <= (
                    #[trigger] edges[k]).1.axis_value().position(),
            decreases edges.len() - i,
        {
            if let Order::Greater = min_y.compare_value(edges[i].1.value()) {
                assert(min_y.position() > data@[s as int].1[i as int].1.axis_value().position());
                return false;
            }
            i = i + 1;
        }
        proof {
            assert forall|t: int, k: int|
                0 <= t < data@.take(s + 1).len() && 0 <= k < data@.take(s + 1)[t].1.len() implies min_y.position()
                <= (#[trigger] data@.take(s + 1)[t].1[k]).1.axis_value().position() by {
                if t < s {
                    assert(data@.take(s + 1)[t] == data@.take(s as int)[t]);
                }
            }
        }
        s = s + 1;
    }
    proof {
        assert(data@.take(s as int) =~= data@);
    }
    true
}

/// What a chart holds.
pub struct ChartView<XV: AxisValue, YV: AxisValue, XD: AxisData<XV>, YD: AxisData<YV>> {
    pub settings: Settings,
    pub min_x_value: XV,
    pub max_x_value: XV,
    pub min_y_value: YV,
    pub max_y_value: YV,
    pub data: Seq<(PlotSettings, Vec<(XD, YD)>)>,
    pub custom_x_labels: Seq<(XV, Option<String>)>,
    pub custom_y_labels: Seq<(YV, Option<String>)>,
    /// The size of the canvas for which the host holds a finished drawing.
    pub drawn_for: Option<Size>,
}

impl<XV: AxisValue, YV: AxisValue, XD: AxisData<XV>, YD: AxisData<YV>> ChartView<XV, YV, XD, YD> {
    /// On each axis the least value does not lie beyond the greatest, and
    /// no datum lies before the least.
    pub open spec fn valid(self) -> bool {
        &&& self.min_x_value.position() <= self.max_x_value.position()
        &&& self.min_y_value.position() <= self.max_y_value.position()
        &&& x_values_from(self.data, self.min_x_value)
        &&& y_values_from(self.data, self.min_y_value)
    }

    /// The width of the x axis, in its unit.
    pub open spec fn total_x_distance(self) -> int {
        self.max_x_value.position() - self.min_x_value.position()
    }

    /// The height of the y axis, in its unit.
    pub open spec fn total_y_distance(self) -> int {
        self.max_y_value.position() - self.min_y_value.position()
    }

    /// The pixel of datum `i` of plot `s` in an area of the given size: its
    /// distances from the least values, mapped to the width and to the
    /// height, the height counted from the bottom.
    pub open spec fn pixel(self, s: int, i: int, size: Size) -> Point {
        Point {
            x: pixel_column(
                self.data[s].1[i].0.axis_value().position() - self.min_x_value.position(),
                self.total_x_distance(),
                size.width as int,
            ),
            y: pixel_row(
                self.data[s].1[i].1.axis_value().position() - self.min_y_value.position(),
                self.total_y_distance(),
                size.height as int,
            ),
        }
    }

    /// A datum on a bound of an axis of some length stands on an edge of
    /// the area, whatever its size: at the least x value in column zero, at
    /// the greatest in the last column; at the least y value in the bottom
    /// row, at the greatest in row zero.
    pub proof fn lemma_bounds_stand_on_edges(self, s: int, i: int, size: Size)
        requires
            self.valid(),
            0 <= s < self.data.len(),
            0 <= i < self.data[s].1.len(),
        ensures
            ({
                let x = self.data[s].1[i].0.axis_value().position();
                let y = self.data[s].1[i].1.axis_value().position();
                let pixel = self.pixel(s, i, size);
                &&& self.total_x_distance() > 0 && x == self.min_x_value.position() ==> pixel.x
                    == 0
                &&& self.total_x_distance() > 0 && x == self.max_x_value.position() ==> pixel.x
                    == size.width
                &&& self.total_y_distance() > 0 && y == self.min_y_value.position() ==> pixel.y
                    == size.height
                &&& self.total_y_distance() > 0 && y == self.max_y_value.position() ==> pixel.y
                    == 0
            }),
    {
        if self.total_x_distance() > 0 {
            lemma_bounds_land_on_edges(self.total_x_distance(), size.width, 0);
        }
        if self.total_y_distance() > 0 {
            lemma_bounds_land_on_edges(self.total_y_distance(), 0, size.height);
        }
    }

    /// The pixels of all data, plot by plot.
    pub open spec fn pixels(self, size: Size) -> Seq<Seq<Point>> {
        Seq::new(
            self.data.len(),
            |s: int| Seq::new(self.data[s].1@.len(), |i: int| self.pixel(s, i, size)),
        )
    }

    /// The values that get a label on the y axis.
    pub open spec fn y_labels(self, areas: Layout) -> Seq<YV> {
        labels_of(
            self.min_y_value,
            self.max_y_value,
            label_spacing(
                self.settings.min_y_label_distance.measure(
                    Size { width: areas.margined.width, height: areas.margined.height },
                ) as int,
                areas.margined.height as int,
                self.total_y_distance(),
            ),
        )
    }

    /// The values that get a label on the x axis.
    pub open spec fn x_labels(self, areas: Layout) -> Seq<XV> {
        labels_of(
            self.min_x_value,
            self.max_x_value,
            label_spacing(
                self.settings.min_x_label_distance.measure(
                    Size { width: areas.margined.width, height: areas.margined.height },
                ) as int,
                areas.margined.width as int,
                self.total_x_distance(),
            ),
        )
    }

    /// The labels of the y axis for the given values, each in the row of
    /// its value.
    pub open spec fn y_axis_commands(self, size: Size, areas: Layout, labels: Seq<YV>) -> Seq<Drawn>
        decreases labels.len(),
    {
        if labels.len() == 0 {
            Seq::empty()
        } else {
            self.y_axis_commands(size, areas, labels.drop_last()) + y_label_commands(
                self.settings.theme,
                size.width,
                areas.padded,
                label_row(
                    areas.margined,
                    pixel_offset(
                        labels.last().position() - self.min_y_value.position(),
                        self.total_y_distance(),
                        areas.margined.height as int,
                    ),
                ),
                YD::display_text(&labels.last()),
            )
        }
    }

    /// The labels of the x axis for the given values, each in the column of
    /// its value.
    pub open spec fn x_axis_commands(self, size: Size, areas: Layout, labels: Seq<XV>) -> Seq<Drawn>
        decreases labels.len(),
    {
        if labels.len() == 0 {
            Seq::empty()
        } else {
            self.x_axis_commands(size, areas, labels.drop_last()) + x_label_commands(
                self.settings.theme,
                size.height,
                areas.padded,
                label_column(
                    areas.margined,
                    pixel_offset(
                        labels.last().position() - self.min_x_value.position(),
                        self.total_x_distance(),
                        areas.margined.width as int,
                    ),
                ),
                XD::display_text(&labels.last()),
            )
        }
    }

    /// Whether a custom label of the y axis is drawn: where its value lies
    /// strictly between the bounds, and its row strictly inside the area of
    /// the plots.
    pub open spec fn shows_custom_y(self, areas: Layout, value: YV) -> bool {
        let offset = pixel_offset(
            value.position() - self.min_y_value.position(),
            self.total_y_distance(),
            areas.margined.height as int,
        );
        &&& self.min_y_value.position() < value.position() < self.max_y_value.position()
        &&& 0 < offset < areas.margined.height
    }

    /// Whether a custom label of the x axis is drawn: where its value lies
    /// strictly between the bounds, and its column strictly inside the area
    /// of the plots.
    pub open spec fn shows_custom_x(self, areas: Layout, value: XV) -> bool {
        let offset = pixel_offset(
            value.position() - self.min_x_value.position(),
            self.total_x_distance(),
            areas.margined.width as int,
        );
        &&& self.min_x_value.position() < value.position() < self.max_x_value.position()
        &&& 0 < offset < areas.margined.width
    }

    /// The custom labels of the y axis that are drawn, each with its own
    /// text, or else with its value written out.
    pub open spec fn custom_y_commands(
        self,
        size: Size,
        areas: Layout,
        labels: Seq<(YV, Option<String>)>,
    ) -> Seq<Drawn>
        decreases labels.len(),
    {
        if labels.len() == 0 {
            Seq::empty()
        } else {
            self.custom_y_commands(size, areas, labels.drop_last()) + if self.shows_custom_y(
                areas,
                labels.last().0,
            ) {
                y_label_commands(
                    self.settings.theme,
                    size.width,
                    areas.padded,
                    label_row(
                        areas.margined,
                        pixel_offset(
                            labels.last().0.position() - self.min_y_value.position(),
                            self.total_y_distance(),
                            areas.margined.height as int,
                        ),
                    ),
                    match labels.last().1 {
                        Some(text) => text@,
                        None => YD::display_text(&labels.last().0),
                    },
                )
            } else {
                Seq::empty()
            }
        }
    }

    /// The custom labels of the x axis that are drawn, each with its own
    /// text, or else with its value written out.
    pub open spec fn custom_x_commands(
        self,
        size: Size,
        areas: Layout,
        labels: Seq<(XV, Option<String>)>,
    ) -> Seq<Drawn>
        decreases labels.len(),
    {
        if labels.len() == 0 {
            Seq::empty()
        } else {
            self.custom_x_commands(size, areas, labels.drop_last()) + if self.shows_custom_x(
                areas,
                labels.last().0,
            ) {
                x_label_commands(
                    self.settings.theme,
                    size.height,
                    areas.padded,
                    label_column(
                        areas.margined,
                        pixel_offset(
                            labels.last().0.position() - self.min_x_value.position(),
                            self.total_x_distance(),
                            areas.margined.width as int,
                        ),
                    ),
                    match labels.last().1 {
                        Some(text) => text@,
                        None => XD::display_text(&labels.last().0),
                    },
                )
            } else {
                Seq::empty()
            }
        }
    }

    /// The text that describes the selected point: its x datum, and on a
    /// line of its own its y datum.
    pub open spec fn description_of(self, series: int, index: int) -> Seq<char> {
        self.data[series].1[index].0.description_text() + seq!['\n']
            + self.data[series].1[index].1.description_text()
    }

    /// The description of the selected point, where one is selected: at
    /// the right end of the padded area, half way down the padding above it.
    pub open spec fn description_commands(self, areas: Layout, selection: Selection) -> Seq<Drawn> {
        match selection.point {
            Some(hit) => seq![
                Drawn::FillText {
                    content: self.description_of(hit.series as int, hit.index as int),
                    position: Point {
                        x: saturate_i32(areas.padded.width + areas.padding_left),
                        y: saturate_i32((areas.padding_top / 2) as int),
                    },
                    color: self.settings.theme.title_color,
                    text_size: 16,
                    horizontal_alignment: HorizontalAlignment::Right,
                    vertical_alignment: VerticalAlignment::Center,
                },
            ],
            None => Seq::empty(),
        }
    }

    /// The first `count` plots, one after the other.
    pub open spec fn plots_commands(
        self,
        points: Seq<Seq<Point>>,
        selection: Selection,
        count: int,
    ) -> Seq<Drawn>
        decreases count,
    {
        if count <= 0 {
            Seq::empty()
        } else {
            self.plots_commands(points, selection, count - 1) + plot_commands(
                self.data[count - 1].0,
                points[count - 1],
                count - 1,
                selection,
            )
        }
    }

    /// What the pointer selects on a canvas at `bounds`.
    pub open spec fn selection(self, bounds: Rectangle, cursor: Cursor) -> Selection {
        let areas = layout_of(self.settings, Size { width: bounds.width, height: bounds.height });
        selection_of(
            self.pixels(Size { width: areas.margined.width, height: areas.margined.height }),
            cursor_in_plots(cursor, bounds, areas.margined),
        )
    }

    /// The whole drawing of the chart on a canvas at `bounds`: the
    /// backgrounds, the title, the labels of the y axis and of the x axis,
    /// on each axis the custom labels before the regular ones, the
    /// description of the selected point, and, with the origin moved to the
    /// corner of their area, the plots.
    pub open spec fn scene(self, bounds: Rectangle, cursor: Cursor) -> Seq<Drawn> {
        let size = Size { width: bounds.width, height: bounds.height };
        let areas = layout_of(self.settings, size);
        let points = self.pixels(
            Size { width: areas.margined.width, height: areas.margined.height },
        );
        let selection = self.selection(bounds, cursor);
        background_commands(self.settings.theme, areas) + title_commands(self.settings, areas)
            + self.custom_y_commands(size, areas, self.custom_y_labels) + self.y_axis_commands(
            size,
            areas,
            self.y_labels(areas),
        ) + self.custom_x_commands(size, areas, self.custom_x_labels) + self.x_axis_commands(
            size,
            areas,
            self.x_labels(areas),
        ) + self.description_commands(areas, selection) + seq![
            Drawn::Save,
            Drawn::Translate { x: areas.margined.x, y: areas.margined.y },
        ] + self.plots_commands(points, selection, self.data.len() as int) + seq![Drawn::Restore]
    }

    /// Whether the pointer is over something that it could select: it is
    /// over the canvas, and some point of some plot is within its reach, or
    /// some line.
    pub open spec fn hovered(self, bounds: Rectangle, cursor: Cursor) -> bool {
        let areas = layout_of(self.settings, Size { width: bounds.width, height: bounds.height });
        match cursor_in_plots(cursor, bounds, areas.margined) {
            Some(at) => anything_in_reach(
                self.pixels(Size { width: areas.margined.width, height: areas.margined.height }),
                at,
            ),
            None => false,
        }
    }
}

/// What a call to draw gives: a new drawing, or word that the drawing made
/// last still holds.
#[derive(Debug, Clone, PartialEq, Eq)]
pub enum Drawing {
    Redrawn(Vec<DrawCommand>),
    Reused,
}

/// A line chart: plots over two axes with fixed bounds.
pub struct Chart<XV: AxisValue, YV: AxisValue, XD: AxisData<XV>, YD: AxisData<YV>> {
    settings: Settings,
    min_x_value: XV,
    max_x_value: XV,
    total_x_distance: u128,
    min_y_value: YV,
    max_y_value: YV,
    total_y_distance: u128,
    data: Vec<(PlotSettings, Vec<(XD, YD)>)>,
    custom_x_labels: Vec<(XV, Option<String>)>,
    custom_y_labels: Vec<(YV, Option<String>)>,
    cache: Option<Size>,
}

impl<XV: AxisValue, YV: AxisValue, XD: AxisData<XV>, YD: AxisData<YV>> View for Chart<
    XV,
    YV,
    XD,
    YD,
> {
    type V = ChartView<XV, YV, XD, YD>;

    closed spec fn view(&self) -> ChartView<XV, YV, XD, YD> {
        ChartView {
            settings: self.settings,
            min_x_value: self.min_x_value,
            max_x_value: self.max_x_value,
            min_y_value: self.min_y_value,
            max_y_value: self.max_y_value,
            data: self.data@,
            custom_x_labels: self.custom_x_labels@,
            custom_y_labels: self.custom_y_labels@,
            drawn_for: self.cache,
        }
    }
}

impl<XV: AxisValue, YV: AxisValue, XD: AxisData<XV>, YD: AxisData<YV>> Chart<XV, YV, XD, YD> {
    #[verifier::type_invariant]
    spec fn well_formed(self) -> bool {
        &&& self@.valid()
        &&& self.total_x_distance == self@.total_x_distance()
        &&& self.total_y_distance == self@.total_y_distance()
    }

    /// A chart of the given plots between the given bounds. On each axis
    /// the least value must not lie beyond the greatest, and no datum before
    /// the least.
    pub fn new(
        settings: Settings,
        min_x_value: XV,
        max_x_value: XV,
        min_y_value: YV,
        max_y_value: YV,
        data: Vec<(PlotSettings, Vec<(XD, YD)>)>,
    ) -> (chart: Self)
        requires
            (ChartView {
                settings,
                min_x_value,
                max_x_value,
                min_y_value,
                max_y_value,
                data: data@,
                custom_x_labels: Seq::empty(),
                custom_y_labels: Seq::empty(),
                drawn_for: None,
            }).valid(),
        ensures
            chart@ == (ChartView {
                settings,
                min_x_value,
                max_x_value,
                min_y_value,
                max_y_value,
                data: data@,
                custom_x_labels: Seq::empty(),
                custom_y_labels: Seq::empty(),
                drawn_for: None,
            }),
    {
        let total_x_distance = min_x_value.distance_to(&max_x_value);
        let total_y_distance = min_y_value.distance_to(&max_y_value);
        Self {
            settings,
            min_x_value,
            max_x_value,
            total_x_distance,
            min_y_value,
            max_y_value,
            total_y_distance,
            data,
            custom_x_labels: Vec::new(),
            custom_y_labels: Vec::new(),
            cache: None,
        }
    }

    /// The same chart with other custom labels.
    pub fn with_custom_labels(
        self,
        custom_x_labels: Vec<(XV, Option<String>)>,
        custom_y_labels: Vec<(YV, Option<String>)>,
    ) -> (chart: Self)
        ensures
            chart@ == (ChartView {
                custom_x_labels: custom_x_labels@,
                custom_y_labels: custom_y_labels@,
                ..self@
            }),
    {
        proof {
            use_type_invariant(&self);
        }
        let mut chart = self;
        chart.custom_x_labels = custom_x_labels;
        chart.custom_y_labels = custom_y_labels;
        chart
    }

    /// The pixels of all data in an area of the given size.
    pub fn points(&self, size: Size) -> (points: Vec<Vec<Point>>)
        ensures
            plots(points@) == self@.pixels(size),
    {
        proof {
            use_type_invariant(self);
        }
        let mut points: Vec<Vec<Point>> = Vec::new();
        let mut s: usize = 0;
        while s < self.data.len()
            invariant
                s <= self.data.len(),
                points.len() == s,
                self.well_formed(),
                forall|t: int| 0 <= t < s ==> (#[trigger] points[t])@ == self@.pixels(size)[t],
            decreases self.data.len() - s,
        {
            let edges = &self.data[s].1;
            let mut plot: Vec<Point> = Vec::new();
            let mut i: usize = 0;
            while i < edges.len()
                invariant
                    s < self.data.len(),
                    i <= edges.len(),
                    plot.len() == i,
                    edges == &self.data@[s as int].1,
                    self.well_formed(),
                    forall|k: int| 0 <= k < i ==> #[trigger] plot[k] == self@.pixel(s as int, k, size),
                decreases edges.len() - i,
            {
                let x = edges[i].0.value();
                let y = edges[i].1.value();
                assert(self.min_x_value.position() <= self.data@[s as int].1[i as int].0.axis_value().position());
                assert(self.min_y_value.position() <= self.data@[s as int].1[i as int].1.axis_value().position());
                let x_distance = self.min_x_value.distance_to(x);
                let y_distance = self.min_y_value.distance_to(y);
                plot.push(
                    Point {
                        x: column_of(x_distance, self.total_x_distance, size.width),
                        y: row_of(y_distance, self.total_y_distance, size.height),
                    },
                );
                i = i + 1;
            }
            assert(plot@ =~= self@.pixels(size)[s as int]);
            points.push(plot);
            s = s + 1;
        }
        assert(plots(points@) =~= self@.pixels(size));
        points
    }

    /// Puts a label of the y axis into the frame, in row `y`.
    pub fn draw_y_label(
        &self,
        frame: &mut Vec<DrawCommand>,
        frame_width: u16,
        padded_area: Rectangle,
        y: i32,
        text: String,
    )
        ensures
            drawn(final(frame)@) == drawn(old(frame)@) + y_label_commands(
                self@.settings.theme,
                frame_width,
                padded_area,
                y,
                text@,
            ),
    {
        let theme = &self.settings.theme;
        let left: i64 = padded_area.x as i64;
        emit(
            frame,
            DrawCommand::StrokeLine {
                from: Point { x: to_coordinate(left - 3), y },
                to: Point { x: to_coordinate(left + 3), y },
                color: theme.y_label_short_line_color,
                width: theme.y_label_short_line_width,
            },
        );
        emit(
            frame,
            DrawCommand::StrokeLine {
                from: Point { x: padded_area.x, y },
                to: Point { x: to_coordinate(frame_width as i64 - left), y },
                color: theme.y_label_long_line_color,
                width: theme.y_label_long_line_width,
            },
        );
        emit(
            frame,
            DrawCommand::FillText {
                content: text,
                position: Point { x: to_coordinate(left - 5), y },
                color: theme.y_label_text_color,
                text_size: theme.y_label_text_size,
                horizontal_alignment: HorizontalAlignment::Right,
                vertical_alignment: VerticalAlignment::Center,
            },
        );
        assert(drawn(frame@) =~= drawn(old(frame)@) + y_label_commands(
            self@.settings.theme,
            frame_width,
            padded_area,
            y,
            text@,
        ));
    }

    /// Puts a label of the x axis into the frame, in column `x`.
    pub fn draw_x_label(
        &self,
        frame: &mut Vec<DrawCommand>,
        frame_height: u16,
        padded_area: Rectangle,
        x: i32,
        text: String,
    )
        ensures
            drawn(final(frame)@) == drawn(old(frame)@) + x_label_commands(
                self@.settings.theme,
                frame_height,
                padded_area,
                x,
                text@,
            ),
    {
        let theme = &self.settings.theme;
        let base: i64 = frame_height as i64 - padded_area.y as i64;
        emit(
            frame,
            DrawCommand::StrokeLine {
                from: Point { x, y: to_coordinate(base - 3) },
                to: Point { x, y: to_coordinate(base + 3) },
                color: theme.x_label_short_line_color,
                width: theme.x_label_short_line_width,
            },
        );
        emit(
            frame,
            DrawCommand::StrokeLine {
                from: Point { x, y: padded_area.y },
                to: Point { x, y: to_coordinate(base) },
                color: theme.x_label_long_line_color,
                width: theme.x_label_long_line_width,
            },
        );
        emit(
            frame,
            DrawCommand::FillText {
                content: text,
                position: Point { x, y: to_coordinate(base + 5) },
                color: theme.x_label_text_color,
                text_size: theme.x_label_text_size,
                horizontal_alignment: HorizontalAlignment::Center,
                vertical_alignment: VerticalAlignment::Top,
            },
        );
        assert(drawn(frame@) =~= drawn(old(frame)@) + x_label_commands(
            self@.settings.theme,
            frame_height,
            padded_area,
            x,
            text@,
        ));
    }

    /// Puts the custom labels of the y axis into the frame.
    fn draw_custom_y_axis(&self, frame: &mut Vec<DrawCommand>, size: Size, areas: Layout)
        ensures
            drawn(final(frame)@) == drawn(old(frame)@) + self@.custom_y_commands(
                size,
                areas,
                self@.custom_y_labels,
            ),
    {
        proof {
            use_type_invariant(self);
        }
        let labels = &self.custom_y_labels;
        let mut i: usize = 0;
        while i < labels.len()
            invariant
                i <= labels.len(),
                labels == &self.custom_y_labels,
                self.well_formed(),
                drawn(frame@) == drawn(old(frame)@) + self@.custom_y_commands(
                    size,
                    areas,
                    labels@.take(i as int),
                ),
            decreases labels.len() - i,
        {
            let value = &labels[i].0;
            proof {
                assert(labels@.take(i + 1).drop_last() =~= labels@.take(i as int));
                assert(labels@.take(i + 1).last() == labels[i as int]);
            }
            let inside = match (self.min_y_value.compare_value(value), value.compare_value(
                &self.max_y_value,
            )) {
                (Order::Less, Order::Less) => true,
                _ => false,
            };
            if inside {
                let distance = self.min_y_value.distance_to(value);
                let offset = project(distance, self.total_y_distance, areas.margined.height);
                if 0 < offset && offset < areas.margined.height as u128 {
                    let text = match &labels[i].1 {
                        Some(own) => own.clone(),
                        None => YD::display_value(value),
                    };
                    let y = to_coordinate(
                        areas.margined.y as i64 + areas.margined.height as i64 - offset as i64,
                    );
                    self.draw_y_label(frame, size.width, areas.padded, y, text);
                }
            }
            assert(drawn(frame@) =~= drawn(old(frame)@) + self@.custom_y_commands(
                size,
                areas,
                labels@.take(i + 1),
            ));
            i = i + 1;
        }
        assert(labels@.take(i as int) =~= labels@);
    }

    /// Puts the custom labels of the x axis into the frame.
    fn draw_custom_x_axis(&self, frame: &mut Vec<DrawCommand>, size: Size, areas: Layout)
        ensures
            drawn(final(frame)@) == drawn(old(frame)@) + self@.custom_x_commands(
                size,
                areas,
                self@.custom_x_labels,
            ),
    {
        proof {
            use_type_invariant(self);
        }
        let labels = &self.custom_x_labels;
        let mut i: usize = 0;
        while i < labels.len()
            invariant
                i <= labels.len(),
                labels == &self.custom_x_labels,
                self.well_formed(),
                drawn(frame@) == drawn(old(frame)@) + self@.custom_x_commands(
                    size,
                    areas,
                    labels@.take(i as int),
                ),
            decreases labels.len() - i,
        {
            let value = &labels[i].0;
            proof {
                assert(labels@.take(i + 1).drop_last() =~= labels@.take(i as int));
                assert(labels@.take(i + 1).last() == labels[i as int]);
            }
            let inside = match (self.min_x_value.compare_value(value), value.compare_value(
                &self.max_x_value,
            )) {
                (Order::Less, Order::Less) => true,
                _ => false,
            };
            if inside {
                let distance = self.min_x_value.distance_to(value);
                let offset = project(distance, self.total_x_distance, areas.margined.width);
                if 0 < offset && offset < areas.margined.width as u128 {
                    let text = match &labels[i].1 {
                        Some(own) => own.clone(),
                        None => XD::display_value(value),
                    };
                    let x = to_coordinate(areas.margined.x as i64 + offset as i64);
                    self.draw_x_label(frame, size.height, areas.padded, x, text);
                }
            }
            assert(drawn(frame@) =~= drawn(old(frame)@) + self@.custom_x_commands(
                size,
                areas,
                labels@.take(i + 1),
            ));
            i = i + 1;
        }
        assert(labels@.take(i as int) =~= labels@);
    }

    /// Puts the labels of the y axis into the frame.
    fn draw_y_axis(&self, frame: &mut Vec<DrawCommand>, size: Size, areas: Layout)
        ensures
            drawn(final(frame)@) == drawn(old(frame)@) + self@.y_axis_commands(
                size,
                areas,
                self@.y_labels(areas),
            ),
    {
        proof {
            use_type_invariant(self);
        }
        let min_pixels = self.settings.min_y_label_distance.get(areas.margined.size());
        let distances = spacing(min_pixels, areas.margined.height, self.total_y_distance);
        let labels = axis_labels(&self.min_y_value, &self.max_y_value, distances);
        let mut i: usize = 0;
        while i < labels.len()
            invariant
                i <= labels.len(),
                self.well_formed(),
                forall|k: int|
                    0 <= k < labels.len() ==> self.min_y_value.position() <= (
                    #[trigger] labels[k]).position() <= self.max_y_value.position(),
                drawn(frame@) == drawn(old(frame)@) + self@.y_axis_commands(
                    size,
                    areas,
                    labels@.take(i as int),
                ),
            decreases labels.len() - i,
        {
            let text = YD::display_value(&labels[i]);
            let distance = self.min_y_value.distance_to(&labels[i]);
            let offset = project(distance, self.total_y_distance, areas.margined.height);
            let y = to_coordinate(
                areas.margined.y as i64 + areas.margined.height as i64 - offset as i64,
            );
            self.draw_y_label(frame, size.width, areas.padded, y, text);
            proof {
                assert(labels@.take(i + 1).drop_last() =~= labels@.take(i as int));
                assert(labels@.take(i + 1).last() == labels[i as int]);
                let added = y_label_commands(
                    self@.settings.theme,
                    size.width,
                    areas.padded,
                    y,
                    text@,
                );
                assert(drawn(frame@) =~= drawn(old(frame)@) + (self@.y_axis_commands(
                    size,
                    areas,
                    labels@.take(i as int),
                ) + added));
            }
            i = i + 1;
        }
        assert(labels@.take(i as int) =~= labels@);
    }

    /// Puts the labels of the x axis into the frame.
    fn draw_x_axis(&self, frame: &mut Vec<DrawCommand>, size: Size, areas: Layout)
        ensures
            drawn(final(frame)@) == drawn(old(frame)@) + self@.x_axis_commands(
                size,
                areas,
                self@.x_labels(areas),
            ),
    {
        proof {
            use_type_invariant(self);
        }
        let min_pixels = self.settings.min_x_label_distance.get(areas.margined.size());
        let distances = spacing(min_pixels, areas.margined.width, self.total_x_distance);
        let labels = axis_labels(&self.min_x_value, &self.max_x_value, distances);
        let mut i: usize = 0;
        while i < labels.len()
            invariant
                i <= labels.len(),
                self.well_formed(),
                forall|k: int|
                    0 <= k < labels.len() ==> self.min_x_value.position() <= (
                    #[trigger] labels[k]).position() <= self.max_x_value.position(),
                drawn(frame@) == drawn(old(frame)@) + self@.x_axis_commands(
                    size,
                    areas,
                    labels@.take(i as int),
                ),
            decreases labels.len() - i,
        {
            let text = XD::display_value(&labels[i]);
            let distance = self.min_x_value.distance_to(&labels[i]);
            let offset = project(distance, self.total_x_distance, areas.margined.width);
            let x = to_coordinate(areas.margined.x as i64 + offset as i64);
            self.draw_x_label(frame, size.height, areas.padded, x, text);
            proof {
                assert(labels@.take(i + 1).drop_last() =~= labels@.take(i as int));
                assert(labels@.take(i + 1).last() == labels[i as int]);
                let added = x_label_commands(
                    self@.settings.theme,
                    size.height,
                    areas.padded,
                    x,
                    text@,
                );
                assert(drawn(frame@) =~= drawn(old(frame)@) + (self@.x_axis_commands(
                    size,
                    areas,
                    labels@.take(i as int),
                ) + added));
            }
            i = i + 1;
        }
        assert(labels@.take(i as int) =~= labels@);
    }

    /// Puts the description of the selected point into the frame.
    fn draw_description(&self, frame: &mut Vec<DrawCommand>, areas: Layout, selection: Selection)
        requires
            selection.point matches Some(hit) ==> hit.series < self@.data.len() && hit.index
                < self@.data[hit.series as int].1.len(),
        ensures
            drawn(final(frame)@) == drawn(old(frame)@) + self@.description_commands(
                areas,
                selection,
            ),
    {
        if let Some(hit) = selection.point {
            let datum = &self.data[hit.series].1[hit.index];
            let mut content = datum.0.description();
            proof {
                reveal_strlit("\n");
            }
            content.append("\n");
            let second = datum.1.description();
            content.append(second.as_str());
            assert(content@ =~= self@.description_of(hit.series as int, hit.index as int));
            emit(
                frame,
                DrawCommand::FillText {
                    content,
                    position: Point {
                        x: to_coordinate(areas.padded.width as i64 + areas.padding_left as i64),
                        y: to_coordinate((areas.padding_top / 2) as i64),
                    },
                    color: self.settings.theme.title_color,
                    text_size: 16,
                    horizontal_alignment: HorizontalAlignment::Right,
                    vertical_alignment: VerticalAlignment::Center,
                },
            );
        }
        assert(drawn(frame@) =~= drawn(old(frame)@) + self@.description_commands(areas, selection));
    }

    /// The whole drawing of the chart on a canvas at `bounds`, made anew.
    pub fn render(&self, bounds: Rectangle, cursor: Cursor) -> (commands: Vec<DrawCommand>)
        ensures
            drawn(commands@) == self@.scene(bounds, cursor),
    {
        let size = bounds.size();
        let areas = layout(&self.settings, size);
        let mut frame: Vec<DrawCommand> = Vec::new();
        assert(drawn(frame@) =~= Seq::empty());
        draw_backgrounds(&mut frame, &self.settings.theme, areas);
        draw_title(&mut frame, &self.settings, areas);
        self.draw_custom_y_axis(&mut frame, size, areas);
        self.draw_y_axis(&mut frame, size, areas);
        self.draw_custom_x_axis(&mut frame, size, areas);
        self.draw_x_axis(&mut frame, size, areas);
        let points = self.points(areas.margined.size());
        let at = locate_cursor(cursor, bounds, areas.margined);
        let selection = select(&points, at);
        proof {
            if let Some(hit) = selection.point {
                assert(crate::chart::line::hit::has_entry(
                    crate::chart::line::hit::point_distances(plots(points@), at.unwrap()),
                    hit.series as int,
                    hit.index as int,
                ));
            }
        }
        self.draw_description(&mut frame, areas, selection);
        emit(&mut frame, DrawCommand::Save);
        emit(&mut frame, DrawCommand::Translate { x: areas.margined.x, y: areas.margined.y });
        let ghost base = drawn(frame@);
        let mut s: usize = 0;
        while s < self.data.len()
            invariant
                s <= self.data.len(),
                points.len() == self.data.len(),
                drawn(frame@) == base + self@.plots_commands(plots(points@), selection, s as int),
            decreases self.data.len() - s,
        {
            draw_plot(&mut frame, &self.data[s].0, &points[s], s, selection);
            assert(drawn(frame@) =~= base + self@.plots_commands(
                plots(points@),
                selection,
                s + 1,
            ));
            s = s + 1;
        }
        emit(&mut frame, DrawCommand::Restore);
        assert(drawn(frame@) =~= self@.scene(bounds, cursor));
        frame
    }

    /// Draws the chart on a canvas at `bounds`, unless the drawing made
    /// last was made for a canvas of the same size and still holds.
    pub fn draw(&mut self, bounds: Rectangle, cursor: Cursor) -> (drawing: Drawing)
        ensures
            final(self)@ == (ChartView {
                drawn_for: Some(Size { width: bounds.width, height: bounds.height }),
                ..old(self)@
            }),
            match drawing {
                Drawing::Reused => old(self)@.drawn_for == Some(
                    Size { width: bounds.width, height: bounds.height },
                ),
                Drawing::Redrawn(commands) => old(self)@.drawn_for != Some(
                    Size { width: bounds.width, height: bounds.height },
                ) && drawn(commands@) == old(self)@.scene(bounds, cursor),
            },
    {
        proof {
            use_type_invariant(&*self);
        }
        let size = bounds.size();
        if let Some(held) = self.cache {
            if held.width == size.width && held.height == size.height {
                return Drawing::Reused;
            }
        }
        let commands = self.render(bounds, cursor);
        self.cache = Some(size);
        Drawing::Redrawn(commands)
    }

    /// Takes an event from the host. A move of the pointer makes the
    /// drawing made last void; nothing else concerns the chart.
    pub fn update(&mut self, event: Event, _bounds: Rectangle, _cursor: Cursor) -> (answer: (
        Status,
        Option<Message>,
    ))
        ensures
            answer.1.is_none(),
            match event {
                Event::CursorMoved { .. } => answer.0 == Status::Captured && final(self)@ == (
                ChartView { drawn_for: None, ..old(self)@ }),
                Event::Other => answer.0 == Status::Ignored && final(self)@ == old(self)@,
            },
    {
        proof {
            use_type_invariant(&*self);
        }
        match event {
            Event::CursorMoved { .. } => {
                self.cache = None;
                (Status::Captured, None)
            },
            Event::Other => (Status::Ignored, None),
        }
    }

    /// The look of the pointer: a hand where it is over something that it
    /// could select, which is where a drawing would show a plot selected.
    pub fn mouse_interaction(&self, bounds: Rectangle, cursor: Cursor) -> (look: Interaction)
        ensures
            look == if self@.hovered(bounds, cursor) {
                Interaction::Pointer
            } else {
                Interaction::Idle
            },
            self@.hovered(bounds, cursor) == self@.selection(bounds, cursor).plot_of().is_some(),
    {
        let size = bounds.size();
        let areas = layout(&self.settings, size);
        match locate_cursor(cursor, bounds, areas.margined) {
            Some(at) => {
                let points = self.points(areas.margined.size());
                if is_over_anything(&points, at) {
                    Interaction::Pointer
                } else {
                    Interaction::Idle
                }
            },
            None => {
                proof {
                    let nothing = Selection { point: None, line: None };
                    assert(is_selection(
                        self@.pixels(
                            Size { width: areas.margined.width, height: areas.margined.height },
                        ),
                        None,
                        nothing,
                    ));
                }
                Interaction::Idle
            },
        }
    }
}

} // verus!

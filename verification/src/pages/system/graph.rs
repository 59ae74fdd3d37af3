//! A graph of up to twenty readings per curve: where its lines and points
//! stand, and what is written along its vertical axis.

use crate::format::{pretty_bytes, pretty_bytes_text};
use crate::message::Sample;
use crate::text::{decimal_spec, push_decimal};
use vstd::prelude::*;

verus! {

/// Horizontal lines of the grid, and so labels along the vertical axis.
pub const GRAPH_Y_LINES: u32 = 11;

/// Vertical lines of the grid, and so readings that a curve can hold.
pub const GRAPH_X_LINES: u32 = 20;

/// Distance between two neighbouring lines of the grid.
pub const LINE_SPACING: u32 = 10;

/// One curve of a graph.
#[derive(Clone, Debug, PartialEq, Eq)]
pub struct GraphSeries {
    /// The readings, each with the number of the vertical line it stands on.
    /// Line 19 is the rightmost.
    pub points: Vec<(u32, Sample)>,
    pub color: &'static str,
    pub label: &'static str,
}

/// What the vertical axis of a graph measures.
#[derive(Clone, Copy, Debug, PartialEq, Eq, Structural)]
pub enum Axis {
    /// Per cent, from 0 to 100.
    Percent,
    /// Degrees Celsius, from 20 to 120.
    Temp,
    /// Bytes, from 1 to ten thousand million, each line ten times the one
    /// below.
    Bytes,
}

/// Ten to the power of `x`.
pub open spec fn pow10(x: nat) -> nat
    decreases x,
{
    if x == 0 {
        1
    } else {
        10 * pow10((x - 1) as nat)
    }
}

/// The label of horizontal line `x`, counted from the bottom.
pub open spec fn label_spec(axis: Axis, x: int) -> Seq<char> {
    match axis {
        Axis::Percent => decimal_spec((10 * x) as nat) + "%"@,
        Axis::Temp => decimal_spec((10 * x + 20) as nat) + "º"@,
        Axis::Bytes => pretty_bytes_text(pow10(x as nat) as u64, Some(0u8)),
    }
}

/// A count of bytes as a graph shows it: in decimal units, rounded to a
/// whole number.
pub fn bytes_text(num: u64) -> (text: String)
    ensures
        text@ == pretty_bytes_text(num, Some(0u8)),
{
    pretty_bytes(num, Some(0u8))
}

proof fn lemma_pow10_grows(x: nat, y: nat)
    requires
        x <= y,
    ensures
        pow10(x) <= pow10(y),
        pow10(x) >= 1,
    decreases y,
{
    if x < y {
        lemma_pow10_grows(x, (y - 1) as nat);
    } else if x > 0 {
        lemma_pow10_grows((x - 1) as nat, (x - 1) as nat);
    }
}

impl Axis {
    /// The labels along the vertical axis, from the bottom up.
    pub fn get_labels(self) -> (labels: Vec<String>)
        ensures
            labels@.len() == GRAPH_Y_LINES,
            forall|x: int| 0 <= x < GRAPH_Y_LINES ==> (#[trigger] labels@[x])@ == label_spec(self, x),
    {
        let mut labels: Vec<String> = Vec::new();
        let mut x: u32 = 0;
        let mut power: u64 = 1;
        assert(pow10(10) == 10_000_000_000) by {
            reveal_with_fuel(pow10, 11);
        }
        while x < GRAPH_Y_LINES
            invariant
                x <= GRAPH_Y_LINES,
                labels@.len() == x,
                power == pow10(x as nat),
                pow10(10) == 10_000_000_000,
                forall|k: int| 0 <= k < x ==> (#[trigger] labels@[k])@ == label_spec(self, k),
            decreases GRAPH_Y_LINES - x,
        {
            let label = match self {
                Axis::Percent => {
                    let mut s = String::new();
                    push_decimal(&mut s, 10 * (x as u64));
                    s.append("%");
                    assert(s@ =~= label_spec(self, x as int));
                    s
                },
                Axis::Temp => {
                    let mut s = String::new();
                    push_decimal(&mut s, 10 * (x as u64) + 20);
                    s.append("º");
                    assert(s@ =~= label_spec(self, x as int));
                    s
                },
                Axis::Bytes => bytes_text(power),
            };
            labels.push(label);
            proof {
                lemma_pow10_grows(x as nat, 10);
            }
            power = power * 10;
            x += 1;
        }
        labels
    }
}

/// Where a run of readings stands in a graph: the first on the rightmost
/// vertical line, each later one a line further left, and no more of them
/// than there are lines.
pub open spec fn plotted(points: Seq<Sample>) -> Seq<(u32, Sample)> {
    Seq::new(
        if points.len() < GRAPH_X_LINES {
            points.len()
        } else {
            GRAPH_X_LINES as nat
        },
        |i: int| ((GRAPH_X_LINES - 1 - i) as u32, points[i]),
    )
}

/// A graph.
#[derive(Clone, Debug, PartialEq, Eq)]
pub struct SvgGraph {
    pub series: Vec<GraphSeries>,
    pub axis: Axis,
}

impl SvgGraph {
    /// A graph with no curve.
    pub fn new(axis: Axis) -> (graph: SvgGraph)
        ensures
            graph.axis == axis,
            graph.series@.len() == 0,
    {
        SvgGraph { series: Vec::new(), axis }
    }

    /// Adds a curve of these readings, newest first, behind the curves that
    /// the graph has.
    pub fn add_series(&mut self, points: &Vec<Sample>, color: &'static str, label: &'static str)
        ensures
            final(self).axis == old(self).axis,
            final(self).series@.len() == old(self).series@.len() + 1,
            forall|i: int|
                0 <= i < old(self).series@.len() ==> final(self).series@[i] == old(self).series@[i],
            final(self).series@.last().points@ == plotted(points@),
            final(self).series@.last().color == color,
            final(self).series@.last().label == label,
    {
        let mut placed: Vec<(u32, Sample)> = Vec::new();
        let mut i: usize = 0;
        while i < points.len() && i < GRAPH_X_LINES as usize
            invariant
                i <= points@.len(),
                i <= GRAPH_X_LINES,
                placed@.len() == i,
                forall|k: int|
                    0 <= k < i ==> (#[trigger] placed@[k]) == ((GRAPH_X_LINES - 1 - k) as u32, points@[k]),
            decreases points@.len() - i,
        {
            placed.push((GRAPH_X_LINES - 1 - (i as u32), points[i]));
            i += 1;
        }
        assert(placed@ =~= plotted(points@));
        self.series.push(GraphSeries { points: placed, color, label });
    }
}

/// Where the parts of a graph stand, in the units of its drawing.
#[derive(Clone, Copy, Debug, PartialEq, Eq, Structural)]
pub struct Layout {
    pub left_margin: u32,
    pub right_margin: u32,
    pub top_margin: u32,
    pub bottom_margin: u32,
    pub graph_width: u32,
    pub graph_height: u32,
    /// The right edge of the grid.
    pub x_end: u32,
    /// The bottom edge of the grid.
    pub y_end: u32,
    pub total_width: u32,
    pub total_height: u32,
}

/// The layout of every graph: margins of one line spacing, five on the left
/// where the labels stand, around a grid that spans its lines.
pub open spec fn layout_spec() -> Layout {
    Layout {
        left_margin: (LINE_SPACING * 5) as u32,
        right_margin: LINE_SPACING,
        top_margin: LINE_SPACING,
        bottom_margin: LINE_SPACING,
        graph_width: (LINE_SPACING * (GRAPH_X_LINES - 1)) as u32,
        graph_height: (LINE_SPACING * (GRAPH_Y_LINES - 1)) as u32,
        x_end: (LINE_SPACING * 5 + LINE_SPACING * (GRAPH_X_LINES - 1)) as u32,
        y_end: (LINE_SPACING + LINE_SPACING * (GRAPH_Y_LINES - 1)) as u32,
        total_width: (LINE_SPACING * 5 + LINE_SPACING * (GRAPH_X_LINES - 1) + LINE_SPACING) as u32,
        total_height: (LINE_SPACING + LINE_SPACING * (GRAPH_Y_LINES - 1) + LINE_SPACING) as u32,
    }
}

/// The layout of every graph.
pub fn layout() -> (l: Layout)
    ensures
        l == layout_spec(),
        l.left_margin == 50 && l.graph_width == 190 && l.graph_height == 100,
        l.x_end == 240 && l.y_end == 110 && l.total_width == 250 && l.total_height == 120,
{
    let left_margin = LINE_SPACING * 5;
    let graph_width = LINE_SPACING * (GRAPH_X_LINES - 1);
    let graph_height = LINE_SPACING * (GRAPH_Y_LINES - 1);
    Layout {
        left_margin,
        right_margin: LINE_SPACING,
        top_margin: LINE_SPACING,
        bottom_margin: LINE_SPACING,
        graph_width,
        graph_height,
        x_end: left_margin + graph_width,
        y_end: LINE_SPACING + graph_height,
        total_width: left_margin + graph_width + LINE_SPACING,
        total_height: LINE_SPACING + graph_height + LINE_SPACING,
    }
}

/// The height at which each horizontal line is drawn, from the bottom line
/// up.
pub fn label_heights() -> (ys: Vec<u32>)
    ensures
        ys@.len() == GRAPH_Y_LINES,
        forall|i: int| 0 <= i < GRAPH_Y_LINES ==> (#[trigger] ys@[i]) == layout_spec().y_end - i
            * LINE_SPACING,
{
    let y_end = layout().y_end;
    let mut ys: Vec<u32> = Vec::new();
    let mut i: u32 = 0;
    while i < GRAPH_Y_LINES
        invariant
            i <= GRAPH_Y_LINES,
            y_end == layout_spec().y_end,
            ys@.len() == i,
            forall|k: int| 0 <= k < i ==> (#[trigger] ys@[k]) == layout_spec().y_end - k * LINE_SPACING,
        decreases GRAPH_Y_LINES - i,
    {
        ys.push(y_end - i * LINE_SPACING);
        i += 1;
    }
    ys
}

/// Where vertical line `x` is drawn, counted from the left edge of the
/// drawing. A reading on line `x` is drawn there too.
pub fn line_x(x: u32) -> (at: u64)
    ensures
        at == layout_spec().left_margin + LINE_SPACING * x,
{
    let left = layout().left_margin as u64;
    assert(LINE_SPACING == 10);
    left + 10 * (x as u64)
}

/// How the curve with this index is dashed: curves take turns between a
/// solid line and a dashed one, so that two of them can be told apart.
pub fn dash(series_idx: usize) -> (pattern: &'static str)
    ensures
        series_idx % 2 == 0 ==> pattern@ == "none"@,
        series_idx % 2 != 0 ==> pattern@ == "5 4"@,
{
    if series_idx % 2 == 0 {
        "none"
    } else {
        "5 4"
    }
}

} // verus!

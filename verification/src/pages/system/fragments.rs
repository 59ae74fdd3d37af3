//! The parts of the system page.

use crate::format::{pretty_bytes, pretty_bytes_binary, pretty_bytes_binary_text, pretty_bytes_text};
use crate::message::{CpuUsage, DiskInfo, MemUsage, Sample, Temperature};
use crate::pages::system::graph::{plotted, Axis, SvgGraph, GRAPH_X_LINES};
use vstd::prelude::*;

verus! {

/// The readings that a graph shows once `latest` has been taken: `latest`,
/// then those of the past, and of all these the first twenty.
pub open spec fn window_spec(latest: Sample, history: Seq<Sample>) -> Seq<Sample> {
    if history.len() < GRAPH_X_LINES {
        seq![latest] + history
    } else {
        seq![latest] + history.take(GRAPH_X_LINES - 1)
    }
}

/// The readings that a graph shows once `latest` has been taken.
pub fn push_sample(latest: Sample, history: &Vec<Sample>) -> (window: Vec<Sample>)
    ensures
        window@ == window_spec(latest, history@),
{
    let mut window: Vec<Sample> = Vec::new();
    window.push(latest);
    let mut i: usize = 0;
    while i < history.len() && i < (GRAPH_X_LINES - 1) as usize
        invariant
            i <= history@.len(),
            i <= GRAPH_X_LINES - 1,
            window@ == seq![latest] + history@.take(i as int),
        decreases history@.len() - i,
    {
        window.push(history[i]);
        i += 1;
        assert(window@ =~= seq![latest] + history@.take(i as int));
    }
    assert(history@.take(history@.len() as int) =~= history@);
    window
}

/// A graph with one curve of the readings in `window`.
fn single(axis: Axis, window: &Vec<Sample>, color: &'static str, label: &'static str) -> (graph:
    SvgGraph)
    ensures
        graph.axis == axis,
        graph.series@.len() == 1,
        graph.series@[0].points@ == plotted(window@),
        graph.series@[0].color == color,
        graph.series@[0].label == label,
{
    let mut graph = SvgGraph::new(axis);
    graph.add_series(window, color, label);
    graph
}

/// A graph with two curves, of the readings in `first` and in `second`.
fn double(
    axis: Axis,
    first: &Vec<Sample>,
    first_label: &'static str,
    second: &Vec<Sample>,
    second_label: &'static str,
) -> (graph: SvgGraph)
    ensures
        graph.axis == axis,
        graph.series@.len() == 2,
        graph.series@[0].points@ == plotted(first@),
        graph.series@[0].color@ == "var(--gray-12)"@,
        graph.series@[0].label == first_label,
        graph.series@[1].points@ == plotted(second@),
        graph.series@[1].color@ == "var(--red-6)"@,
        graph.series@[1].label == second_label,
{
    let mut graph = SvgGraph::new(axis);
    graph.add_series(first, "var(--gray-12)", first_label);
    graph.add_series(second, "var(--red-6)", second_label);
    graph
}

/// The graph of processor load. `points` holds the readings of the past and
/// is left holding those that the graph shows.
pub fn cpu_graph(data: &CpuUsage, points: &mut Vec<Sample>) -> (graph: SvgGraph)
    ensures
        final(points)@ == window_spec(data.global_cpu, old(points)@),
        graph.axis == Axis::Percent,
        graph.series@.len() == 1,
        graph.series@[0].points@ == plotted(final(points)@),
        graph.series@[0].color@ == "var(--gray-12)"@,
        graph.series@[0].label@ == "CPU"@,
{
    let window = push_sample(data.global_cpu, points);
    let graph = single(Axis::Percent, &window, "var(--gray-12)", "CPU");
    *points = window;
    graph
}

/// The graph of processor temperature, where the device measures one.
/// `points` holds the readings of the past and is left holding those that
/// the graph shows; without a graph it is left as it was.
pub fn temp_graph(data: &Temperature, points: &mut Vec<Sample>) -> (graph: Option<SvgGraph>)
    ensures
        graph is Some == data.temp is Some,
        data.temp is None ==> final(points)@ == old(points)@,
        data.temp matches Some(temp) ==> final(points)@ == window_spec(temp, old(points)@),
        graph matches Some(g) ==> {
            &&& g.axis == Axis::Temp
            &&& g.series@.len() == 1
            &&& g.series@[0].points@ == plotted(final(points)@)
            &&& g.series@[0].color@ == "var(--red-6)"@
            &&& g.series@[0].label@ == "Temperature"@
        },
{
    match data.temp {
        Some(temp) => {
            let window = push_sample(temp, points);
            let graph = single(Axis::Temp, &window, "var(--red-6)", "Temperature");
            *points = window;
            Some(graph)
        },
        None => None,
    }
}

/// The graph of memory in use, given the share of memory and of swap space
/// that is in use now, in per cent. `ram_points` and `swap_points` hold the
/// readings of the past and are left holding those that the graph shows.
pub fn mem_graph(
    ram_percent: Sample,
    swap_percent: Sample,
    ram_points: &mut Vec<Sample>,
    swap_points: &mut Vec<Sample>,
) -> (graph: SvgGraph)
    ensures
        final(ram_points)@ == window_spec(ram_percent, old(ram_points)@),
        final(swap_points)@ == window_spec(swap_percent, old(swap_points)@),
        graph.axis == Axis::Percent,
        graph.series@.len() == 2,
        graph.series@[0].points@ == plotted(final(ram_points)@),
        graph.series@[0].color@ == "var(--gray-12)"@,
        graph.series@[0].label@ == "RAM"@,
        graph.series@[1].points@ == plotted(final(swap_points)@),
        graph.series@[1].color@ == "var(--red-6)"@,
        graph.series@[1].label@ == "Swap"@,
{
    let ram = push_sample(ram_percent, ram_points);
    let swap = push_sample(swap_percent, swap_points);
    let graph = double(Axis::Percent, &ram, "RAM", &swap, "Swap");
    *ram_points = ram;
    *swap_points = swap;
    graph
}

/// The graph of network traffic, given the bytes sent and received since the
/// last reading. `sent_points` and `recv_points` hold the readings of the
/// past and are left holding those that the graph shows.
pub fn net_graph(
    sent: Sample,
    recv: Sample,
    sent_points: &mut Vec<Sample>,
    recv_points: &mut Vec<Sample>,
) -> (graph: SvgGraph)
    ensures
        final(sent_points)@ == window_spec(sent, old(sent_points)@),
        final(recv_points)@ == window_spec(recv, old(recv_points)@),
        graph.axis == Axis::Bytes,
        graph.series@.len() == 2,
        graph.series@[0].points@ == plotted(final(sent_points)@),
        graph.series@[0].color@ == "var(--gray-12)"@,
        graph.series@[0].label@ == "Sent"@,
        graph.series@[1].points@ == plotted(final(recv_points)@),
        graph.series@[1].color@ == "var(--red-6)"@,
        graph.series@[1].label@ == "Received"@,
{
    let sent_window = push_sample(sent, sent_points);
    let recv_window = push_sample(recv, recv_points);
    let graph = double(Axis::Bytes, &sent_window, "Sent", &recv_window, "Received");
    *sent_points = sent_window;
    *recv_points = recv_window;
    graph
}

/// The texts of the memory meters.
#[derive(Clone, Debug, PartialEq, Eq)]
pub struct MemMeters {
    pub ram_used: String,
    pub ram_total: String,
    pub swap_used: String,
    pub swap_total: String,
}

/// The texts of the memory meters: each amount in binary units, rounded to
/// two decimal places.
pub fn mem_meters(data: &MemUsage) -> (meters: MemMeters)
    ensures
        meters.ram_used@ == pretty_bytes_binary_text(data.ram.used, Some(2u8)),
        meters.ram_total@ == pretty_bytes_binary_text(data.ram.total, Some(2u8)),
        meters.swap_used@ == pretty_bytes_binary_text(data.swap.used, Some(2u8)),
        meters.swap_total@ == pretty_bytes_binary_text(data.swap.total, Some(2u8)),
{
    MemMeters {
        ram_used: pretty_bytes_binary(data.ram.used, Some(2u8)),
        ram_total: pretty_bytes_binary(data.ram.total, Some(2u8)),
        swap_used: pretty_bytes_binary(data.swap.used, Some(2u8)),
        swap_total: pretty_bytes_binary(data.swap.total, Some(2u8)),
    }
}

/// The texts of the meter of one disk.
#[derive(Clone, Debug, PartialEq, Eq)]
pub struct DiskMeter {
    pub used: String,
    pub total: String,
}

/// The texts of the disk meters, one for each disk, in order: each amount in
/// decimal units, rounded to two decimal places.
pub fn disk_meters(disks: &Vec<DiskInfo>) -> (meters: Vec<DiskMeter>)
    ensures
        meters@.len() == disks@.len(),
        forall|i: int|
            0 <= i < disks@.len() ==> (#[trigger] meters@[i]).used@ == pretty_bytes_text(
                disks@[i].usage.used,
                Some(2u8),
            ) && meters@[i].total@ == pretty_bytes_text(disks@[i].usage.total, Some(2u8)),
{
    let mut meters: Vec<DiskMeter> = Vec::new();
    let mut i: usize = 0;
    while i < disks.len()
        invariant
            i <= disks@.len(),
            meters@.len() == i,
            forall|k: int|
                0 <= k < i ==> (#[trigger] meters@[k]).used@ == pretty_bytes_text(
                    disks@[k].usage.used,
                    Some(2u8),
                ) && meters@[k].total@ == pretty_bytes_text(disks@[k].usage.total, Some(2u8)),
        decreases disks@.len() - i,
    {
        meters.push(
            DiskMeter {
                used: pretty_bytes(disks[i].usage.used, Some(2u8)),
                total: pretty_bytes(disks[i].usage.total, Some(2u8)),
            },
        );
        i += 1;
    }
    meters
}

} // verus!

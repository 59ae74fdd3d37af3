use dashboard_core::http::request::{
    BackendData, CurrentBackendData, FrontendConfig, ServerRequest,
};
use dashboard_core::http::response::{Header, ServerResponse, Status};
use dashboard_core::message::{
    Action, CommandAction, CpuUsage, DiskInfo, HostInfo, MemUsage, ProcessInfo, ProcessStatus,
    Sample, ServiceInfo, ServiceStatus, Signal, SoftwareInfo, Temperature, Usage,
};
use dashboard_core::pages::management::{config_path_failed, config_read_failed, host_rows, host_table};
use dashboard_core::pages::process::{
    arrange, precedes, status_name, table_header, table_headers, toggle_signal, memory_text,
    ColumnSort, ProcessQuery,
};
use dashboard_core::pages::service::{has_log, status_badge};
use dashboard_core::pages::software::{form, is_link, SoftwareAction};
use dashboard_core::pages::system::fragments::{
    cpu_graph, disk_meters, mem_graph, mem_meters, net_graph, push_sample, temp_graph,
};
use dashboard_core::pages::system::graph::{
    bytes_text, dash, label_heights, layout, line_x, Axis, SvgGraph, GRAPH_X_LINES, GRAPH_Y_LINES,
    LINE_SPACING,
};
use dashboard_core::pages::system::SystemQuery;
use dashboard_core::pages::template::{backend_options, current_page, nav, Icon, Page};
use dashboard_core::pages::terminal::{
    resize, resize_answer, stream, stream_answer, write_answer, write_failed, WriteStep,
};
use dashboard_core::registry::Address;
use dashboard_core::terminal::Geometry;

fn sample(x: f32) -> Sample {
    Sample { bits: x.to_bits() }
}

fn samples(xs: &[f32]) -> Vec<Sample> {
    xs.iter().map(|x| sample(*x)).collect()
}

fn process(pid: u32, name: &str, status: ProcessStatus, cpu: f32, mem: u64) -> ProcessInfo {
    ProcessInfo { pid, name: name.to_string(), status, cpu: sample(cpu), mem }
}

fn pids(rows: &[ProcessInfo]) -> Vec<u32> {
    rows.iter().map(|p| p.pid).collect()
}

fn some_processes() -> Vec<ProcessInfo> {
    vec![
        process(30, "sshd", ProcessStatus::Sleeping, 0.5, 4096),
        process(10, "init", ProcessStatus::Running, 0.0, 1024),
        process(20, "bash", ProcessStatus::Paused, 12.5, 8192),
        process(40, "Xorg", ProcessStatus::Other, -0.0, 1024),
        process(50, "bash", ProcessStatus::Running, 99.0, 2048),
    ]
}

fn request(path: &str) -> ServerRequest<()> {
    ServerRequest::new(
        path.as_bytes().to_vec(),
        b"",
        false,
        FrontendConfig { enable_login: false },
        (),
    )
}

#[test]
fn icon_defaults_to_size_24() {
    let icon = Icon::new("fa6-solid-bars");
    assert_eq!(icon.name, "fa6-solid-bars");
    assert_eq!(icon.size, 24);
    let icon = icon.size(30);
    assert_eq!(icon.name, "fa6-solid-bars");
    assert_eq!(icon.size, 30);
    assert_eq!(icon.href(), "/static/icons.svg#fa6-solid-bars");
}

#[test]
fn current_page_is_the_first_segment() {
    assert_eq!(current_page(&request("/")), Some(Page::System));
    assert_eq!(current_page(&request("")), Some(Page::System));
    assert_eq!(current_page(&request("/system")), Some(Page::System));
    assert_eq!(current_page(&request("/process/signal")), Some(Page::Process));
    assert_eq!(current_page(&request("/software")), Some(Page::Software));
    assert_eq!(current_page(&request("/service")), Some(Page::Service));
    assert_eq!(current_page(&request("/management")), Some(Page::Management));
    assert_eq!(current_page(&request("//terminal/stream")), Some(Page::Terminal));
    assert_eq!(current_page(&request("/browser")), Some(Page::Browser));
    assert_eq!(current_page(&request("/login")), None);
    assert_eq!(current_page(&request("/systems")), None);
    assert_eq!(current_page(&request("/syste")), None);
}

#[test]
fn nav_marks_exactly_the_current_page() {
    let entries = nav(&request("/service"));
    let pages: Vec<Page> = entries.iter().map(|e| e.page).collect();
    assert_eq!(
        pages,
        vec![
            Page::System,
            Page::Process,
            Page::Software,
            Page::Service,
            Page::Management,
            Page::Terminal,
            Page::Browser
        ]
    );
    let active: Vec<Page> = entries.iter().filter(|e| e.active).map(|e| e.page).collect();
    assert_eq!(active, vec![Page::Service]);
    assert!(nav(&request("/login")).iter().all(|e| !e.active));
    assert!(nav(&request("/"))[0].active);
}

#[test]
fn pages_know_their_link_and_label() {
    assert_eq!(Page::System.slug(), "system");
    assert_eq!(Page::Process.href(), "/process");
    assert_eq!(Page::Process.label(), "Processes");
    assert_eq!(Page::Browser.label(), "File Browser");
    assert_eq!(Page::Browser.i18n_key(), "nav_file_browser");
    assert_eq!(Page::Terminal.icon(), Icon { name: "fa6-solid-terminal", size: 24 });
    assert_eq!(Page::Management.icon().name, "fa6-solid-user");
}

#[test]
fn backend_options_mark_the_current_device() {
    let data = BackendData {
        backend_list: vec![
            (Address::V4(1), "alpha".to_string()),
            (Address::V4(2), "beta".to_string()),
        ],
        current_backend: CurrentBackendData { addr: Address::V4(2), handle: (), update: None },
    };
    let options = backend_options(&data);
    assert_eq!(options.len(), 2);
    assert_eq!(options[0].address, Address::V4(1));
    assert_eq!(options[0].nickname, "alpha");
    assert!(!options[0].selected);
    assert_eq!(options[1].nickname, "beta");
    assert!(options[1].selected);
}

#[test]
fn column_words_are_lowercase() {
    assert_eq!(ColumnSort::Pid.name(), "pid");
    assert_eq!(ColumnSort::Name.name(), "name");
    assert_eq!(ColumnSort::Status.name(), "status");
    assert_eq!(ColumnSort::Cpu.name(), "cpu");
    assert_eq!(ColumnSort::Ram.name(), "ram");
    assert_eq!(ColumnSort::Cpu.heading(), "CPU Usage");
    assert_eq!(ColumnSort::default(), ColumnSort::Pid);
    assert_eq!(ProcessQuery::default(), ProcessQuery { sort: ColumnSort::Pid, reverse: false });
}

#[test]
fn header_of_sorted_column_toggles_direction() {
    let query = ProcessQuery { sort: ColumnSort::Cpu, reverse: false };
    let cell = table_header("CPU Usage", ColumnSort::Cpu, &query);
    assert_eq!(cell.label, "CPU Usage");
    assert_eq!(cell.sort, ColumnSort::Cpu);
    assert!(cell.reverse);
    assert_eq!(cell.arrow, Some(Icon { name: "fa6-solid-sort-up", size: 24 }));

    let query = ProcessQuery { sort: ColumnSort::Cpu, reverse: true };
    let cell = table_header("CPU Usage", ColumnSort::Cpu, &query);
    assert!(!cell.reverse);
    assert_eq!(cell.arrow, Some(Icon { name: "fa6-solid-sort-down", size: 24 }));

    let cell = table_header("PID", ColumnSort::Pid, &query);
    assert!(!cell.reverse);
    assert_eq!(cell.arrow, None);
}

#[test]
fn headers_come_in_column_order() {
    let query = ProcessQuery { sort: ColumnSort::Name, reverse: false };
    let cells = table_headers(&query);
    let labels: Vec<&str> = cells.iter().map(|c| c.label).collect();
    assert_eq!(labels, vec!["PID", "Name", "Status", "CPU Usage", "RAM Usage"]);
    let reversed: Vec<bool> = cells.iter().map(|c| c.reverse).collect();
    assert_eq!(reversed, vec![false, true, false, false, false]);
    assert_eq!(cells.iter().filter(|c| c.arrow.is_some()).count(), 1);
}

#[test]
fn processes_sort_by_each_column() {
    let q = |sort, reverse| ProcessQuery { sort, reverse };
    assert_eq!(pids(&arrange(some_processes(), &q(ColumnSort::Pid, false))), vec![10, 20, 30, 40, 50]);
    assert_eq!(pids(&arrange(some_processes(), &q(ColumnSort::Pid, true))), vec![50, 40, 30, 20, 10]);
    assert_eq!(pids(&arrange(some_processes(), &q(ColumnSort::Name, false))), vec![40, 20, 50, 10, 30]);
    assert_eq!(pids(&arrange(some_processes(), &q(ColumnSort::Name, true))), vec![30, 10, 50, 20, 40]);
    assert_eq!(pids(&arrange(some_processes(), &q(ColumnSort::Status, false))), vec![10, 50, 20, 30, 40]);
    assert_eq!(pids(&arrange(some_processes(), &q(ColumnSort::Cpu, false))), vec![40, 10, 30, 20, 50]);
    assert_eq!(pids(&arrange(some_processes(), &q(ColumnSort::Ram, false))), vec![10, 40, 50, 30, 20]);
    assert_eq!(pids(&arrange(some_processes(), &q(ColumnSort::Ram, true))), vec![20, 30, 50, 40, 10]);
    assert_eq!(arrange(Vec::new(), &q(ColumnSort::Ram, true)), Vec::new());
}

#[test]
fn sorting_agrees_with_the_standard_stable_sort() {
    let mut rows = Vec::new();
    let names = ["b", "a", "", "ab", "B", "zz", "a"];
    let statuses = [
        ProcessStatus::Running,
        ProcessStatus::Paused,
        ProcessStatus::Sleeping,
        ProcessStatus::Other,
    ];
    let cpus = [0.0f32, -0.0, 1.5, -1.5, 100.0, f32::INFINITY, f32::NEG_INFINITY, f32::NAN, -f32::NAN];
    for i in 0..60u32 {
        rows.push(process(
            (i * 37) % 23,
            names[(i as usize * 5) % names.len()],
            statuses[(i as usize * 3) % statuses.len()],
            cpus[(i as usize * 7) % cpus.len()],
            ((i * 11) % 6) as u64,
        ));
    }
    let rank = |s: ProcessStatus| match s {
        ProcessStatus::Running => 0,
        ProcessStatus::Paused => 1,
        ProcessStatus::Sleeping => 2,
        ProcessStatus::Other => 3,
    };
    for sort in [ColumnSort::Pid, ColumnSort::Name, ColumnSort::Status, ColumnSort::Cpu, ColumnSort::Ram] {
        let mut expected = rows.clone();
        match sort {
            ColumnSort::Pid => expected.sort_by_key(|a| a.pid),
            ColumnSort::Name => expected.sort_by(|a, b| a.name.cmp(&b.name)),
            ColumnSort::Status => expected.sort_by_key(|a| rank(a.status)),
            ColumnSort::Cpu => expected.sort_by(|a, b| {
                f32::from_bits(a.cpu.bits).total_cmp(&f32::from_bits(b.cpu.bits))
            }),
            ColumnSort::Ram => expected.sort_by_key(|a| a.mem),
        }
        assert_eq!(arrange(rows.clone(), &ProcessQuery { sort, reverse: false }), expected);
        expected.reverse();
        assert_eq!(arrange(rows.clone(), &ProcessQuery { sort, reverse: true }), expected);
    }
}

#[test]
fn precedes_orders_names_by_bytes() {
    let a = process(1, "Zeta", ProcessStatus::Running, 0.0, 0);
    let b = process(1, "alpha", ProcessStatus::Running, 0.0, 0);
    let c = process(1, "alphabet", ProcessStatus::Running, 0.0, 0);
    assert!(precedes(&a, &b, ColumnSort::Name));
    assert!(!precedes(&b, &a, ColumnSort::Name));
    assert!(precedes(&b, &c, ColumnSort::Name));
    assert!(!precedes(&b, &b, ColumnSort::Name));
    assert!(!precedes(&a, &b, ColumnSort::Pid));
}

#[test]
fn paused_processes_get_a_resume_button() {
    assert_eq!(toggle_signal(ProcessStatus::Paused), Signal::Resume);
    assert_eq!(toggle_signal(ProcessStatus::Running), Signal::Pause);
    assert_eq!(toggle_signal(ProcessStatus::Sleeping), Signal::Pause);
    assert_eq!(toggle_signal(ProcessStatus::Other), Signal::Pause);
    assert_eq!(status_name(ProcessStatus::Paused), "Paused");
    assert_eq!(status_name(ProcessStatus::Running), "Running");
}

#[test]
fn memory_is_shown_in_binary_units() {
    assert_eq!(memory_text(&process(1, "x", ProcessStatus::Running, 0.0, 1_048_576)), "1 MiB");
    assert_eq!(memory_text(&process(1, "x", ProcessStatus::Running, 0.0, 3_195_498)), "3 MiB");
    assert_eq!(memory_text(&process(1, "x", ProcessStatus::Running, 0.0, 0)), "0 B");
    assert_eq!(memory_text(&process(1, "x", ProcessStatus::Running, 0.0, 1023)), "1023 B");
}

#[test]
fn service_status_badges() {
    let b = status_badge(ServiceStatus::Active);
    assert_eq!((b.attr, b.label, b.i18n), ("active", "Active", "active"));
    let b = status_badge(ServiceStatus::Inactive);
    assert_eq!((b.attr, b.label, b.i18n), ("inactive", "Inactive", "inactive"));
    let b = status_badge(ServiceStatus::Failed);
    assert_eq!((b.attr, b.label, b.i18n), ("failed", "Failed", "failed"));
    let b = status_badge(ServiceStatus::Unknown);
    assert_eq!((b.attr, b.label, b.i18n), ("unknown", "Unknown", "unknown"));
}

#[test]
fn only_services_with_a_log_show_one() {
    let mut service = ServiceInfo {
        name: "ssh".to_string(),
        status: ServiceStatus::Failed,
        err_log: String::new(),
        start: "today".to_string(),
    };
    assert!(!has_log(&service));
    service.err_log = "boom".to_string();
    assert!(has_log(&service));
}

#[test]
fn software_form_builds_the_installer_command() {
    assert_eq!(
        form(SoftwareAction::Install, &vec![5, 120, 0, 65535]),
        CommandAction {
            cmd: "/boot/dietpi/dietpi-software".to_string(),
            args: vec![
                "install".to_string(),
                "5".to_string(),
                "120".to_string(),
                "0".to_string(),
                "65535".to_string()
            ],
        }
    );
    assert_eq!(
        form(SoftwareAction::Uninstall, &Vec::new()),
        CommandAction {
            cmd: "/boot/dietpi/dietpi-software".to_string(),
            args: vec!["uninstall".to_string()],
        }
    );
}

#[test]
fn software_actions_know_their_tab() {
    assert_eq!(SoftwareAction::Install.word(), "install");
    assert_eq!(SoftwareAction::Uninstall.word(), "uninstall");
    assert_eq!(SoftwareAction::Install.label(), "Install");
    assert_eq!(SoftwareAction::Uninstall.label(), "Uninstall");
    assert_eq!(SoftwareAction::Install.tab(), 0);
    assert_eq!(SoftwareAction::Uninstall.tab(), 1);
}

#[test]
fn docs_that_start_with_http_are_links() {
    let item = |docs: &str| SoftwareInfo {
        id: 1,
        name: "n".to_string(),
        desc: "d".to_string(),
        deps: String::new(),
        docs: docs.to_string(),
    };
    assert!(is_link(&item("https://dietpi.com/docs")));
    assert!(is_link(&item("http")));
    assert!(!is_link(&item("htt")));
    assert!(!is_link(&item("")));
    assert!(!is_link(&item("see http://x")));
    assert!(!is_link(&item("Http://x")));
    assert!(!is_link(&item("häää")));
}

fn host() -> HostInfo {
    HostInfo {
        hostname: "pi".to_string(),
        nic: "eth0".to_string(),
        uptime: 9420,
        num_pkgs: 412,
        os_version: "Debian 12".to_string(),
        kernel: "6.1".to_string(),
        dp_version: "9.5".to_string(),
        arch: "aarch64".to_string(),
    }
}

#[test]
fn host_table_formats_uptime() {
    let rows: Vec<(String, String)> =
        host_table(host()).into_iter().map(|r| (r.label.to_string(), r.value)).collect();
    let expected: Vec<(String, String)> = [
        ("Hostname", "pi"),
        ("Network Interface", "eth0"),
        ("Uptime", "2h 37m"),
        ("Installed Packages", "412"),
        ("OS Version", "Debian 12"),
        ("Kernel Version", "6.1"),
        ("DietPi Version", "9.5"),
        ("Architecture", "aarch64"),
    ]
    .iter()
    .map(|(l, v)| (l.to_string(), v.to_string()))
    .collect();
    assert_eq!(rows, expected);
    let mut fresh = host();
    fresh.uptime = 0;
    assert_eq!(host_table(fresh)[2].value, "0s");
    let mut old = host();
    old.uptime = 90061;
    assert_eq!(host_table(old)[2].value, "1day 1h 1m 1s");
}

#[test]
fn host_rows_take_the_uptime_text_as_given() {
    let rows = host_rows(host(), "a while".to_string());
    assert_eq!(rows.len(), 8);
    assert_eq!(rows[2].label, "Uptime");
    assert_eq!(rows[2].value, "a while");
    assert_eq!(rows[3].value, "412");
}

#[test]
fn config_failures_are_internal_errors() {
    let r = config_path_failed();
    assert_eq!(r.status, Status::InternalServerError);
    assert_eq!(r.body, "failed to get config path");
    let r = config_read_failed();
    assert_eq!(r.status.code(), 500);
    assert_eq!(r.body, "failed to read config");
}

#[test]
fn graph_constants_and_layout() {
    assert_eq!(GRAPH_Y_LINES, 11);
    assert_eq!(GRAPH_X_LINES, 20);
    assert_eq!(LINE_SPACING, 10);
    let l = layout();
    assert_eq!(l.left_margin, 50);
    assert_eq!(l.right_margin, 10);
    assert_eq!(l.top_margin, 10);
    assert_eq!(l.bottom_margin, 10);
    assert_eq!(l.graph_width, 190);
    assert_eq!(l.graph_height, 100);
    assert_eq!(l.x_end, 240);
    assert_eq!(l.y_end, 110);
    assert_eq!(l.total_width, 250);
    assert_eq!(l.total_height, 120);
    assert_eq!(label_heights(), vec![110, 100, 90, 80, 70, 60, 50, 40, 30, 20, 10]);
    assert_eq!(line_x(0), 50);
    assert_eq!(line_x(19), 240);
    assert_eq!(line_x(u32::MAX), 50 + 10 * (u32::MAX as u64));
    assert_eq!(dash(0), "none");
    assert_eq!(dash(1), "5 4");
    assert_eq!(dash(2), "none");
}

#[test]
fn axis_labels() {
    assert_eq!(
        Axis::Percent.get_labels(),
        vec!["0%", "10%", "20%", "30%", "40%", "50%", "60%", "70%", "80%", "90%", "100%"]
    );
    assert_eq!(
        Axis::Temp.get_labels(),
        vec!["20º", "30º", "40º", "50º", "60º", "70º", "80º", "90º", "100º", "110º", "120º"]
    );
    assert_eq!(
        Axis::Bytes.get_labels(),
        vec![
            "1 B", "10 B", "100 B", "1 KB", "10 KB", "100 KB", "1 MB", "10 MB", "100 MB", "1 GB",
            "10 GB"
        ]
    );
}

#[test]
fn series_are_placed_from_the_right() {
    let mut graph = SvgGraph::new(Axis::Percent);
    assert!(graph.series.is_empty());
    graph.add_series(&samples(&[3.0, 2.0, 1.0]), "red", "CPU");
    assert_eq!(graph.axis, Axis::Percent);
    assert_eq!(graph.series.len(), 1);
    assert_eq!(graph.series[0].points, vec![(19, sample(3.0)), (18, sample(2.0)), (17, sample(1.0))]);
    assert_eq!(graph.series[0].color, "red");
    assert_eq!(graph.series[0].label, "CPU");
    graph.add_series(&Vec::new(), "blue", "none");
    assert_eq!(graph.series.len(), 2);
    assert!(graph.series[1].points.is_empty());
    assert_eq!(graph.series[0].points.len(), 3);
}

#[test]
fn series_hold_at_most_twenty_points() {
    let many: Vec<f32> = (0..25).map(|i| i as f32).collect();
    let mut graph = SvgGraph::new(Axis::Bytes);
    graph.add_series(&samples(&many), "c", "l");
    let points = &graph.series[0].points;
    assert_eq!(points.len(), 20);
    assert_eq!(points[0], (19, sample(0.0)));
    assert_eq!(points[19], (0, sample(19.0)));
}

#[test]
fn window_keeps_the_newest_twenty() {
    assert_eq!(push_sample(sample(1.0), &Vec::new()), samples(&[1.0]));
    assert_eq!(push_sample(sample(3.0), &samples(&[2.0, 1.0])), samples(&[3.0, 2.0, 1.0]));
    let nineteen: Vec<f32> = (0..19).map(|i| i as f32).collect();
    let window = push_sample(sample(99.0), &samples(&nineteen));
    assert_eq!(window.len(), 20);
    assert_eq!(window[0], sample(99.0));
    assert_eq!(window[19], sample(18.0));
    let twenty: Vec<f32> = (0..20).map(|i| i as f32).collect();
    let window = push_sample(sample(99.0), &samples(&twenty));
    assert_eq!(window.len(), 20);
    assert_eq!(window[0], sample(99.0));
    assert_eq!(window[1], sample(0.0));
    assert_eq!(window[19], sample(18.0));
    let thirty: Vec<f32> = (0..30).map(|i| i as f32).collect();
    assert_eq!(push_sample(sample(99.0), &samples(&thirty)), window);
}

#[test]
fn cpu_graph_updates_the_history() {
    let data = CpuUsage { global_cpu: sample(42.0), cpus: samples(&[40.0, 44.0]) };
    let mut points = samples(&[41.0, 40.0]);
    let graph = cpu_graph(&data, &mut points);
    assert_eq!(points, samples(&[42.0, 41.0, 40.0]));
    assert_eq!(graph.axis, Axis::Percent);
    assert_eq!(graph.series.len(), 1);
    assert_eq!(
        graph.series[0].points,
        vec![(19, sample(42.0)), (18, sample(41.0)), (17, sample(40.0))]
    );
    assert_eq!(graph.series[0].color, "var(--gray-12)");
    assert_eq!(graph.series[0].label, "CPU");
}

#[test]
fn temp_graph_needs_a_sensor() {
    let mut points = samples(&[50.0]);
    assert_eq!(temp_graph(&Temperature { temp: None }, &mut points), None);
    assert_eq!(points, samples(&[50.0]));
    let graph = temp_graph(&Temperature { temp: Some(sample(55.5)) }, &mut points).unwrap();
    assert_eq!(points, samples(&[55.5, 50.0]));
    assert_eq!(graph.axis, Axis::Temp);
    assert_eq!(graph.series[0].points, vec![(19, sample(55.5)), (18, sample(50.0))]);
    assert_eq!(graph.series[0].color, "var(--red-6)");
    assert_eq!(graph.series[0].label, "Temperature");
}

#[test]
fn mem_and_net_graphs_have_two_curves() {
    let mut ram = samples(&[10.0]);
    let mut swap = Vec::new();
    let graph = mem_graph(sample(11.0), sample(1.0), &mut ram, &mut swap);
    assert_eq!(ram, samples(&[11.0, 10.0]));
    assert_eq!(swap, samples(&[1.0]));
    assert_eq!(graph.axis, Axis::Percent);
    let labels: Vec<(&str, &str)> = graph.series.iter().map(|s| (s.label, s.color)).collect();
    assert_eq!(labels, vec![("RAM", "var(--gray-12)"), ("Swap", "var(--red-6)")]);
    assert_eq!(graph.series[0].points, vec![(19, sample(11.0)), (18, sample(10.0))]);
    assert_eq!(graph.series[1].points, vec![(19, sample(1.0))]);

    let mut sent = Vec::new();
    let mut recv = samples(&[7.0]);
    let graph = net_graph(sample(100.0), sample(200.0), &mut sent, &mut recv);
    assert_eq!(sent, samples(&[100.0]));
    assert_eq!(recv, samples(&[200.0, 7.0]));
    assert_eq!(graph.axis, Axis::Bytes);
    let labels: Vec<(&str, &str)> = graph.series.iter().map(|s| (s.label, s.color)).collect();
    assert_eq!(labels, vec![("Sent", "var(--gray-12)"), ("Received", "var(--red-6)")]);
}

#[test]
fn meters_show_rounded_amounts() {
    let meters = mem_meters(&MemUsage {
        ram: Usage { used: 3_195_498, total: 1_073_741_824 },
        swap: Usage { used: 0, total: 1536 },
    });
    assert_eq!(meters.ram_used, "3.05 MiB");
    assert_eq!(meters.ram_total, "1 GiB");
    assert_eq!(meters.swap_used, "0 B");
    assert_eq!(meters.swap_total, "1.5 KiB");

    let disks = vec![
        DiskInfo {
            name: "mmcblk0p2".to_string(),
            mnt_point: "/".to_string(),
            usage: Usage { used: 3_564_234, total: 2_000_000 },
        },
        DiskInfo {
            name: "sda1".to_string(),
            mnt_point: "/mnt".to_string(),
            usage: Usage { used: 999, total: 1_500_000_000_000 },
        },
    ];
    let meters = disk_meters(&disks);
    assert_eq!(meters.len(), 2);
    assert_eq!(meters[0].used, "3.56 MB");
    assert_eq!(meters[0].total, "2 MB");
    assert_eq!(meters[1].used, "999 B");
    assert_eq!(meters[1].total, "1.5 TB");
    assert!(disk_meters(&Vec::new()).is_empty());
}

#[test]
fn system_query_starts_empty() {
    let q = SystemQuery::default();
    assert!(q.cpu.is_empty() && q.temp.is_empty() && q.ram.is_empty());
    assert!(q.swap.is_empty() && q.sent.is_empty() && q.recv.is_empty());
}

#[test]
fn terminal_stream_is_a_byte_stream() {
    let r = stream();
    assert_eq!(r.status, Status::Success);
    assert_eq!(
        r.headers,
        vec![Header { name: "content-type".to_string(), value: "application/octet-stream".to_string() }]
    );
    assert_eq!(r.body, "");
}

#[test]
fn terminal_write_sends_each_chunk() {
    match dashboard_core::pages::terminal::write(Some(b"ls\n".to_vec())) {
        WriteStep::Send(action) => assert_eq!(action, Action::Terminal(b"ls\n".to_vec())),
        WriteStep::Finish(_) => panic!("a chunk is to be sent"),
    }
    match dashboard_core::pages::terminal::write(None) {
        WriteStep::Finish(r) => assert_eq!(r, ServerResponse::new()),
        WriteStep::Send(_) => panic!("the end of the body is the end"),
    }
    let r = write_failed();
    assert_eq!(r.status, Status::BadGateway);
    assert_eq!(r.status.code(), 502);
    assert_eq!(r.body, "failed to write to backend processor to write to terminal");
}

#[test]
fn a_failed_send_ends_the_write_with_a_gateway_error() {
    assert_eq!(write_answer(true), None);
    assert_eq!(write_answer(false), Some(write_failed()));

    // Three pieces, of which the second cannot be handed over.
    let pieces = vec![b"a".to_vec(), b"b".to_vec(), b"c".to_vec()];
    let mut handed_over = Vec::new();
    let mut answer = None;
    let mut body = pieces.into_iter();
    while answer.is_none() {
        match dashboard_core::pages::terminal::write(body.next()) {
            WriteStep::Send(action) => {
                let sent = action != Action::Terminal(b"b".to_vec());
                if sent {
                    handed_over.push(action);
                }
                answer = write_answer(sent).map(Err);
            }
            WriteStep::Finish(r) => answer = Some(Ok(r)),
        }
    }
    assert_eq!(handed_over, vec![Action::Terminal(b"a".to_vec())]);
    assert_eq!(body.next(), Some(b"c".to_vec()));
    let answer: Result<ServerResponse, ServerResponse> = answer.unwrap();
    assert_eq!(answer.unwrap_err().status.code(), 502);
}

#[test]
fn terminal_resize_answers() {
    let g = Geometry { rows: 40, cols: 100 };
    assert_eq!(resize(g), Action::ResizeTerminal(g));
    assert_eq!(resize_answer(true), Ok(ServerResponse::new()));
    let err = resize_answer(false).unwrap_err();
    assert_eq!(err.status, Status::BadGateway);
    assert_eq!(err.status.code(), 502);
    assert_eq!(err.body, "failed to write to backend processor to resize terminal");
}

#[test]
fn terminal_stream_needs_a_subscription() {
    assert_eq!(stream_answer(true), Ok(stream()));
    let err = stream_answer(false).unwrap_err();
    assert_eq!(err.status, Status::BadGateway);
    assert_eq!(err.status.code(), 502);
    assert!(err.headers.is_empty());
    assert_eq!(err.body, "backend request failed: device unreachable");
}

#[test]
fn byte_counts_are_shown_in_decimal_units() {
    assert_eq!(bytes_text(0), "0 B");
    assert_eq!(bytes_text(999), "999 B");
    assert_eq!(bytes_text(1_000), "1 KB");
    assert_eq!(bytes_text(1_499_999), "1 MB");
    assert_eq!(bytes_text(2_500_000_000), "3 GB");
    assert_eq!(bytes_text(u64::MAX), "18 EB");
}

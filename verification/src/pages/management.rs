//! The management page.

use crate::format::{duration_text, format_duration};
use crate::http::response::{ResponseView, ServerResponse, Status};
use crate::message::HostInfo;
use crate::text::{decimal, decimal_spec};
use vstd::prelude::*;

verus! {

/// One line of the table of host information.
#[derive(Clone, Debug, PartialEq, Eq)]
pub struct HostRow {
    pub label: &'static str,
    pub value: String,
}

/// The lines of the table of host information, as label and value.
pub open spec fn host_rows_spec(data: HostInfo, uptime: Seq<char>) -> Seq<(Seq<char>, Seq<char>)> {
    seq![
        ("Hostname"@, data.hostname@),
        ("Network Interface"@, data.nic@),
        ("Uptime"@, uptime),
        ("Installed Packages"@, decimal_spec(data.num_pkgs as nat)),
        ("OS Version"@, data.os_version@),
        ("Kernel Version"@, data.kernel@),
        ("DietPi Version"@, data.dp_version@),
        ("Architecture"@, data.arch@),
    ]
}

/// Label and value of each line, in order.
pub open spec fn row_views(rows: Seq<HostRow>) -> Seq<(Seq<char>, Seq<char>)> {
    Seq::new(rows.len(), |i: int| (rows[i].label@, rows[i].value@))
}

/// The table of host information, given the text that shows the uptime.
pub fn host_rows(data: HostInfo, uptime: String) -> (rows: Vec<HostRow>)
    ensures
        row_views(rows@) == host_rows_spec(data, uptime@),
{
    let mut rows: Vec<HostRow> = Vec::new();
    let packages = decimal(data.num_pkgs as u64);
    rows.push(HostRow { label: "Hostname", value: data.hostname });
    rows.push(HostRow { label: "Network Interface", value: data.nic });
    rows.push(HostRow { label: "Uptime", value: uptime });
    rows.push(HostRow { label: "Installed Packages", value: packages });
    rows.push(HostRow { label: "OS Version", value: data.os_version });
    rows.push(HostRow { label: "Kernel Version", value: data.kernel });
    rows.push(HostRow { label: "DietPi Version", value: data.dp_version });
    rows.push(HostRow { label: "Architecture", value: data.arch });
    assert(row_views(rows@) =~= host_rows_spec(data, uptime@));
    rows
}

/// The table of host information.
pub fn host_table(data: HostInfo) -> (rows: Vec<HostRow>)
    ensures
        row_views(rows@) == host_rows_spec(data, duration_text(data.uptime)),
{
    let uptime = format_duration(data.uptime);
    host_rows(data, uptime)
}

/// What is answered when the place of the dashboard's own configuration
/// cannot be found.
pub fn config_path_failed() -> (r: ServerResponse)
    ensures
        r@ == ResponseView::plain(Status::InternalServerError, "failed to get config path"@),
{
    ServerResponse::plain(Status::InternalServerError, "failed to get config path")
}

/// What is answered when the dashboard's own configuration cannot be read.
pub fn config_read_failed() -> (r: ServerResponse)
    ensures
        r@ == ResponseView::plain(Status::InternalServerError, "failed to read config"@),
{
    ServerResponse::plain(Status::InternalServerError, "failed to read config")
}

} // verus!

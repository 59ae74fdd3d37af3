//! The process page: which column the list is sorted by, in which order, and
//! what each line of it offers.

use crate::format::{pretty_bytes_binary, pretty_bytes_binary_text};
use crate::message::{ProcessInfo, ProcessStatus, Signal};
use crate::pages::template::{Icon, DEFAULT_ICON_SIZE};
use vstd::prelude::*;

verus! {

/// The column that the process list is sorted by.
#[derive(Clone, Copy, Debug, PartialEq, Eq, Structural)]
pub enum ColumnSort {
    Pid,
    Name,
    Status,
    Cpu,
    Ram,
}

impl Default for ColumnSort {
    fn default() -> (sort: ColumnSort)
        ensures
            sort == ColumnSort::Pid,
    {
        ColumnSort::Pid
    }
}

impl ColumnSort {
    /// The word for the column in a query.
    pub fn name(self) -> (s: &'static str)
        ensures
            s@ == (match self {
                ColumnSort::Pid => "pid"@,
                ColumnSort::Name => "name"@,
                ColumnSort::Status => "status"@,
                ColumnSort::Cpu => "cpu"@,
                ColumnSort::Ram => "ram"@,
            }),
    {
        match self {
            ColumnSort::Pid => "pid",
            ColumnSort::Name => "name",
            ColumnSort::Status => "status",
            ColumnSort::Cpu => "cpu",
            ColumnSort::Ram => "ram",
        }
    }

    /// The heading of the column.
    pub fn heading(self) -> (s: &'static str)
        ensures
            s@ == heading_spec(self),
    {
        match self {
            ColumnSort::Pid => "PID",
            ColumnSort::Name => "Name",
            ColumnSort::Status => "Status",
            ColumnSort::Cpu => "CPU Usage",
            ColumnSort::Ram => "RAM Usage",
        }
    }
}

/// How the viewer asked for the process list to be shown.
#[derive(Clone, Copy, Debug, PartialEq, Eq, Structural)]
pub struct ProcessQuery {
    pub sort: ColumnSort,
    pub reverse: bool,
}

impl Default for ProcessQuery {
    fn default() -> (query: ProcessQuery)
        ensures
            query == (ProcessQuery { sort: ColumnSort::Pid, reverse: false }),
    {
        ProcessQuery { sort: ColumnSort::Pid, reverse: false }
    }
}

/// The head of one column of the process list. A click on it sorts the list
/// by that column.
#[derive(Clone, Copy, Debug, PartialEq, Eq)]
pub struct HeaderCell {
    pub label: &'static str,
    pub sort: ColumnSort,
    /// Whether a click asks for the reverse order: it does where the list is
    /// sorted by this column already, and in forward order.
    pub reverse: bool,
    /// The arrow shown in the head of the column that the list is sorted by.
    pub arrow: Option<Icon>,
}

/// Whether a click on the head of column `sort` asks for the reverse order.
pub open spec fn next_reverse(sort: ColumnSort, query: ProcessQuery) -> bool {
    query.sort == sort && !query.reverse
}

/// The name of the arrow in the head of the column that the list is sorted
/// by: it points the way the list runs.
pub open spec fn arrow_name(query: ProcessQuery) -> Seq<char> {
    if query.reverse {
        "fa6-solid-sort-down"@
    } else {
        "fa6-solid-sort-up"@
    }
}

/// The heading of a column.
pub open spec fn heading_spec(sort: ColumnSort) -> Seq<char> {
    match sort {
        ColumnSort::Pid => "PID"@,
        ColumnSort::Name => "Name"@,
        ColumnSort::Status => "Status"@,
        ColumnSort::Cpu => "CPU Usage"@,
        ColumnSort::Ram => "RAM Usage"@,
    }
}

/// Is `cell` the head of column `sort`, headed `label`, for a list shown as
/// `query` says?
pub open spec fn is_header(cell: HeaderCell, label: Seq<char>, sort: ColumnSort, query: ProcessQuery)
    -> bool {
    &&& cell.label@ == label
    &&& cell.sort == sort
    &&& cell.reverse == next_reverse(sort, query)
    &&& cell.arrow is Some == (query.sort == sort)
    &&& cell.arrow matches Some(icon) ==> icon.size == DEFAULT_ICON_SIZE && icon.name@ == arrow_name(
        query,
    )
}

/// The head of column `sort`, called `name`.
pub fn table_header(name: &'static str, sort: ColumnSort, query: &ProcessQuery) -> (cell:
    HeaderCell)
    ensures
        cell.label == name,
        is_header(cell, name@, sort, *query),
{
    let reverse = if query.sort == sort {
        !query.reverse
    } else {
        false
    };
    let arrow = if query.sort == sort {
        if query.reverse {
            Some(Icon::new("fa6-solid-sort-down"))
        } else {
            Some(Icon::new("fa6-solid-sort-up"))
        }
    } else {
        None
    };
    HeaderCell { label: name, sort, reverse, arrow }
}

/// The columns of the process list, in order.
pub open spec fn columns() -> Seq<ColumnSort> {
    seq![ColumnSort::Pid, ColumnSort::Name, ColumnSort::Status, ColumnSort::Cpu, ColumnSort::Ram]
}

/// The heads of all columns, in order.
pub fn table_headers(query: &ProcessQuery) -> (cells: Vec<HeaderCell>)
    ensures
        cells@.len() == columns().len(),
        forall|i: int|
            0 <= i < cells@.len() ==> is_header(
                #[trigger] cells@[i],
                heading_spec(columns()[i]),
                columns()[i],
                *query,
            ),
{
    let mut cells: Vec<HeaderCell> = Vec::new();
    cells.push(table_header(ColumnSort::Pid.heading(), ColumnSort::Pid, query));
    cells.push(table_header(ColumnSort::Name.heading(), ColumnSort::Name, query));
    cells.push(table_header(ColumnSort::Status.heading(), ColumnSort::Status, query));
    cells.push(table_header(ColumnSort::Cpu.heading(), ColumnSort::Cpu, query));
    cells.push(table_header(ColumnSort::Ram.heading(), ColumnSort::Ram, query));
    cells
}

/// The place of a status in a list sorted by status.
pub open spec fn status_rank(status: ProcessStatus) -> int {
    match status {
        ProcessStatus::Running => 0,
        ProcessStatus::Paused => 1,
        ProcessStatus::Sleeping => 2,
        ProcessStatus::Other => 3,
    }
}

/// The place of a single-precision number, given by its bit pattern, in the
/// total order of such numbers: negative numbers before positive ones, and
/// among the negative ones the larger bit pattern first.
pub open spec fn total_key(bits: u32) -> int {
    if bits >= 0x8000_0000 {
        0x7FFF_FFFF - bits
    } else {
        bits as int
    }
}

/// Does `a` come before `b` when byte strings are compared byte by byte, a
/// string coming before every string that it begins?
pub open spec fn lex_lt(a: Seq<u8>, b: Seq<u8>) -> bool
    decreases a.len(),
{
    if b.len() == 0 {
        false
    } else if a.len() == 0 {
        true
    } else if a[0] != b[0] {
        a[0] < b[0]
    } else {
        lex_lt(a.subrange(1, a.len() as int), b.subrange(1, b.len() as int))
    }
}

/// The bytes of a process's name.
pub open spec fn name_bytes(p: ProcessInfo) -> Seq<u8> {
    vstd::utf8::encode_utf8(p.name@)
}

/// Does `a` come before `b` in a list sorted by column `sort`?
pub open spec fn precedes_spec(a: ProcessInfo, b: ProcessInfo, sort: ColumnSort) -> bool {
    match sort {
        ColumnSort::Pid => a.pid < b.pid,
        ColumnSort::Name => lex_lt(name_bytes(a), name_bytes(b)),
        ColumnSort::Status => status_rank(a.status) < status_rank(b.status),
        ColumnSort::Cpu => total_key(a.cpu.bits) < total_key(b.cpu.bits),
        ColumnSort::Ram => a.mem < b.mem,
    }
}

/// Where `x` goes into a list sorted by `sort`: behind every process that it
/// does not come before.
pub open spec fn insert_pos(sorted: Seq<ProcessInfo>, x: ProcessInfo, sort: ColumnSort) -> int
    decreases sorted.len(),
{
    if sorted.len() == 0 {
        0
    } else if precedes_spec(x, sorted.last(), sort) {
        insert_pos(sorted.drop_last(), x, sort)
    } else {
        sorted.len() as int
    }
}

/// The processes sorted by column `sort`. Processes that the column does not
/// tell apart stay in the order in which they came.
pub open spec fn sorted_by(rows: Seq<ProcessInfo>, sort: ColumnSort) -> Seq<ProcessInfo>
    decreases rows.len(),
{
    if rows.len() == 0 {
        rows
    } else {
        let front = sorted_by(rows.drop_last(), sort);
        front.insert(insert_pos(front, rows.last(), sort), rows.last())
    }
}

/// The processes as the viewer asked for them: sorted by the column of the
/// query, and back to front where the query says so.
pub open spec fn arranged(rows: Seq<ProcessInfo>, query: ProcessQuery) -> Seq<ProcessInfo> {
    if query.reverse {
        sorted_by(rows, query.sort).reverse()
    } else {
        sorted_by(rows, query.sort)
    }
}

fn status_rank_of(status: ProcessStatus) -> (r: u8)
    ensures
        r == status_rank(status),
{
    match status {
        ProcessStatus::Running => 0,
        ProcessStatus::Paused => 1,
        ProcessStatus::Sleeping => 2,
        ProcessStatus::Other => 3,
    }
}

fn total_key_of(bits: u32) -> (k: i64)
    ensures
        k == total_key(bits),
{
    if bits >= 0x8000_0000 {
        0x7FFF_FFFFi64 - (bits as i64)
    } else {
        bits as i64
    }
}

fn bytes_lt(a: &[u8], b: &[u8]) -> (r: bool)
    ensures
        r == lex_lt(a@, b@),
{
    let mut i: usize = 0;
    assert(a@.subrange(0, a@.len() as int) =~= a@);
    assert(b@.subrange(0, b@.len() as int) =~= b@);
    while i < a.len() && i < b.len()
        invariant
            i <= a@.len(),
            i <= b@.len(),
            lex_lt(a@, b@) == lex_lt(
                a@.subrange(i as int, a@.len() as int),
                b@.subrange(i as int, b@.len() as int),
            ),
        decreases a@.len() - i,
    {
        let ghost ta = a@.subrange(i as int, a@.len() as int);
        let ghost tb = b@.subrange(i as int, b@.len() as int);
        assert(ta[0] == a@[i as int] && tb[0] == b@[i as int]);
        if a[i] != b[i] {
            return a[i] < b[i];
        }
        assert(ta.subrange(1, ta.len() as int) =~= a@.subrange(i + 1, a@.len() as int));
        assert(tb.subrange(1, tb.len() as int) =~= b@.subrange(i + 1, b@.len() as int));
        i += 1;
    }
    i < b.len()
}

/// Does `a` come before `b` in a list sorted by column `sort`?
pub fn precedes(a: &ProcessInfo, b: &ProcessInfo, sort: ColumnSort) -> (r: bool)
    ensures
        r == precedes_spec(*a, *b, sort),
{
    match sort {
        ColumnSort::Pid => a.pid < b.pid,
        ColumnSort::Name => bytes_lt(a.name.as_str().as_bytes(), b.name.as_str().as_bytes()),
        ColumnSort::Status => status_rank_of(a.status) < status_rank_of(b.status),
        ColumnSort::Cpu => total_key_of(a.cpu.bits) < total_key_of(b.cpu.bits),
        ColumnSort::Ram => a.mem < b.mem,
    }
}

/// The processes as the viewer asked for them.
pub fn arrange(processes: Vec<ProcessInfo>, query: &ProcessQuery) -> (rows: Vec<ProcessInfo>)
    ensures
        rows@ == arranged(processes@, *query),
{
    let ghost all = processes@;
    let sort = query.sort;
    let mut sorted: Vec<ProcessInfo> = Vec::new();
    assert(all.take(0) =~= Seq::<ProcessInfo>::empty());
    for p in it: processes
        invariant
            it.seq() == all,
            sorted@ == sorted_by(all.take(it.index() as int), sort),
    {
        let mut pos: usize = sorted.len();
        assert(sorted@.take(sorted@.len() as int) =~= sorted@);
        while pos > 0 && precedes(&p, &sorted[pos - 1], sort)
            invariant
                pos <= sorted@.len(),
                insert_pos(sorted@, p, sort) == insert_pos(sorted@.take(pos as int), p, sort),
            decreases pos,
        {
            assert(sorted@.take(pos as int).drop_last() =~= sorted@.take(pos - 1));
            pos -= 1;
        }
        proof {
            assert(all.take(it.index() + 1).drop_last() =~= all.take(it.index() as int));
            assert(all.take(it.index() + 1).last() == p);
        }
        sorted.insert(pos, p);
    }
    assert(all.take(all.len() as int) =~= all);
    if !query.reverse {
        return sorted;
    }
    let ghost forward = sorted@;
    let mut rows: Vec<ProcessInfo> = Vec::new();
    while sorted.len() > 0
        invariant
            sorted@ =~= forward.take(sorted@.len() as int),
            sorted@.len() <= forward.len(),
            rows@.len() + sorted@.len() == forward.len(),
            forall|k: int| 0 <= k < rows@.len() ==> rows@[k] == forward[forward.len() - 1 - k],
        decreases sorted@.len(),
    {
        let p = sorted.pop().unwrap();
        rows.push(p);
    }
    assert(rows@ =~= forward.reverse());
    rows
}

/// Byte order never puts two strings each before the other.
pub proof fn lemma_lex_asymmetric(a: Seq<u8>, b: Seq<u8>)
    ensures
        !(lex_lt(a, b) && lex_lt(b, a)),
    decreases a.len(),
{
    if a.len() > 0 && b.len() > 0 && a[0] == b[0] {
        lemma_lex_asymmetric(a.subrange(1, a.len() as int), b.subrange(1, b.len() as int));
    }
}

/// If in byte order `a` does not come before `b`, nor `b` before `c`, then
/// `a` does not come before `c`.
pub proof fn lemma_lex_negative_transitive(a: Seq<u8>, b: Seq<u8>, c: Seq<u8>)
    requires
        !lex_lt(a, b),
        !lex_lt(b, c),
    ensures
        !lex_lt(a, c),
    decreases a.len(),
{
    if a.len() > 0 && b.len() > 0 && c.len() > 0 && a[0] == b[0] && b[0] == c[0] {
        lemma_lex_negative_transitive(
            a.subrange(1, a.len() as int),
            b.subrange(1, b.len() as int),
            c.subrange(1, c.len() as int),
        );
    }
}

/// Is no process of the list behind one that it comes before?
pub open spec fn in_order(rows: Seq<ProcessInfo>, sort: ColumnSort) -> bool {
    forall|i: int, j: int| 0 <= i < j < rows.len() ==> !precedes_spec(rows[j], rows[i], sort)
}

proof fn lemma_insert_pos_bounds(sorted: Seq<ProcessInfo>, x: ProcessInfo, sort: ColumnSort)
    ensures
        0 <= insert_pos(sorted, x, sort) <= sorted.len(),
        forall|j: int|
            insert_pos(sorted, x, sort) <= j < sorted.len() ==> precedes_spec(
                x,
                #[trigger] sorted[j],
                sort,
            ),
        insert_pos(sorted, x, sort) > 0 ==> !precedes_spec(
            x,
            sorted[insert_pos(sorted, x, sort) - 1],
            sort,
        ),
    decreases sorted.len(),
{
    if sorted.len() > 0 && precedes_spec(x, sorted.last(), sort) {
        let front = sorted.drop_last();
        lemma_insert_pos_bounds(front, x, sort);
        assert forall|j: int| insert_pos(sorted, x, sort) <= j < sorted.len() implies precedes_spec(
            x,
            #[trigger] sorted[j],
            sort,
        ) by {
            if j < front.len() {
                assert(sorted[j] == front[j]);
            }
        }
        if insert_pos(sorted, x, sort) > 0 {
            assert(sorted[insert_pos(sorted, x, sort) - 1] == front[insert_pos(front, x, sort) - 1]);
        }
    }
}

proof fn lemma_precedes_is_an_order(a: ProcessInfo, b: ProcessInfo, c: ProcessInfo, sort: ColumnSort)
    ensures
        !(precedes_spec(a, b, sort) && precedes_spec(b, a, sort)),
        !precedes_spec(a, b, sort) && !precedes_spec(b, c, sort) ==> !precedes_spec(a, c, sort),
{
    lemma_lex_asymmetric(name_bytes(a), name_bytes(b));
    if !lex_lt(name_bytes(a), name_bytes(b)) && !lex_lt(name_bytes(b), name_bytes(c)) {
        lemma_lex_negative_transitive(name_bytes(a), name_bytes(b), name_bytes(c));
    }
}

/// A sorted list is in order, and holds the processes that it was made from,
/// each as often as it came.
pub proof fn lemma_sorted_is_ordered_permutation(rows: Seq<ProcessInfo>, sort: ColumnSort)
    ensures
        in_order(sorted_by(rows, sort), sort),
        sorted_by(rows, sort).to_multiset() == rows.to_multiset(),
        sorted_by(rows, sort).len() == rows.len(),
    decreases rows.len(),
{
    if rows.len() == 0 {
    } else {
        let front = sorted_by(rows.drop_last(), sort);
        let x = rows.last();
        let pos = insert_pos(front, x, sort);
        let out = sorted_by(rows, sort);
        lemma_sorted_is_ordered_permutation(rows.drop_last(), sort);
        lemma_insert_pos_bounds(front, x, sort);
        vstd::seq_lib::to_multiset_insert(front, pos, x);
        rows.drop_last().to_multiset_ensures();
        assert(rows.drop_last().push(x) =~= rows);
        assert forall|i: int, j: int| 0 <= i < j < out.len() implies !precedes_spec(
            out[j],
            out[i],
            sort,
        ) by {
            if i == pos {
                // out[i] is x; out[j] stood at or behind the place of x
                assert(out[j] == front[j - 1]);
                lemma_precedes_is_an_order(x, front[j - 1], x, sort);
            } else if j == pos {
                // out[j] is x; out[i] stood before the place of x
                assert(out[i] == front[i]);
                if i < pos - 1 {
                    lemma_precedes_is_an_order(x, front[pos - 1], front[i], sort);
                }
            } else {
                let fi = if i < pos { i } else { i - 1 };
                let fj = if j < pos { j } else { j - 1 };
                assert(out[i] == front[fi]);
                assert(out[j] == front[fj]);
            }
        }
    }
}

/// Does the column not tell `a` and `b` apart?
pub open spec fn tied(a: ProcessInfo, b: ProcessInfo, sort: ColumnSort) -> bool {
    !precedes_spec(a, b, sort) && !precedes_spec(b, a, sort)
}

/// The processes of the list that the column does not tell apart from `x`,
/// in the order of the list.
pub open spec fn tied_with(rows: Seq<ProcessInfo>, x: ProcessInfo, sort: ColumnSort) -> Seq<
    ProcessInfo,
>
    decreases rows.len(),
{
    if rows.len() == 0 {
        rows
    } else if tied(rows.last(), x, sort) {
        tied_with(rows.drop_last(), x, sort).push(rows.last())
    } else {
        tied_with(rows.drop_last(), x, sort)
    }
}

proof fn lemma_tied_with_concat(
    a: Seq<ProcessInfo>,
    b: Seq<ProcessInfo>,
    x: ProcessInfo,
    sort: ColumnSort,
)
    ensures
        tied_with(a + b, x, sort) =~= tied_with(a, x, sort) + tied_with(b, x, sort),
    decreases b.len(),
{
    if b.len() == 0 {
        assert(a + b =~= a);
    } else {
        lemma_tied_with_concat(a, b.drop_last(), x, sort);
        assert((a + b).drop_last() =~= a + b.drop_last());
        assert((a + b).last() == b.last());
    }
}

proof fn lemma_tied_with_none(rows: Seq<ProcessInfo>, x: ProcessInfo, sort: ColumnSort)
    requires
        forall|i: int| 0 <= i < rows.len() ==> !tied(#[trigger] rows[i], x, sort),
    ensures
        tied_with(rows, x, sort) =~= Seq::<ProcessInfo>::empty(),
    decreases rows.len(),
{
    if rows.len() > 0 {
        assert forall|i: int| 0 <= i < rows.drop_last().len() implies !tied(
            #[trigger] rows.drop_last()[i],
            x,
            sort,
        ) by {
            assert(rows.drop_last()[i] == rows[i]);
        }
        lemma_tied_with_none(rows.drop_last(), x, sort);
        assert(!tied(rows[rows.len() - 1], x, sort));
    }
}

/// Sorting is stable: the processes that the column does not tell apart
/// from one another stand in the sorted list in the order in which they
/// came.
pub proof fn lemma_sorting_is_stable(rows: Seq<ProcessInfo>, x: ProcessInfo, sort: ColumnSort)
    ensures
        tied_with(sorted_by(rows, sort), x, sort) == tied_with(rows, x, sort),
    decreases rows.len(),
{
    if rows.len() > 0 {
        let front = sorted_by(rows.drop_last(), sort);
        let last = rows.last();
        let pos = insert_pos(front, last, sort);
        lemma_sorting_is_stable(rows.drop_last(), x, sort);
        lemma_insert_pos_bounds(front, last, sort);
        let head = front.take(pos);
        let tail = front.skip(pos);
        assert(front =~= head + tail);
        assert(front.insert(pos, last) =~= head + seq![last] + tail);
        lemma_tied_with_concat(head, tail, x, sort);
        lemma_tied_with_concat(head + seq![last], tail, x, sort);
        lemma_tied_with_concat(head, seq![last], x, sort);
        assert(seq![last].drop_last() =~= Seq::<ProcessInfo>::empty());
        reveal_with_fuel(tied_with, 2);
        if tied(last, x, sort) {
            assert forall|i: int| 0 <= i < tail.len() implies !tied(#[trigger] tail[i], x, sort) by {
                assert(tail[i] == front[pos + i]);
                assert(precedes_spec(last, front[pos + i], sort));
                lemma_precedes_is_an_order(last, x, tail[i], sort);
            }
            lemma_tied_with_none(tail, x, sort);
            assert(tied_with(seq![last], x, sort) =~= seq![last]);
        } else {
            assert(tied_with(seq![last], x, sort) =~= Seq::<ProcessInfo>::empty());
        }
    }
}

/// The signal that the pause button of a process sends: one that wakes a
/// paused process, and one that pauses any other.
pub fn toggle_signal(status: ProcessStatus) -> (signal: Signal)
    ensures
        signal == (if status == ProcessStatus::Paused {
            Signal::Resume
        } else {
            Signal::Pause
        }),
{
    match status {
        ProcessStatus::Paused => Signal::Resume,
        _ => Signal::Pause,
    }
}

/// The name of a status, as the list shows it.
pub fn status_name(status: ProcessStatus) -> (s: &'static str)
    ensures
        s@ == (match status {
            ProcessStatus::Running => "Running"@,
            ProcessStatus::Paused => "Paused"@,
            ProcessStatus::Sleeping => "Sleeping"@,
            ProcessStatus::Other => "Other"@,
        }),
{
    match status {
        ProcessStatus::Running => "Running",
        ProcessStatus::Paused => "Paused",
        ProcessStatus::Sleeping => "Sleeping",
        ProcessStatus::Other => "Other",
    }
}

/// The memory that a process holds, as the list shows it: in binary units,
/// rounded to a whole number.
pub fn memory_text(process: &ProcessInfo) -> (text: String)
    ensures
        text@ == pretty_bytes_binary_text(process.mem, Some(0u8)),
{
    pretty_bytes_binary(process.mem, Some(0u8))
}

} // verus!

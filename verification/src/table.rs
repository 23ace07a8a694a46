//! Rendering workspace listings: cell formatting, verified row building,
//! and alignment through the `tabular` crate behind trusted wrappers.

use vstd::prelude::*;

use crate::errors::Error;
use crate::model::{ExecSessionV, Workspace, WorkspaceV};
use crate::slug::basename_of;
use crate::status::Status;
use crate::strutil::{concat_str, dec_rep, spec_lines, split_lines, u64_string};

verus! {

/// The column layout of the workspace table.
pub open spec fn spec_table_layout() -> Seq<char> {
    "{:<}  {:<}  {:<}  {:>}  {:>}  {:<}"@
}

/// What the cells of a table hold, row by row.
pub uninterp spec fn table_rows(t: tabular::Table) -> Seq<Seq<Seq<char>>>;

/// How many columns the table was created with.
pub uninterp spec fn table_cols(t: tabular::Table) -> int;

/// The column-layout text the table was created with.
pub uninterp spec fn table_spec(t: tabular::Table) -> Seq<char>;

/// What the cells of a row hold.
pub uninterp spec fn row_cells(r: tabular::Row) -> Seq<Seq<char>>;

/// How many columns `tabular::column_spec::parse_row_spec` finds in a
/// column-layout text: a function of the text alone.
pub uninterp spec fn spec_layout_cols(layout: Seq<char>) -> int;

/// What `tabular`'s alignment produces for a layout and cell contents: a
/// function of those alone.
pub uninterp spec fn rendered_table(layout: Seq<char>, rows: Seq<Seq<Seq<char>>>) -> Seq<char>;

#[verifier::external_type_specification]
#[verifier::external_body]
pub struct ExTable(tabular::Table);

#[verifier::external_type_specification]
#[verifier::external_body]
pub struct ExRow(tabular::Row);

/// Relies on `tabular::Table::new_safe`: a fresh, empty table for the
/// layout, or an error for a malformed layout; never panics. The fixed
/// workspace layout is well-formed: `parse_row_spec` accepts it and finds
/// exactly its six column specifiers, so for that layout the result is
/// always a table.
#[verifier::external_body]
fn table_new_safe(layout: &str) -> (r: Result<tabular::Table, Error>)
    ensures
        r matches Ok(t) ==> table_rows(t) == Seq::<Seq<Seq<char>>>::empty() && table_cols(t)
            == spec_layout_cols(layout@) && table_spec(t) == layout@,
        layout@ == spec_table_layout() ==> r is Ok && table_cols(r->Ok_0) == 6,
{
    match tabular::Table::new_safe(layout) {
        Ok(t) => Ok(t),
        Err(_) => Err(Error::Msg(String::from("malformed table layout"))),
    }
}

/// Relies on `tabular::Table::column_count`: the number of columns the
/// table was created with.
#[verifier::external_body]
fn table_column_count(t: &tabular::Table) -> (r: usize)
    ensures
        r as int == table_cols(*t),
{
    t.column_count()
}

/// Relies on `tabular::Row::new`: a fresh, empty row.
#[verifier::external_body]
fn row_new() -> (r: tabular::Row)
    ensures
        row_cells(r) == Seq::<Seq<char>>::empty(),
{
    tabular::Row::new()
}

/// Relies on `tabular::Row::with_cell`: appends one cell holding the text.
#[verifier::external_body]
fn row_with_cell(r: tabular::Row, cell: &str) -> (ret: tabular::Row)
    ensures
        row_cells(ret) == row_cells(r).push(cell@),
{
    r.with_cell(cell)
}

/// Relies on `tabular::Table::add_row`, which panics when the row's cell
/// count differs from the table's column count: callers prove they match.
#[verifier::external_body]
fn table_add_row(t: &mut tabular::Table, r: tabular::Row)
    requires
        row_cells(r).len() == table_cols(*old(t)),
    ensures
        table_rows(*final(t)) == table_rows(*old(t)).push(row_cells(r)),
        table_cols(*final(t)) == table_cols(*old(t)),
        table_spec(*final(t)) == table_spec(*old(t)),
{
    t.add_row(r);
}

/// Relies on `tabular::Table`'s `Display` implementation: the aligned
/// rendering, a function of the layout and the cell contents alone.
#[verifier::external_body]
fn table_render(t: &tabular::Table) -> (r: String)
    ensures
        r@ == rendered_table(table_spec(*t), table_rows(*t)),
{
    t.to_string()
}

/// Build a row from its cells.
fn row_of_cells(cells: &Vec<String>) -> (r: tabular::Row)
    ensures
        row_cells(r) == cells.deep_view(),
{
    let mut r = row_new();
    let mut i: usize = 0;
    while i < cells.len()
        invariant
            0 <= i <= cells@.len(),
            row_cells(r) == cells.deep_view().take(i as int),
        decreases cells@.len() - i,
    {
        proof {
            assert(cells.deep_view().take(i + 1).drop_last() =~= cells.deep_view().take(i as int));
            assert(cells.deep_view().take(i + 1).last() == cells.deep_view()[i as int]);
        }
        r = row_with_cell(r, cells[i].as_str());
        i += 1;
    }
    proof {
        assert(cells.deep_view().take(cells@.len() as int) =~= cells.deep_view());
    }
    r
}

/// The engine state's display text, `-` for a workspace without containers.
pub open spec fn spec_status_str(s: Status) -> Seq<char> {
    match s {
        Status::Empty => "-"@,
        Status::Dead => "dead"@,
        Status::Exited => "exited"@,
        Status::Removing => "removing"@,
        Status::Created => "created"@,
        Status::Paused => "paused"@,
        Status::Restarting => "restarting"@,
        Status::Running => "running"@,
    }
}

impl Status {
    /// Display text of the status, `-` when there is no container.
    pub fn as_display(&self) -> (r: &'static str)
        ensures
            r@ == spec_status_str(*self),
    {
        match self {
            Status::Empty => "-",
            Status::Dead => "dead",
            Status::Exited => "exited",
            Status::Removing => "removing",
            Status::Created => "created",
            Status::Paused => "paused",
            Status::Restarting => "restarting",
            Status::Running => "running",
        }
    }
}

/// A byte count with a binary-unit suffix, in whole units.
pub open spec fn spec_format_bytes(n: u64) -> Seq<char> {
    if n < 1024 {
        dec_rep(n as nat) + "B"@
    } else if n < 1048576 {
        dec_rep((n as nat) / 1024) + "KiB"@
    } else if n < 1073741824 {
        dec_rep((n as nat) / 1048576) + "MiB"@
    } else if n < 1099511627776 {
        dec_rep((n as nat) / 1073741824) + "GiB"@
    } else {
        dec_rep((n as nat) / 1099511627776) + "TiB"@
    }
}

/// Format a byte count with a binary-unit suffix.
pub fn format_bytes(n: u64) -> (r: String)
    ensures
        r@ == spec_format_bytes(n),
{
    if n < 1024 {
        concat_str(u64_string(n), "B")
    } else if n < 1048576 {
        concat_str(u64_string(n / 1024), "KiB")
    } else if n < 1073741824 {
        concat_str(u64_string(n / 1048576), "MiB")
    } else if n < 1099511627776 {
        concat_str(u64_string(n / 1073741824), "GiB")
    } else {
        concat_str(u64_string(n / 1099511627776), "TiB")
    }
}

/// A CPU reading in hundredths of a percent, shown with one (truncated)
/// decimal place and a percent sign.
pub open spec fn spec_format_cpu(c: u64) -> Seq<char> {
    dec_rep((c as nat) / 100) + "."@ + dec_rep(((c as nat) % 100) / 10) + "%"@
}

/// Format a CPU reading given in hundredths of a percent.
pub fn format_cpu(c: u64) -> (r: String)
    ensures
        r@ == spec_format_cpu(c),
{
    let whole = u64_string(c / 100);
    let frac = u64_string((c % 100) / 10);
    let r = concat_str(concat_str(concat_str(whole, "."), frac.as_str()), "%");
    r
}

/// A container age, bucketed to the largest round unit: seconds, minutes,
/// hours, days, weeks, months (30 days) or years (365 days); `-` when the
/// creation time is unknown or lies in the future.
pub open spec fn spec_format_age(created: Option<i64>, now: i64) -> Seq<char> {
    match created {
        Option::None => "-"@,
        Option::Some(c) => {
            let dur = now as int - c as int;
            if dur < 0 {
                "-"@
            } else if dur < 60 {
                dec_rep(dur as nat) + "s"@
            } else if dur < 3600 {
                dec_rep((dur / 60) as nat) + "m"@
            } else if dur < 86400 {
                dec_rep((dur / 3600) as nat) + "h"@
            } else if dur < 604800 {
                dec_rep((dur / 86400) as nat) + "d"@
            } else if dur < 2592000 {
                dec_rep((dur / 604800) as nat) + "w"@
            } else if dur < 31536000 {
                dec_rep((dur / 2592000) as nat) + "mo"@
            } else {
                dec_rep((dur / 31536000) as nat) + "y"@
            }
        },
    }
}

/// Format a container's age from its creation time and the current time,
/// both in seconds since the epoch.
pub fn format_age(created: Option<i64>, now: i64) -> (r: String)
    ensures
        r@ == spec_format_age(created, now),
{
    let c: i64 = match created {
        Option::Some(c) => c,
        Option::None => { return String::from_str("-") },
    };
    if now < c {
        return String::from_str("-");
    }
    let dur: u64 = if c >= 0 || now < 0 {
        (now - c) as u64
    } else {
        (now as u64).wrapping_add((-(c as i128)) as u64)
    };
    proof {
        assert(dur as int == now as int - c as int);
    }
    if dur < 60 {
        concat_str(u64_string(dur), "s")
    } else if dur < 3600 {
        concat_str(u64_string(dur / 60), "m")
    } else if dur < 86400 {
        concat_str(u64_string(dur / 3600), "h")
    } else if dur < 604800 {
        concat_str(u64_string(dur / 86400), "d")
    } else if dur < 2592000 {
        concat_str(u64_string(dur / 604800), "w")
    } else if dur < 31536000 {
        concat_str(u64_string(dur / 2592000), "mo")
    } else {
        concat_str(u64_string(dur / 31536000), "y")
    }
}

/// The space-separated tail of a command line: one leading space before
/// each argument.
pub open spec fn spec_join_tail(args: Seq<Seq<char>>) -> Seq<char>
    decreases args.len(),
{
    if args.len() == 0 {
        Seq::empty()
    } else {
        spec_join_tail(args.drop_last()) + seq![' '] + args.last()
    }
}

/// A compact rendering of an exec session's command line: the basename of
/// the program, the arguments space-separated after it, the whole truncated
/// to 40 characters with a trailing ellipsis when longer.
pub open spec fn spec_format_exec(cmd: Seq<Seq<char>>) -> Seq<char> {
    if cmd.len() == 0 {
        Seq::empty()
    } else {
        let joined = basename_of(cmd[0]) + spec_join_tail(cmd.skip(1));
        if joined.len() > 40 {
            joined.take(39).push('…')
        } else {
            joined
        }
    }
}

/// Render an exec session's command line compactly.
#[verifier::loop_isolation(false)]
pub fn format_exec(exec: &crate::model::ExecSession) -> (r: String)
    ensures
        r@ == spec_format_exec(exec.command.deep_view()),
{
    let ghost cmd = exec.command.deep_view();
    if exec.command.len() == 0 {
        return String::new();
    }
    let first = crate::slug::basename(exec.command[0].as_str());
    let mut out = String::from_str(first);
    let mut i: usize = 1;
    while i < exec.command.len()
        invariant
            1 <= i <= cmd.len(),
            out@ == basename_of(cmd[0]) + spec_join_tail(cmd.skip(1).take(i - 1)),
        decreases cmd.len() - i,
    {
        proof {
            assert(cmd.skip(1).take(i as int).drop_last() =~= cmd.skip(1).take(i - 1));
            assert(cmd.skip(1).take(i as int).last() == cmd[i as int]);
        }
        out.push(' ');
        out.append(exec.command[i].as_str());
        i += 1;
    }
    proof {
        assert(cmd.skip(1).take(cmd.len() - 1) =~= cmd.skip(1));
    }
    let olen = out.as_str().unicode_len();
    if olen > 40 {
        let head = out.as_str().substring_char(0, 39);
        let mut t = String::from_str(head);
        t.push('…');
        proof {
            assert(t@ =~= spec_format_exec(cmd));
        }
        return t;
    }
    out
}

/// The visible fields of a workspace row.
pub struct WsFields {
    /// Basename of the worktree path, with `*` appended when dirty.
    pub name: String,
    /// Owning project name.
    pub project: String,
    /// Display text of the aggregate status.
    pub status: String,
    /// CPU column: the reading, or `-` when absent.
    pub cpu: String,
    /// Memory column: the RAM sum, or `-` when no stats were sampled.
    pub mem: String,
}

/// The name cell of a workspace: its basename, starred when dirty.
pub open spec fn spec_ws_name(w: WorkspaceV) -> Seq<char> {
    if w.dirty {
        basename_of(w.path).push('*')
    } else {
        basename_of(w.path)
    }
}

/// The CPU cell of a workspace: `-` unless stats with a CPU reading exist.
pub open spec fn spec_ws_cpu(w: WorkspaceV) -> Seq<char> {
    match w.stats {
        Option::Some(s) => match s.cpu {
            Option::Some(c) => spec_format_cpu(c),
            Option::None => "-"@,
        },
        Option::None => "-"@,
    }
}

/// The memory cell of a workspace: `-` when no stats were sampled.
pub open spec fn spec_ws_mem(w: WorkspaceV) -> Seq<char> {
    match w.stats {
        Option::Some(s) => spec_format_bytes(s.ram),
        Option::None => "-"@,
    }
}

/// Compute the visible fields of one workspace row.
pub fn ws_fields(ws: &Workspace) -> (r: WsFields)
    ensures
        r.name@ == spec_ws_name(ws.deep_view()),
        r.project@ == ws.project@,
        r.status@ == spec_status_str(ws.status),
        r.cpu@ == spec_ws_cpu(ws.deep_view()),
        r.mem@ == spec_ws_mem(ws.deep_view()),
{
    let base = crate::slug::basename(ws.path.as_str());
    let name = if ws.dirty {
        let mut n = String::from_str(base);
        n.push('*');
        n
    } else {
        String::from_str(base)
    };
    let cpu = match &ws.stats {
        Option::Some(s) => match s.cpu {
            Option::Some(c) => format_cpu(c),
            Option::None => String::from_str("-"),
        },
        Option::None => String::from_str("-"),
    };
    let mem = match &ws.stats {
        Option::Some(s) => format_bytes(s.ram),
        Option::None => String::from_str("-"),
    };
    WsFields {
        name,
        project: ws.project.clone(),
        status: String::from_str(ws.status.as_display()),
        cpu,
        mem,
    }
}

/// The table rows of one workspace: a first row with its fields and first
/// exec session, then one continuation row per further session with the
/// field cells blank; a workspace without sessions has `-` in the session
/// column.
pub open spec fn spec_ws_rows(w: WorkspaceV) -> Seq<Seq<Seq<char>>> {
    if w.execs.len() == 0 {
        seq![
            seq![
                spec_ws_name(w),
                w.project,
                spec_status_str(w.status),
                spec_ws_cpu(w),
                spec_ws_mem(w),
                "-"@,
            ],
        ]
    } else {
        Seq::new(
            w.execs.len(),
            |i: int|
                if i == 0 {
                    seq![
                        spec_ws_name(w),
                        w.project,
                        spec_status_str(w.status),
                        spec_ws_cpu(w),
                        spec_ws_mem(w),
                        spec_format_exec(w.execs[0].command),
                    ]
                } else {
                    seq![""@, ""@, ""@, ""@, ""@, spec_format_exec(w.execs[i].command)]
                },
        )
    }
}

/// The table rows of one workspace, as executable code; each row has
/// exactly six cells.
#[verifier::loop_isolation(false)]
pub fn ws_rows(ws: &Workspace) -> (r: Vec<Vec<String>>)
    ensures
        r.deep_view() == spec_ws_rows(ws.deep_view()),
        forall|i: int| 0 <= i < r.deep_view().len() ==> (#[trigger] r.deep_view()[i]).len() == 6,
{
    let f = ws_fields(ws);
    let mut rows: Vec<Vec<String>> = Vec::new();
    if ws.execs.len() == 0 {
        let mut cells: Vec<String> = Vec::new();
        cells.push(f.name);
        cells.push(f.project);
        cells.push(f.status);
        cells.push(f.cpu);
        cells.push(f.mem);
        cells.push(String::from_str("-"));
        rows.push(cells);
        proof {
            assert(rows.deep_view()[0] =~= spec_ws_rows(ws.deep_view())[0]);
            assert(rows.deep_view() =~= spec_ws_rows(ws.deep_view()));
        }
        return rows;
    }
    let mut i: usize = 0;
    while i < ws.execs.len()
        invariant
            0 <= i <= ws.execs@.len(),
            ws.execs@.len() > 0,
            rows.deep_view() == spec_ws_rows(ws.deep_view()).take(i as int),
            forall|k: int|
                0 <= k < rows.deep_view().len() ==> (#[trigger] rows.deep_view()[k]).len() == 6,
        decreases ws.execs@.len() - i,
    {
        let cmd = format_exec(&ws.execs[i]);
        let mut cells: Vec<String> = Vec::new();
        if i == 0 {
            cells.push(f.name.clone());
            cells.push(f.project.clone());
            cells.push(f.status.clone());
            cells.push(f.cpu.clone());
            cells.push(f.mem.clone());
            cells.push(cmd);
        } else {
            cells.push(String::new());
            cells.push(String::new());
            cells.push(String::new());
            cells.push(String::new());
            cells.push(String::new());
            cells.push(cmd);
        }
        let ghost old_dv = rows.deep_view();
        let ghost cdv = cells.deep_view();
        proof {
            let w = ws.deep_view();
            let srow = spec_ws_rows(w)[i as int];
            assert(w.execs.len() == ws.execs@.len());
            assert(cdv.len() == 6);
            assert(w.execs[i as int] == ws.execs@[i as int].deep_view());
            assert(w.execs[i as int].command == ws.execs@[i as int].command.deep_view());
            assert(cdv[5] == spec_format_exec(w.execs[i as int].command));
            if i == 0 {
                assert(cdv[0] == spec_ws_name(w));
                assert(cdv[1] == w.project);
                assert(cdv[2] == spec_status_str(w.status));
                assert(cdv[3] == spec_ws_cpu(w));
                assert(cdv[4] == spec_ws_mem(w));
            } else {
                reveal_strlit("");
                assert(cdv[0] == ""@);
            }
            assert(cdv =~= srow);
        }
        rows.push(cells);
        proof {
            assert(rows.deep_view() =~= old_dv.push(cdv));
            assert(spec_ws_rows(ws.deep_view()).take(i + 1) =~= old_dv.push(cdv));
        }
        i += 1;
    }
    proof {
        assert(spec_ws_rows(ws.deep_view()).take(ws.execs@.len() as int) =~= spec_ws_rows(
            ws.deep_view(),
        ));
    }
    rows
}

/// The header row of the workspace table.
pub open spec fn spec_header_row() -> Seq<Seq<char>> {
    seq!["NAME"@, "PROJECT"@, "STATUS"@, "CPU"@, "MEM"@, "EXECS"@]
}

/// The rows of all workspaces, concatenated in order.
pub open spec fn spec_rows_cat(ws: Seq<WorkspaceV>) -> Seq<Seq<Seq<char>>>
    decreases ws.len(),
{
    if ws.len() == 0 {
        Seq::empty()
    } else {
        spec_rows_cat(ws.drop_last()) + spec_ws_rows(ws.last())
    }
}

/// Render the full workspace table with its header row. A table is always
/// produced — the fixed layout is well-formed — and the text is the
/// `tabular` alignment of the header row followed by every workspace's
/// rows, under that layout.
#[verifier::loop_isolation(false)]
pub fn workspace_table(workspaces: &Vec<Workspace>) -> (r: Result<String, Error>)
    ensures
        r is Ok,
        r matches Ok(text) ==> text@ == rendered_table(
            spec_table_layout(),
            seq![spec_header_row()] + spec_rows_cat(workspaces.deep_view()),
        ),
{
    let layout = "{:<}  {:<}  {:<}  {:>}  {:>}  {:<}";
    let mut t = match table_new_safe(layout) {
        Ok(t) => t,
        Err(_) => { return Err(Error::Msg(String::from_str("malformed table layout"))) },
    };
    if table_column_count(&t) != 6 {
        return Err(Error::Msg(String::from_str("table layout has unexpected column count")));
    }
    let mut header: Vec<String> = Vec::new();
    header.push(String::from_str("NAME"));
    header.push(String::from_str("PROJECT"));
    header.push(String::from_str("STATUS"));
    header.push(String::from_str("CPU"));
    header.push(String::from_str("MEM"));
    header.push(String::from_str("EXECS"));
    proof {
        assert(header.deep_view() =~= spec_header_row());
    }
    let hr = row_of_cells(&header);
    table_add_row(&mut t, hr);
    let ghost wdv = workspaces.deep_view();
    let mut i: usize = 0;
    proof {
        assert(table_rows(t) =~= seq![spec_header_row()] + spec_rows_cat(wdv.take(0)));
    }
    while i < workspaces.len()
        invariant
            0 <= i <= wdv.len(),
            table_cols(t) == 6,
            table_spec(t) == spec_table_layout(),
            table_rows(t) == seq![spec_header_row()] + spec_rows_cat(wdv.take(i as int)),
        decreases wdv.len() - i,
    {
        proof {
            assert(wdv.take(i + 1).drop_last() =~= wdv.take(i as int));
            assert(wdv.take(i + 1).last() == wdv[i as int]);
        }
        let rows = ws_rows(&workspaces[i]);
        let ghost rdv = rows.deep_view();
        let ghost before = table_rows(t);
        let mut j: usize = 0;
        while j < rows.len()
            invariant
                0 <= j <= rdv.len(),
                rows.deep_view() == rdv,
                rdv == spec_ws_rows(wdv[i as int]),
                forall|k: int| 0 <= k < rdv.len() ==> (#[trigger] rdv[k]).len() == 6,
                table_cols(t) == 6,
                table_spec(t) == spec_table_layout(),
                table_rows(t) == before + rdv.take(j as int),
            decreases rdv.len() - j,
        {
            proof {
                assert(rdv.take(j + 1).drop_last() =~= rdv.take(j as int));
                assert(rdv.take(j + 1).last() == rdv[j as int]);
            }
            let row = row_of_cells(&rows[j]);
            proof {
                assert(row_cells(row) == rdv[j as int]);
            }
            table_add_row(&mut t, row);
            proof {
                assert(table_rows(t) =~= before + rdv.take(j + 1));
            }
            j += 1;
        }
        proof {
            assert(rdv.take(rdv.len() as int) =~= rdv);
            assert((seq![spec_header_row()] + spec_rows_cat(wdv.take(i as int))) + rdv
                =~= seq![spec_header_row()] + spec_rows_cat(wdv.take(i + 1)));
        }
        i += 1;
    }
    proof {
        assert(wdv.take(wdv.len() as int) =~= wdv);
    }
    Ok(table_render(&t))
}

/// The session column of a compact row: the sessions' command lines joined
/// by `, `, or `-` when there are none.
pub open spec fn spec_execs_joined(execs: Seq<ExecSessionV>) -> Seq<char>
    decreases execs.len(),
{
    if execs.len() == 0 {
        "-"@
    } else if execs.len() == 1 {
        spec_format_exec(execs[0].command)
    } else {
        spec_execs_joined(execs.drop_last()) + ", "@ + spec_format_exec(execs.last().command)
    }
}

/// The one compact row of a workspace: its fields with all exec sessions
/// joined into the final cell.
pub open spec fn spec_ws_row_compact(w: WorkspaceV) -> Seq<Seq<char>> {
    seq![
        spec_ws_name(w),
        w.project,
        spec_status_str(w.status),
        spec_ws_cpu(w),
        spec_ws_mem(w),
        spec_execs_joined(w.execs),
    ]
}

/// The compact row of one workspace, as executable code.
#[verifier::loop_isolation(false)]
#[verifier::rlimit(30)]
pub fn ws_row_compact(ws: &Workspace) -> (r: Vec<String>)
    ensures
        r.deep_view() == spec_ws_row_compact(ws.deep_view()),
{
    let f = ws_fields(ws);
    let execs_cell = if ws.execs.len() == 0 {
        String::from_str("-")
    } else {
        let mut acc = format_exec(&ws.execs[0]);
        let mut i: usize = 1;
        while i < ws.execs.len()
            invariant
                1 <= i <= ws.execs@.len(),
                ws.execs@.len() > 0,
                acc@ == spec_execs_joined(ws.execs.deep_view().take(i as int)),
            decreases ws.execs@.len() - i,
        {
            proof {
                assert(ws.execs.deep_view().take(i + 1).drop_last() =~= ws.execs.deep_view().take(
                    i as int,
                ));
                assert(ws.execs.deep_view().take(i + 1).last() == ws.execs.deep_view()[i as int]);
            }
            acc.append(", ");
            let cmd = format_exec(&ws.execs[i]);
            acc.append(cmd.as_str());
            i += 1;
        }
        proof {
            assert(ws.execs.deep_view().take(ws.execs@.len() as int) =~= ws.execs.deep_view());
        }
        acc
    };
    let mut cells: Vec<String> = Vec::new();
    cells.push(f.name);
    cells.push(f.project);
    cells.push(f.status);
    cells.push(f.cpu);
    cells.push(f.mem);
    cells.push(execs_cell);
    proof {
        assert(cells.deep_view() =~= spec_ws_row_compact(ws.deep_view()));
    }
    cells
}

/// The compact rows of all workspaces, in order.
pub open spec fn spec_compact_rows(ws: Seq<WorkspaceV>) -> Seq<Seq<Seq<char>>> {
    ws.map_values(|w: WorkspaceV| spec_ws_row_compact(w))
}

/// Pair each workspace with its aligned table line, for an interactive
/// picker: the i-th workspace gets the i-th line of the compact rendering
/// (no header), and pairs stop at the shorter of the two lists. The pairing
/// is always produced — the fixed layout is well-formed.
#[verifier::loop_isolation(false)]
pub fn picker_items(workspaces: Vec<Workspace>) -> (r: Result<Vec<(Workspace, String)>, Error>)
    ensures
        r is Ok,
        r matches Ok(items) ==> {
            let lines = spec_lines(
                rendered_table(
                    spec_table_layout(),
                    spec_compact_rows(workspaces.deep_view()),
                ),
            );
            &&& items.deep_view().len() == (if workspaces.deep_view().len() <= lines.len() {
                workspaces.deep_view().len() as int
            } else {
                lines.len() as int
            })
            &&& (forall|k: int|
                0 <= k < items.deep_view().len() ==> (#[trigger] items.deep_view()[k]).0
                    == workspaces.deep_view()[k] && items.deep_view()[k].1 == lines[k])
        },
{
    let layout = "{:<}  {:<}  {:<}  {:>}  {:>}  {:<}";
    let mut t = match table_new_safe(layout) {
        Ok(t) => t,
        Err(_) => { return Err(Error::Msg(String::from_str("malformed table layout"))) },
    };
    if table_column_count(&t) != 6 {
        return Err(Error::Msg(String::from_str("table layout has unexpected column count")));
    }
    let ghost wdv = workspaces.deep_view();
    let mut i: usize = 0;
    proof {
        assert(table_rows(t) =~= spec_compact_rows(wdv).take(0));
    }
    while i < workspaces.len()
        invariant
            0 <= i <= wdv.len(),
            table_cols(t) == 6,
            table_spec(t) == spec_table_layout(),
            table_rows(t) == spec_compact_rows(wdv).take(i as int),
        decreases wdv.len() - i,
    {
        let cells = ws_row_compact(&workspaces[i]);
        let row = row_of_cells(&cells);
        proof {
            assert(row_cells(row) == spec_ws_row_compact(wdv[i as int]));
        }
        table_add_row(&mut t, row);
        proof {
            assert(table_rows(t) =~= spec_compact_rows(wdv).take(i + 1));
        }
        i += 1;
    }
    proof {
        assert(spec_compact_rows(wdv).take(wdv.len() as int) =~= spec_compact_rows(wdv));
    }
    let rendered = table_render(&t);
    let lines = split_lines(rendered.as_str());
    let ghost ldv = lines.deep_view();
    let mut items: Vec<(Workspace, String)> = Vec::new();
    let mut rest = workspaces;
    let ghost mut done: int = 0;
    proof {
        assert(wdv.skip(0) =~= wdv);
    }
    while rest.len() > 0 && items.len() < lines.len()
        invariant
            0 <= done <= wdv.len(),
            done <= ldv.len(),
            items@.len() == done,
            lines@.len() == ldv.len(),
            lines.deep_view() == ldv,
            rest.deep_view() == wdv.skip(done),
            forall|k: int|
                0 <= k < done ==> (#[trigger] items.deep_view()[k]).0 == wdv[k]
                    && items.deep_view()[k].1 == ldv[k],
        decreases rest@.len(),
    {
        let ghost rest_before = rest@;
        let w = rest.remove(0);
        proof {
            assert(w == rest_before[0]);
            assert(rest_before[0].deep_view() == wdv.skip(done)[0]);
            assert(w.deep_view() == wdv[done]);
            assert forall|k: int| 0 <= k < rest@.len() implies rest.deep_view()[k] == wdv.skip(
                done + 1,
            )[k] by {
                assert(rest@[k] == rest_before[k + 1]);
                assert(rest_before[k + 1].deep_view() == wdv.skip(done)[k + 1]);
            }
            assert(rest.deep_view() =~= wdv.skip(done + 1));
        }
        let line = lines[items.len()].clone();
        proof {
            assert(line@ == ldv[done]);
        }
        let ghost wv2 = w.deep_view();
        let ghost lv2 = line@;
        let ghost old_items = items@;
        let ghost old_idv = items.deep_view();
        items.push((w, line));
        proof {
            assert(items@[done as int].deep_view() == (wv2, lv2));
            assert forall|k: int| 0 <= k < done + 1 implies (#[trigger] items.deep_view()[k]).0
                == wdv[k] && items.deep_view()[k].1 == ldv[k] by {
                if k < done {
                    assert(items@[k] == old_items[k]);
                    assert(items.deep_view()[k] == items@[k].deep_view());
                    assert(old_idv[k] == old_items[k].deep_view());
                    assert(old_idv[k].0 == wdv[k] && old_idv[k].1 == ldv[k]);
                } else {
                    assert(items.deep_view()[k] == items@[k].deep_view());
                }
            }
            done = done + 1;
        }
    }
    proof {
        if rest@.len() == 0 {
            assert(done == wdv.len());
        } else {
            assert(done == ldv.len());
        }
    }
    Ok(items)
}

} // verus!

//! The command layer: the commands' argument records, and the verified
//! decisions each command makes before any process or engine call.

use vstd::prelude::*;

use crate::errors::Error;
use crate::model::Workspace;
use crate::slug::{basename_of, compose_project_name, spec_slug};
use crate::status::Status;
use crate::strutil::{concat_str, dec_rep, str_eq, u64_string};

verus! {

/// Arguments of `up`: spin up a workspace, or restart an existing one.
#[derive(Debug)]
pub struct Up {
    /// Workspace name; the current working directory's when absent.
    pub name: Option<String>,
    /// Volumes to copy from the root workspace.
    pub copy: Option<Vec<String>>,
    /// Forward configured ports once up.
    pub forward: bool,
    /// Detach the worktree rather than creating a branch.
    pub detach: bool,
    /// Exec into the workspace once up, with the given command.
    pub exec_cmd: Option<Vec<String>>,
}

/// Arguments of `exec`: exec into a running workspace.
#[derive(Debug)]
pub struct Exec {
    pub project: Option<String>,
    pub name: Option<String>,
    pub cmd: Vec<String>,
}

/// Arguments of `fwd`: forward a local TCP port into a workspace.
#[derive(Debug)]
pub struct Fwd {
    pub project: Option<String>,
    pub name: Option<String>,
    /// Host port to listen on; the configured one when absent.
    pub port: Option<u16>,
}

/// Arguments of `list`: list active workspaces.
#[derive(Debug)]
pub struct List {
    pub project: Option<Option<String>>,
}

/// Arguments of `prune`: clean up workspaces not actively in use.
#[derive(Debug)]
pub struct Prune {
    pub project: Option<String>,
    /// Skip the confirmation prompt.
    pub yes: bool,
}

/// Arguments of `kill`: destroy a workspace by name, dirty or not.
#[derive(Debug)]
pub struct Kill {
    pub name: String,
    pub project: Option<String>,
    /// Force-remove the worktree.
    pub force: bool,
}

/// Arguments of `destroy`: destroy the current workspace.
#[derive(Debug)]
pub struct Destroy {
    /// Force-remove the worktree, even if dirty.
    pub force: bool,
}

/// Arguments of `copy`: copy named volumes between workspaces.
#[derive(Debug)]
pub struct Copy {
    pub project: Option<String>,
    pub from: Option<String>,
    pub to: Option<String>,
    pub volumes: Vec<String>,
}

/// Arguments of `go`: print the `cd` into a workspace for the shell
/// wrapper.
#[derive(Debug)]
pub struct Go {
    pub workspace: String,
}

/// Arguments of `show`: print a single value.
#[derive(Debug)]
pub struct Show {
    pub command: ShowCommands,
}

/// The values `show` can print.
#[derive(Debug)]
pub enum ShowCommands {
    /// Currently-forwarded ports of a workspace.
    Ports(Ports),
    /// The current workspace name.
    Workspace(ShowWorkspace),
}

/// Arguments of `show ports`.
#[derive(Debug)]
pub struct Ports {
    pub name: Option<String>,
}

/// Arguments of `show workspace`.
#[derive(Debug)]
pub struct ShowWorkspace;

/// Arguments of `compose`: run `docker compose` against a workspace.
#[derive(Debug)]
pub struct Compose {
    pub workspace: Option<String>,
    pub args: Vec<String>,
}

/// The subcommands of the tool.
#[derive(Debug)]
pub enum Commands {
    Up(Up),
    Exec(Exec),
    Fwd(Fwd),
    List(List),
    Prune(Prune),
    Kill(Kill),
    Copy(Copy),
    Show(Show),
}

/// The parsed command line.
#[derive(Debug)]
pub struct Cli {
    pub project: Option<String>,
    pub command: Commands,
}

/// The resolved context a command runs in: the selected project.
#[derive(Debug)]
pub struct State {
    pub project_name: String,
    pub project: crate::config::Project,
}

/// Index of the first workspace whose path's basename is the given name,
/// or `-1`.
pub open spec fn spec_find_ws(ws: Seq<crate::model::WorkspaceV>, name: Seq<char>) -> int
    decreases ws.len(),
{
    if ws.len() == 0 {
        -1
    } else if basename_of(ws.first().path) == name {
        0
    } else {
        let r = spec_find_ws(ws.drop_first(), name);
        if r == -1 {
            -1
        } else {
            r + 1
        }
    }
}

pub proof fn lemma_find_ws(ws: Seq<crate::model::WorkspaceV>, name: Seq<char>)
    ensures
        -1 <= spec_find_ws(ws, name) < ws.len(),
        spec_find_ws(ws, name) == -1 ==> forall|j: int|
            0 <= j < ws.len() ==> basename_of((#[trigger] ws[j]).path) != name,
        spec_find_ws(ws, name) >= 0 ==> basename_of(ws[spec_find_ws(ws, name)].path) == name
            && forall|j: int|
            0 <= j < spec_find_ws(ws, name) ==> basename_of((#[trigger] ws[j]).path) != name,
    decreases ws.len(),
{
    if ws.len() > 0 && basename_of(ws.first().path) != name {
        lemma_find_ws(ws.drop_first(), name);
        assert(forall|j: int| 1 <= j < ws.len() ==> (#[trigger] ws[j]) == ws.drop_first()[j - 1]);
    }
}

/// Select the workspace a named operation targets: the first whose
/// basename matches. A missing name is `NotFound`; the workspace must be
/// running and must have a container, and its first container is the
/// primary one.
#[verifier::loop_isolation(false)]
pub fn exec_target(workspaces: Vec<Workspace>, name: &str) -> (r: Result<(String, String), Error>)
    ensures
        ({
            let wdv = workspaces.deep_view();
            let i = spec_find_ws(wdv, name@);
            match r {
                Result::Ok(t) => {
                    &&& i >= 0
                    &&& wdv[i].status == Status::Running
                    &&& wdv[i].container_ids.len() > 0
                    &&& t.0@ == wdv[i].path
                    &&& t.1@ == wdv[i].container_ids[0]
                },
                Result::Err(e) => {
                    &&& (i == -1 && e matches Error::NotFound(_)) || (i >= 0 && wdv[i].status
                        != Status::Running && (e matches Error::Msg(_))) || (i >= 0
                        && wdv[i].status == Status::Running && wdv[i].container_ids.len() == 0 && (
                    e matches Error::Msg(_)))
                },
            }
        }),
{
    let ghost wdv = workspaces.deep_view();
    proof {
        lemma_find_ws(wdv, name@);
    }
    let mut j: usize = 0;
    while j < workspaces.len()
        invariant
            0 <= j <= wdv.len(),
            forall|k: int| 0 <= k < j ==> basename_of((#[trigger] wdv[k]).path) != name@,
        decreases wdv.len() - j,
    {
        let base = crate::slug::basename(workspaces[j].path.as_str());
        if str_eq(base, name) {
            proof {
                let i = spec_find_ws(wdv, name@);
                assert(basename_of(wdv[j as int].path) == name@);
                assert(i != -1);
                if i < j {
                    assert(basename_of(wdv[i].path) != name@);
                }
                if i > j as int {
                    assert(basename_of(wdv[j as int].path) != name@);
                }
                assert(i == j as int);
            }
            let ws = &workspaces[j];
            if !matches!(ws.status, Status::Running) {
                return Result::Err(Error::Msg(String::from_str("workspace is not running")));
            }
            if ws.container_ids.len() == 0 {
                return Result::Err(Error::Msg(String::from_str("no containers for workspace")));
            }
            proof {
                assert(wdv[j as int].container_ids[0] == ws.container_ids@[0]@);
            }
            return Result::Ok((ws.path.clone(), ws.container_ids[0].clone()));
        }
        j += 1;
    }
    proof {
        let i = spec_find_ws(wdv, name@);
        if i >= 0 {
            assert(basename_of(wdv[i].path) != name@);
        }
    }
    Result::Err(Error::NotFound(String::from_str(name)))
}

/// The workspaces that are currently running, in order.
pub open spec fn spec_running(ws: Seq<crate::model::WorkspaceV>) -> Seq<crate::model::WorkspaceV>
    decreases ws.len(),
{
    if ws.len() == 0 {
        Seq::empty()
    } else {
        let rest = spec_running(ws.drop_last());
        if ws.last().status == Status::Running {
            rest.push(ws.last())
        } else {
            rest
        }
    }
}

/// Keep only the running workspaces.
#[verifier::loop_isolation(false)]
pub fn retain_running(workspaces: Vec<Workspace>) -> (r: Vec<Workspace>)
    ensures
        r.deep_view() == spec_running(workspaces.deep_view()),
{
    let ghost wdv = workspaces.deep_view();
    let mut out: Vec<Workspace> = Vec::new();
    let mut rest = workspaces;
    let ghost mut done: int = 0;
    proof {
        assert(rest.deep_view() =~= wdv.skip(0));
        assert(out.deep_view() =~= spec_running(wdv.take(0)));
    }
    while rest.len() > 0
        invariant
            0 <= done <= wdv.len(),
            rest.deep_view() == wdv.skip(done),
            out.deep_view() == spec_running(wdv.take(done)),
        decreases rest@.len(),
    {
        let ghost rest_before = rest@;
        let w = rest.remove(0);
        proof {
            assert(w == rest_before[0]);
            assert(rest_before[0].deep_view() == wdv.skip(done)[0]);
            assert(w.deep_view() == wdv[done]);
            assert forall|k: int| 0 <= k < rest@.len() implies rest.deep_view()[k] == wdv.skip(
                done + 1,
            )[k] by {
                assert(rest@[k] == rest_before[k + 1]);
                assert(rest_before[k + 1].deep_view() == wdv.skip(done)[k + 1]);
            }
            assert(rest.deep_view() =~= wdv.skip(done + 1));
            assert(wdv.take(done + 1).drop_last() =~= wdv.take(done));
            assert(wdv.take(done + 1).last() == wdv[done]);
        }
        let keep = matches!(w.status, Status::Running);
        if keep {
            let ghost odv = out.deep_view();
            let ghost wv = w.deep_view();
            out.push(w);
            proof {
                assert(out.deep_view() =~= odv.push(wv));
            }
        }
        proof {
            done = done + 1;
        }
    }
    proof {
        assert(wdv.take(wdv.len() as int) =~= wdv);
    }
    out
}

/// Pick a workspace from a listing: an empty listing fails with the given
/// message; a single workspace is picked directly, no choice needed; more
/// need the caller's choice (an index from an interactive picker), and a
/// missing or out-of-range choice fails.
pub fn pick_workspace_any(
    workspaces: Vec<Workspace>,
    empty_msg: &str,
    choice: Option<usize>,
) -> (r: Result<Workspace, Error>)
    ensures
        ({
            let wdv = workspaces.deep_view();
            match r {
                Result::Ok(w) => (wdv.len() == 1 && w.deep_view() == wdv[0]) || (wdv.len() > 1
                    && choice is Some && choice->0 < wdv.len() && w.deep_view()
                    == wdv[choice->0 as int]),
                Result::Err(e) => {
                    &&& (wdv.len() == 0 && (e matches Error::Msg(m) && m@ == empty_msg@)) || (
                    wdv.len() > 1 && (choice is None || choice->0 >= wdv.len()) && (e
                        matches Error::Msg(_)))
                },
            }
        }),
{
    let ghost wdv = workspaces.deep_view();
    let mut workspaces = workspaces;
    if workspaces.len() == 0 {
        return Result::Err(Error::Msg(String::from_str(empty_msg)));
    }
    if workspaces.len() == 1 {
        let w = workspaces.remove(0);
        proof {
            assert(w.deep_view() == wdv[0]);
        }
        return Result::Ok(w);
    }
    match choice {
        Option::Some(i) => {
            if i < workspaces.len() {
                let w = workspaces.remove(i);
                proof {
                    assert(w.deep_view() == wdv[i as int]);
                }
                Result::Ok(w)
            } else {
                Result::Err(Error::Msg(String::from_str("no workspace selected")))
            }
        },
        Option::None => Result::Err(Error::Msg(String::from_str("no workspace selected"))),
    }
}

/// Which workspace a listing and a choice pick: the single one when there
/// is exactly one, the chosen index when there are more and the choice is
/// in range, and none (`-1`) otherwise.
pub open spec fn spec_picked_idx(len: int, choice: Option<usize>) -> int {
    if len == 1 {
        0
    } else if len > 1 && choice is Some && (choice->0 as int) < len {
        choice->0 as int
    } else {
        -1
    }
}

/// Pick a workspace and return its path, primary container id and project:
/// the same zero/one/many case split as [`pick_workspace_any`], failing
/// also when the picked workspace has no container. An empty listing fails
/// with "no running workspaces found"; with several workspaces, a missing
/// or out-of-range choice fails.
pub fn pick_workspace(workspaces: Vec<Workspace>, choice: Option<usize>) -> (r: Result<
    (String, String, String),
    Error,
>)
    ensures
        ({
            let wdv = workspaces.deep_view();
            let i = spec_picked_idx(wdv.len() as int, choice);
            match r {
                Result::Ok(t) => {
                    &&& i >= 0
                    &&& wdv[i].container_ids.len() > 0
                    &&& t.0@ == wdv[i].path
                    &&& t.1@ == wdv[i].container_ids[0]
                    &&& t.2@ == wdv[i].project
                },
                Result::Err(e) => {
                    ||| (wdv.len() == 0 && (e matches Error::Msg(m) && m@
                        == "no running workspaces found"@))
                    ||| (wdv.len() > 1 && i == -1 && (e matches Error::Msg(_)))
                    ||| (i >= 0 && wdv[i].container_ids.len() == 0 && (e matches Error::Msg(_)))
                },
            }
        }),
{
    let ghost wdv = workspaces.deep_view();
    let picked = pick_workspace_any(workspaces, "no running workspaces found", choice);
    match picked {
        Result::Ok(w) => {
            proof {
                assert(w.deep_view() == wdv[spec_picked_idx(wdv.len() as int, choice)]);
            }
            if w.container_ids.len() == 0 {
                return Result::Err(Error::Msg(String::from_str("no containers for workspace")));
            }
            proof {
                assert(w.deep_view().container_ids[0] == w.container_ids@[0]@);
            }
            Result::Ok((w.path.clone(), w.container_ids[0].clone(), w.project.clone()))
        },
        Result::Err(e) => Result::Err(e),
    }
}


/// The `-f` arguments of the compose files, each resolved under the
/// worktree's `.devcontainer` directory.
pub open spec fn spec_compose_file_args(files: Seq<Seq<char>>, worktree: Seq<char>) -> Seq<
    Seq<char>,
>
    decreases files.len(),
{
    if files.len() == 0 {
        Seq::empty()
    } else {
        spec_compose_file_args(files.drop_last(), worktree) + seq![
            "-f"@,
            worktree + "/.devcontainer/"@ + files.last(),
        ]
    }
}

/// The common head of every `docker compose` invocation for a workspace:
/// plain progress, the workspace's slug as project name, every configured
/// compose file under the worktree, and the override file last.
pub open spec fn spec_compose_base_args(
    files: Seq<Seq<char>>,
    worktree: Seq<char>,
    override_file: Seq<char>,
) -> Seq<Seq<char>> {
    seq!["compose"@, "--progress"@, "plain"@, "-p"@, spec_slug(worktree)]
        + spec_compose_file_args(files, worktree) + seq!["-f"@, override_file]
}

/// Build the common `docker compose` argument head for a workspace.
#[verifier::loop_isolation(false)]
pub fn compose_base_args(compose: &crate::devcontainer::Compose, worktree_path: &str, override_file: &str) -> (r: Vec<
    String,
>)
    ensures
        r.deep_view() == spec_compose_base_args(
            compose.docker_compose_file.deep_view(),
            worktree_path@,
            override_file@,
        ),
{
    let ghost fdv = compose.docker_compose_file.deep_view();
    let mut args: Vec<String> = Vec::new();
    args.push(String::from_str("compose"));
    args.push(String::from_str("--progress"));
    args.push(String::from_str("plain"));
    args.push(String::from_str("-p"));
    args.push(compose_project_name(worktree_path));
    let ghost head = seq!["compose"@, "--progress"@, "plain"@, "-p"@, spec_slug(worktree_path@)];
    proof {
        assert(args.deep_view() =~= head + spec_compose_file_args(fdv.take(0), worktree_path@));
    }
    let mut i: usize = 0;
    while i < compose.docker_compose_file.len()
        invariant
            0 <= i <= fdv.len(),
            args.deep_view() == head + spec_compose_file_args(fdv.take(i as int), worktree_path@),
        decreases fdv.len() - i,
    {
        proof {
            assert(fdv.take(i + 1).drop_last() =~= fdv.take(i as int));
            assert(fdv.take(i + 1).last() == fdv[i as int]);
        }
        let ghost dv0 = args.deep_view();
        args.push(String::from_str("-f"));
        let resolved = concat_str(
            concat_str(String::from_str(worktree_path), "/.devcontainer/"),
            compose.docker_compose_file[i].as_str(),
        );
        let ghost rv = resolved@;
        args.push(resolved);
        proof {
            assert(args.deep_view() =~= dv0.push("-f"@).push(rv));
            assert(args.deep_view() =~= head + spec_compose_file_args(
                fdv.take(i + 1),
                worktree_path@,
            ));
        }
        i += 1;
    }
    proof {
        assert(fdv.take(fdv.len() as int) =~= fdv);
    }
    args.push(String::from_str("-f"));
    args.push(String::from_str(override_file));
    proof {
        assert(args.deep_view() =~= spec_compose_base_args(fdv, worktree_path@, override_file@));
    }
    args
}

/// Whether a service name occurs in the listing.
pub open spec fn spec_has_service(services: Seq<Seq<char>>, name: Seq<char>) -> bool {
    exists|i: int| 0 <= i < services.len() && services[i] == name
}

/// The services `compose up` starts: the configured run services, with the
/// primary service appended when it is not among them; none listed when no
/// run services are configured (compose then starts everything).
pub open spec fn spec_up_services(
    run_services: Option<Seq<Seq<char>>>,
    service: Seq<char>,
) -> Seq<Seq<char>> {
    match run_services {
        Option::None => Seq::empty(),
        Option::Some(rs) => if spec_has_service(rs, service) {
            rs
        } else {
            rs.push(service)
        },
    }
}

/// The trailing arguments of `docker compose ... up`: detached build, plus
/// the services to start.
pub open spec fn spec_compose_up_tail(
    run_services: Option<Seq<Seq<char>>>,
    service: Seq<char>,
) -> Seq<Seq<char>> {
    seq!["up"@, "-d"@, "--build"@] + spec_up_services(run_services, service)
}

/// Build the trailing arguments of `docker compose ... up`.
#[verifier::loop_isolation(false)]
pub fn compose_up_tail(compose: &crate::devcontainer::Compose) -> (r: Vec<String>)
    ensures
        r.deep_view() == spec_compose_up_tail(
            compose.run_services.deep_view(),
            compose.service@,
        ),
{
    let mut args: Vec<String> = Vec::new();
    args.push(String::from_str("up"));
    args.push(String::from_str("-d"));
    args.push(String::from_str("--build"));
    let ghost head = seq!["up"@, "-d"@, "--build"@];
    proof {
        assert(args.deep_view() =~= head);
    }
    match &compose.run_services {
        Option::None => {
            proof {
                assert(args.deep_view() =~= head + Seq::<Seq<char>>::empty());
            }
        },
        Option::Some(rs) => {
            let ghost rdv = rs.deep_view();
            let mut listed = false;
            let mut j: usize = 0;
            while j < rs.len()
                invariant
                    0 <= j <= rdv.len(),
                    listed <==> exists|k: int| 0 <= k < j && rdv[k] == compose.service@,
                decreases rdv.len() - j,
            {
                if str_eq(rs[j].as_str(), compose.service.as_str()) {
                    proof {
                        assert(rdv[j as int] == compose.service@);
                    }
                    listed = true;
                }
                j += 1;
            }
            proof {
                if listed {
                    assert(spec_has_service(rdv, compose.service@));
                } else {
                    if spec_has_service(rdv, compose.service@) {
                        let w = choose|w: int|
                            0 <= w < rdv.len() && #[trigger] rdv[w] == compose.service@;
                        assert(exists|k: int| 0 <= k < rdv.len() && rdv[k] == compose.service@);
                    }
                    assert(!spec_has_service(rdv, compose.service@));
                }
            }
            let mut i: usize = 0;
            while i < rs.len()
                invariant
                    0 <= i <= rdv.len(),
                    args.deep_view() == head + rdv.take(i as int),
                decreases rdv.len() - i,
            {
                proof {
                    assert(rdv.take(i + 1).drop_last() =~= rdv.take(i as int));
                    assert(rdv.take(i + 1).last() == rdv[i as int]);
                }
                let ghost dv0 = args.deep_view();
                args.push(rs[i].clone());
                proof {
                    assert(args.deep_view() =~= dv0.push(rdv[i as int]));
                }
                i += 1;
            }
            proof {
                assert(rdv.take(rdv.len() as int) =~= rdv);
            }
            if !listed {
                let ghost dv1 = args.deep_view();
                args.push(compose.service.clone());
                proof {
                    assert(args.deep_view() =~= dv1.push(compose.service@));
                    assert(args.deep_view() =~= head + rdv.push(compose.service@));
                }
            }
        },
    }
    args
}

/// The trailing arguments that query the primary service's container id.
pub open spec fn spec_compose_ps_tail(service: Seq<char>) -> Seq<Seq<char>> {
    seq!["ps"@, "-q"@, service]
}

/// Build the trailing arguments of `docker compose ... ps -q <service>`.
pub fn compose_ps_tail(compose: &crate::devcontainer::Compose) -> (r: Vec<String>)
    ensures
        r.deep_view() == spec_compose_ps_tail(compose.service@),
{
    let mut args: Vec<String> = Vec::new();
    args.push(String::from_str("ps"));
    args.push(String::from_str("-q"));
    args.push(compose.service.clone());
    proof {
        assert(args.deep_view() =~= spec_compose_ps_tail(compose.service@));
    }
    args
}

/// Whether a character is trimmed from line ends: space, tab or carriage
/// return.
pub open spec fn is_trim_char(c: char) -> bool {
    c == ' ' || c == '\t' || c == '\r' || c == '\n'
}

/// The text with leading trim characters removed.
pub open spec fn spec_trim_start(s: Seq<char>) -> Seq<char>
    decreases s.len(),
{
    if s.len() > 0 && is_trim_char(s.first()) {
        spec_trim_start(s.drop_first())
    } else {
        s
    }
}

/// The text with trailing trim characters removed.
pub open spec fn spec_trim_end(s: Seq<char>) -> Seq<char>
    decreases s.len(),
{
    if s.len() > 0 && is_trim_char(s.last()) {
        spec_trim_end(s.drop_last())
    } else {
        s
    }
}

/// The text with surrounding whitespace removed.
pub open spec fn spec_trim(s: Seq<char>) -> Seq<char> {
    spec_trim_end(spec_trim_start(s))
}

proof fn lemma_trim_start_skip(s: Seq<char>, i: int)
    requires
        0 <= i <= s.len(),
        forall|k: int| 0 <= k < i ==> is_trim_char(s[k]),
    ensures
        spec_trim_start(s) == spec_trim_start(s.skip(i)),
    decreases i,
{
    if i > 0 {
        assert(is_trim_char(s.first()));
        assert(forall|k: int| 0 <= k < i - 1 ==> is_trim_char(#[trigger] s.skip(1)[k]));
        lemma_trim_start_skip(s.skip(1), i - 1);
        assert(s.drop_first() =~= s.skip(1));
        assert(s.skip(1).skip(i - 1) =~= s.skip(i));
        assert(spec_trim_start(s) == spec_trim_start(s.skip(1)));
    } else {
        assert(s.skip(0) =~= s);
    }
}

proof fn lemma_trim_end_take(s: Seq<char>, j: int)
    requires
        0 <= j <= s.len(),
        forall|k: int| j <= k < s.len() ==> is_trim_char(s[k]),
    ensures
        spec_trim_end(s) == spec_trim_end(s.take(j)),
    decreases s.len() - j,
{
    if j < s.len() {
        assert(is_trim_char(s.last()));
        assert(forall|k: int| j <= k < s.len() - 1 ==> is_trim_char(#[trigger] s.take(s.len() - 1)[k]));
        lemma_trim_end_take(s.take(s.len() - 1), j);
        assert(s.drop_last() =~= s.take(s.len() - 1));
        assert(s.take(s.len() - 1).take(j) =~= s.take(j));
        assert(spec_trim_end(s) == spec_trim_end(s.drop_last()));
    } else {
        assert(s.take(j) =~= s);
    }
}

/// Whether a character is trimmed, as executable code.
pub fn is_trim_char_exec(c: char) -> (r: bool)
    ensures
        r == is_trim_char(c),
{
    c == ' ' || c == '\t' || c == '\r' || c == '\n'
}

/// Trim surrounding whitespace from a string.
#[verifier::loop_isolation(false)]
pub fn trim(s: &str) -> (r: &str)
    ensures
        r@ == spec_trim(s@),
{
    let len = s.unicode_len();
    let mut i: usize = 0;
    while i < len && is_trim_char_exec(s.get_char(i))
        invariant
            0 <= i <= len,
            len == s@.len(),
            forall|k: int| 0 <= k < i ==> is_trim_char(s@[k]),
        decreases len - i,
    {
        i += 1;
    }
    proof {
        lemma_trim_start_skip(s@, i as int);
        if i < len {
            assert(!is_trim_char(s@.skip(i as int).first()));
        }
        assert(spec_trim_start(s@) == s@.skip(i as int));
    }
    let mut j: usize = len;
    while j > i && is_trim_char_exec(s.get_char(j - 1))
        invariant
            i <= j <= len,
            forall|k: int| j <= k < len ==> is_trim_char(s@[k]),
        decreases j,
    {
        j -= 1;
    }
    let ghost u = s@.skip(i as int);
    proof {
        assert(u.take(j - i) =~= s@.subrange(i as int, j as int));
        assert(forall|k: int| j - i <= k < u.len() ==> is_trim_char(u[k]));
        lemma_trim_end_take(u, j - i);
        if j > i {
            assert(!is_trim_char(u.take(j - i).last()));
        }
        assert(spec_trim_end(u.take(j - i)) == u.take(j - i));
    }
    s.substring_char(i, j)
}

/// Parse the output of `docker compose ps -q`: the primary container's id
/// is the first output line, trimmed; a failed command or an empty id is
/// an error.
pub fn parse_container_id(success: bool, stdout: &str) -> (r: Result<String, Error>)
    ensures
        ({
            let lines = crate::strutil::spec_lines(stdout@);
            let id = if lines.len() == 0 {
                Seq::<char>::empty()
            } else {
                spec_trim(lines[0])
            };
            match r {
                Result::Ok(cid) => success && id.len() > 0 && cid@ == id,
                Result::Err(e) => (!success || id.len() == 0) && (e matches Error::Msg(_)),
            }
        }),
{
    if !success {
        return Result::Err(Error::Msg(String::from_str("docker compose ps failed")));
    }
    let lines = crate::strutil::split_lines(stdout);
    if lines.len() == 0 {
        return Result::Err(Error::Msg(String::from_str("no container found for service")));
    }
    proof {
        assert(lines.deep_view()[0] == lines@[0]@);
    }
    let id = trim(lines[0].as_str());
    if id.unicode_len() == 0 {
        return Result::Err(Error::Msg(String::from_str("no container found for service")));
    }
    Result::Ok(String::from_str(id))
}

/// The identification labels of a workspace's compose override: the
/// worktree path, the configuration file, the managed marker, and the
/// owning project.
pub open spec fn spec_override_labels(
    local_folder: Seq<char>,
    config_file: Seq<char>,
    project: Seq<char>,
) -> Seq<Seq<char>> {
    seq![
        "devcontainer.local_folder="@ + local_folder,
        "devcontainer.config_file="@ + config_file,
        "dev.dc.managed=true"@,
        "dev.dc.project="@ + project,
    ]
}

/// Build the identification labels of a workspace's compose override.
pub fn override_labels(local_folder: &str, config_file: &str, project: &str) -> (r: Vec<String>)
    ensures
        r.deep_view() == spec_override_labels(local_folder@, config_file@, project@),
{
    let mut labels: Vec<String> = Vec::new();
    labels.push(concat_str(String::from_str("devcontainer.local_folder="), local_folder));
    labels.push(concat_str(String::from_str("devcontainer.config_file="), config_file));
    labels.push(String::from_str("dev.dc.managed=true"));
    labels.push(concat_str(String::from_str("dev.dc.project="), project));
    proof {
        assert(labels.deep_view() =~= spec_override_labels(local_folder@, config_file@, project@));
    }
    labels
}

/// The file name a workspace's compose override is written under, inside
/// the temporary directory.
pub fn override_filename(compose_name: &str) -> (r: String)
    ensures
        r@ == compose_name@ + "-override.yml"@,
{
    concat_str(String::from_str(compose_name), "-override.yml")
}

/// What a workspace cleanup runs: the compose teardown, the override file
/// to delete, and the worktree removal when asked for.
pub struct CleanupPlan {
    /// `docker` arguments taking the compose project down with volumes and
    /// orphans.
    pub compose_down: Vec<String>,
    /// File name of the workspace's compose override, to delete from the
    /// temporary directory.
    pub override_filename: String,
    /// `git` arguments removing the worktree, when it is to be removed.
    pub worktree_remove: Option<Vec<String>>,
}

/// The `docker` arguments that tear a compose project down.
pub open spec fn spec_compose_down_args(compose_name: Seq<char>) -> Seq<Seq<char>> {
    seq!["compose"@, "-p"@, compose_name, "down"@, "-v"@, "--remove-orphans"@]
}

/// The `git` arguments that remove a worktree.
pub open spec fn spec_worktree_remove_args(path: Seq<char>, force: bool) -> Seq<Seq<char>> {
    if force {
        seq!["worktree"@, "remove"@, "--force"@, path]
    } else {
        seq!["worktree"@, "remove"@, path]
    }
}

/// Plan a workspace cleanup: what the teardown must run and delete.
pub fn cleanup_plan(compose_name: &str, path: &str, remove_worktree: bool, force: bool) -> (r:
    CleanupPlan)
    ensures
        r.compose_down.deep_view() == spec_compose_down_args(compose_name@),
        r.override_filename@ == compose_name@ + "-override.yml"@,
        r.worktree_remove.deep_view() == (if remove_worktree {
            Option::Some(spec_worktree_remove_args(path@, force))
        } else {
            Option::<Seq<Seq<char>>>::None
        }),
{
    let mut compose_down: Vec<String> = Vec::new();
    compose_down.push(String::from_str("compose"));
    compose_down.push(String::from_str("-p"));
    compose_down.push(String::from_str(compose_name));
    compose_down.push(String::from_str("down"));
    compose_down.push(String::from_str("-v"));
    compose_down.push(String::from_str("--remove-orphans"));
    proof {
        assert(compose_down.deep_view() =~= spec_compose_down_args(compose_name@));
    }
    let worktree_remove = if remove_worktree {
        let mut args: Vec<String> = Vec::new();
        args.push(String::from_str("worktree"));
        args.push(String::from_str("remove"));
        if force {
            args.push(String::from_str("--force"));
        }
        args.push(String::from_str(path));
        proof {
            assert(args.deep_view() =~= spec_worktree_remove_args(path@, force));
        }
        Option::Some(args)
    } else {
        Option::None
    };
    CleanupPlan {
        compose_down,
        override_filename: override_filename(compose_name),
        worktree_remove,
    }
}

/// What `kill` does to the named workspace.
pub struct KillPlan {
    /// Where the worktree lives: `{workspace_dir}/{name}`.
    pub worktree_path: String,
    /// Whether the name denotes the project root itself; the root's
    /// worktree is never removed and destroying it needs confirmation.
    pub is_root: bool,
    /// The cleanup to run.
    pub cleanup: CleanupPlan,
}

/// Plan the destruction of a named workspace: its worktree path under the
/// workspace directory, whether it is the project root, and the cleanup
/// for its compose project; the worktree is removed exactly when it is not
/// the root.
pub fn kill_plan(workspace_dir: &str, name: &str, project_path: &str, force: bool) -> (r: KillPlan)
    ensures
        r.worktree_path@ == workspace_dir@ + "/"@ + name@,
        r.is_root == (workspace_dir@ + "/"@ + name@ == project_path@),
        r.cleanup.compose_down.deep_view() == spec_compose_down_args(
            spec_slug(workspace_dir@ + "/"@ + name@),
        ),
        r.cleanup.worktree_remove.deep_view() == (if !r.is_root {
            Option::Some(spec_worktree_remove_args(workspace_dir@ + "/"@ + name@, force))
        } else {
            Option::<Seq<Seq<char>>>::None
        }),
{
    let worktree_path = concat_str(concat_str(String::from_str(workspace_dir), "/"), name);
    let is_root = str_eq(worktree_path.as_str(), project_path);
    let compose_name = compose_project_name(worktree_path.as_str());
    let cleanup = cleanup_plan(
        compose_name.as_str(),
        worktree_path.as_str(),
        !is_root,
        force,
    );
    KillPlan { worktree_path, is_root, cleanup }
}

/// The engine volume name of a compose project's named volume.
pub fn volume_name(project: &str, volume: &str) -> (r: String)
    ensures
        r@ == project@ + "_"@ + volume@,
{
    concat_str(concat_str(String::from_str(project), "_"), volume)
}

/// What one volume copy runs: a throwaway container with both volumes
/// mounted that copies everything across.
pub struct CopyVolumePlan {
    /// The two bind arguments: source at `/from`, destination at `/to`.
    pub binds: Vec<String>,
    /// The copying command.
    pub cmd: Vec<String>,
}

/// Plan one volume copy.
pub fn copy_volume_plan(src: &str, dst: &str) -> (r: CopyVolumePlan)
    ensures
        r.binds.deep_view() == seq![src@ + ":/from"@, dst@ + ":/to"@],
        r.cmd.deep_view() == seq!["sh"@, "-c"@, "cp -a /from/. /to/"@],
{
    let mut binds: Vec<String> = Vec::new();
    binds.push(concat_str(String::from_str(src), ":/from"));
    binds.push(concat_str(String::from_str(dst), ":/to"));
    let mut cmd: Vec<String> = Vec::new();
    cmd.push(String::from_str("sh"));
    cmd.push(String::from_str("-c"));
    cmd.push(String::from_str("cp -a /from/. /to/"));
    proof {
        assert(binds.deep_view() =~= seq![src@ + ":/from"@, dst@ + ":/to"@]);
        assert(cmd.deep_view() =~= seq!["sh"@, "-c"@, "cp -a /from/. /to/"@]);
    }
    CopyVolumePlan { binds, cmd }
}

/// Find a workspace by name: the first whose path's basename matches, or
/// `NotFound`.
#[verifier::loop_isolation(false)]
pub fn find_workspace(workspaces: Vec<Workspace>, name: &str) -> (r: Result<Workspace, Error>)
    ensures
        ({
            let wdv = workspaces.deep_view();
            let i = spec_find_ws(wdv, name@);
            match r {
                Result::Ok(w) => i >= 0 && w.deep_view() == wdv[i],
                Result::Err(e) => i == -1 && e matches Error::NotFound(_),
            }
        }),
{
    let ghost wdv = workspaces.deep_view();
    proof {
        lemma_find_ws(wdv, name@);
    }
    let mut j: usize = 0;
    let mut workspaces = workspaces;
    while j < workspaces.len()
        invariant
            0 <= j <= wdv.len(),
            workspaces.deep_view() == wdv,
            forall|k: int| 0 <= k < j ==> basename_of((#[trigger] wdv[k]).path) != name@,
        decreases wdv.len() - j,
    {
        let base = crate::slug::basename(workspaces[j].path.as_str());
        if str_eq(base, name) {
            proof {
                let i = spec_find_ws(wdv, name@);
                assert(basename_of(wdv[j as int].path) == name@);
                assert(i != -1);
                if i < j {
                    assert(basename_of(wdv[i].path) != name@);
                }
                if i > j as int {
                    assert(basename_of(wdv[j as int].path) != name@);
                }
                assert(i == j as int);
            }
            let w = workspaces.remove(j);
            proof {
                assert(w.deep_view() == wdv[j as int]);
            }
            return Result::Ok(w);
        }
        j += 1;
    }
    proof {
        let i = spec_find_ws(wdv, name@);
        if i >= 0 {
            assert(basename_of(wdv[i].path) != name@);
        }
    }
    Result::Err(Error::NotFound(String::from_str(name)))
}

/// The host port a forward listens on: the explicit argument when given,
/// else the configured port; with neither, the forward cannot proceed.
pub fn choose_host_port(arg: Option<u16>, configured: Option<u16>) -> (r: Result<u16, Error>)
    ensures
        match r {
            Result::Ok(p) => (arg is Some && p == arg->0) || (arg is None && configured is Some
                && p == configured->0),
            Result::Err(e) => arg is None && configured is None && e matches Error::Msg(_),
        },
{
    match arg {
        Option::Some(p) => Result::Ok(p),
        Option::None => match configured {
            Option::Some(p) => Result::Ok(p),
            Option::None => Result::Err(
                Error::Msg(String::from_str("no port specified and none configured")),
            ),
        },
    }
}

/// What the port-forward sidecar container looks like.
pub struct SidecarPlan {
    /// Container name: `dc-fwd-{slug}`.
    pub name: String,
    /// The exposed-port key: `{host_port}/tcp`.
    pub port_key: String,
    /// The relay's listening side: `TCP-LISTEN:{host_port},fork,reuseaddr`.
    pub socat_listen: String,
    /// The relay's target side: `TCP:{ip}:{container_port}`.
    pub socat_target: String,
    /// Identification labels of the sidecar.
    pub labels: Vec<(String, String)>,
    /// The host address the forward binds: loopback only.
    pub host_ip: String,
    /// The bound host port, as text.
    pub host_port_text: String,
}

/// Plan the port-forward sidecar for a workspace: a TCP relay container on
/// the workspace's network, bound to loopback, labeled so listings and
/// cleanups can find it.
pub fn sidecar_plan(
    project: &str,
    compose_name: &str,
    host_port: u16,
    container_port: u16,
    ip: &str,
) -> (r: SidecarPlan)
    ensures
        r.name@ == "dc-fwd-"@ + compose_name@,
        r.port_key@ == dec_rep(host_port as nat) + "/tcp"@,
        r.socat_listen@ == "TCP-LISTEN:"@ + dec_rep(host_port as nat) + ",fork,reuseaddr"@,
        r.socat_target@ == "TCP:"@ + ip@ + ":"@ + dec_rep(container_port as nat),
        r.labels.deep_view() == seq![
            ("dev.dc.fwd"@, "true"@),
            ("dev.dc.fwd.project"@, project@),
            ("dev.dc.fwd.workspace"@, compose_name@),
        ],
        r.host_ip@ == "127.0.0.1"@,
        r.host_port_text@ == dec_rep(host_port as nat),
{
    let host_port_text = u64_string(host_port as u64);
    let name = concat_str(String::from_str("dc-fwd-"), compose_name);
    let port_key = concat_str(u64_string(host_port as u64), "/tcp");
    let socat_listen = concat_str(
        concat_str(String::from_str("TCP-LISTEN:"), host_port_text.as_str()),
        ",fork,reuseaddr",
    );
    let target_port = u64_string(container_port as u64);
    let socat_target = concat_str(
        concat_str(concat_str(String::from_str("TCP:"), ip), ":"),
        target_port.as_str(),
    );
    let mut labels: Vec<(String, String)> = Vec::new();
    labels.push((String::from_str("dev.dc.fwd"), String::from_str("true")));
    labels.push((String::from_str("dev.dc.fwd.project"), String::from_str(project)));
    labels.push((String::from_str("dev.dc.fwd.workspace"), String::from_str(compose_name)));
    proof {
        assert(labels.deep_view() =~= seq![
            ("dev.dc.fwd"@, "true"@),
            ("dev.dc.fwd.project"@, project@),
            ("dev.dc.fwd.workspace"@, compose_name@),
        ]);
    }
    SidecarPlan {
        name,
        port_key,
        socat_listen,
        socat_target,
        labels,
        host_ip: String::from_str("127.0.0.1"),
        host_port_text,
    }
}

/// The first container, among those not of this project's own forwards,
/// that already publishes the host port — its name, when one exists. The
/// caller refuses to bind over it.
pub open spec fn spec_port_conflict(
    others: Seq<(bool, Seq<u16>, Seq<char>)>,
    host_port: u16,
) -> Option<Seq<char>>
    decreases others.len(),
{
    if others.len() == 0 {
        Option::None
    } else {
        let c = others.first();
        if !c.0 && c.1.contains(host_port) {
            Option::Some(c.2)
        } else {
            spec_port_conflict(others.drop_first(), host_port)
        }
    }
}

/// Find a conflicting publisher of the host port: each candidate is
/// `(is_ours, published_ports, name)`, and a candidate of this project's
/// own forward is never a conflict.
#[verifier::loop_isolation(false)]
pub fn port_conflict(others: &Vec<(bool, Vec<u16>, String)>, host_port: u16) -> (r: Option<
    String,
>)
    ensures
        r.deep_view() == spec_port_conflict(others.deep_view(), host_port),
{
    let ghost odv = others.deep_view();
    let mut j: usize = 0;
    proof {
        assert(odv.skip(0) =~= odv);
    }
    while j < others.len()
        invariant
            0 <= j <= odv.len(),
            spec_port_conflict(odv, host_port) == spec_port_conflict(
                odv.skip(j as int),
                host_port,
            ),
        decreases odv.len() - j,
    {
        proof {
            assert(odv.skip(j as int).first() == odv[j as int]);
            assert(odv.skip(j as int).drop_first() =~= odv.skip(j + 1));
        }
        if !others[j].0 {
            let ports = &others[j].1;
            let mut t: usize = 0;
            let mut found = false;
            while t < ports.len()
                invariant
                    0 <= t <= ports@.len(),
                    found <==> exists|k: int| 0 <= k < t && ports@[k] == host_port,
                decreases ports@.len() - t,
            {
                if ports[t] == host_port {
                    found = true;
                }
                t += 1;
            }
            proof {
                assert(odv[j as int] == others@[j as int].deep_view());
                assert(odv[j as int].1 =~= ports@);
                if found {
                    assert(odv[j as int].1.contains(host_port));
                } else {
                    if odv[j as int].1.contains(host_port) {
                        let w = choose|w: int|
                            0 <= w < odv[j as int].1.len() && #[trigger] odv[j as int].1[w]
                                == host_port;
                        assert(exists|k: int| 0 <= k < ports@.len() && ports@[k] == host_port);
                    }
                }
            }
            if found {
                return Option::Some(others[j].2.clone());
            }
        }
        j += 1;
    }
    Option::None
}

/// Forwarded ports joined by commas, for `show ports`.
pub open spec fn spec_joined_ports(ports: Seq<u16>) -> Seq<char>
    decreases ports.len(),
{
    if ports.len() == 0 {
        Seq::empty()
    } else if ports.len() == 1 {
        dec_rep(ports[0] as nat)
    } else {
        spec_joined_ports(ports.drop_last()) + ","@ + dec_rep(ports.last() as nat)
    }
}

/// Join ports with commas.
#[verifier::loop_isolation(false)]
pub fn join_ports(ports: &Vec<u16>) -> (r: String)
    ensures
        r@ == spec_joined_ports(ports@),
{
    if ports.len() == 0 {
        return String::new();
    }
    let mut out = u64_string(ports[0] as u64);
    let mut i: usize = 1;
    while i < ports.len()
        invariant
            1 <= i <= ports@.len(),
            out@ == spec_joined_ports(ports@.take(i as int)),
        decreases ports@.len() - i,
    {
        proof {
            assert(ports@.take(i + 1).drop_last() =~= ports@.take(i as int));
            assert(ports@.take(i + 1).last() == ports@[i as int]);
        }
        out.append(",");
        let t = u64_string(ports[i] as u64);
        out.append(t.as_str());
        i += 1;
    }
    proof {
        assert(ports@.take(ports@.len() as int) =~= ports@);
    }
    out
}


/// Index of the first workspace with exactly the given path, or `-1`.
pub open spec fn spec_find_ws_path(ws: Seq<crate::model::WorkspaceV>, path: Seq<char>) -> int
    decreases ws.len(),
{
    if ws.len() == 0 {
        -1
    } else if ws.first().path == path {
        0
    } else {
        let r = spec_find_ws_path(ws.drop_first(), path);
        if r == -1 {
            -1
        } else {
            r + 1
        }
    }
}

pub proof fn lemma_find_ws_path(ws: Seq<crate::model::WorkspaceV>, path: Seq<char>)
    ensures
        -1 <= spec_find_ws_path(ws, path) < ws.len(),
        spec_find_ws_path(ws, path) == -1 ==> forall|j: int|
            0 <= j < ws.len() ==> (#[trigger] ws[j]).path != path,
        spec_find_ws_path(ws, path) >= 0 ==> ws[spec_find_ws_path(ws, path)].path == path
            && forall|j: int|
            0 <= j < spec_find_ws_path(ws, path) ==> (#[trigger] ws[j]).path != path,
    decreases ws.len(),
{
    if ws.len() > 0 && ws.first().path != path {
        lemma_find_ws_path(ws.drop_first(), path);
        assert(forall|j: int| 1 <= j < ws.len() ==> (#[trigger] ws[j]) == ws.drop_first()[j - 1]);
    }
}

/// How `prune` classifies one worktree: `0` in use (skipped), `1` dirty
/// (skipped), `2` to clean, `3` an orphan (no live directory or no known
/// workspace).
pub open spec fn spec_prune_class(
    path: Seq<char>,
    exists_on_disk: bool,
    ws: Seq<crate::model::WorkspaceV>,
) -> int {
    if !exists_on_disk {
        3
    } else {
        let i = spec_find_ws_path(ws, path);
        if !(0 <= i < ws.len()) {
            3
        } else if ws[i].execs.len() > 0 {
            0
        } else if ws[i].dirty {
            1
        } else {
            2
        }
    }
}

/// The workspace indices of one class among the worktrees, in order.
pub open spec fn spec_prune_indices(
    wts: Seq<(Seq<char>, bool)>,
    ws: Seq<crate::model::WorkspaceV>,
    class: int,
) -> Seq<int>
    decreases wts.len(),
{
    if wts.len() == 0 {
        Seq::empty()
    } else {
        let rest = spec_prune_indices(wts.drop_last(), ws, class);
        let wt = wts.last();
        if spec_prune_class(wt.0, wt.1, ws) == class {
            rest.push(spec_find_ws_path(ws, wt.0))
        } else {
            rest
        }
    }
}

/// The orphan paths among the worktrees, in order.
pub open spec fn spec_prune_orphans(
    wts: Seq<(Seq<char>, bool)>,
    ws: Seq<crate::model::WorkspaceV>,
) -> Seq<Seq<char>>
    decreases wts.len(),
{
    if wts.len() == 0 {
        Seq::empty()
    } else {
        let rest = spec_prune_orphans(wts.drop_last(), ws);
        let wt = wts.last();
        if spec_prune_class(wt.0, wt.1, ws) == 3 {
            rest.push(wt.0)
        } else {
            rest
        }
    }
}

/// How `prune` partitions the project's worktrees: indices into the
/// workspace listing for those with a live workspace, and the orphan
/// paths.
pub struct PrunePartition {
    /// Workspaces with running exec sessions: in use, skipped.
    pub in_use: Vec<usize>,
    /// Workspaces with uncommitted changes: skipped.
    pub dirty: Vec<usize>,
    /// Workspaces safe to clean up.
    pub to_clean: Vec<usize>,
    /// Worktree paths with no live directory or no known workspace; their
    /// compose projects are torn down and the worktrees pruned.
    pub orphans: Vec<String>,
}

/// Partition the project's worktrees for `prune`: a worktree whose
/// directory is gone or that no workspace covers is an orphan; one whose
/// workspace has running exec sessions is in use; a dirty one is dirty;
/// the rest are safe to clean. In-use and dirty workspaces are only ever
/// skipped, never cleaned.
#[verifier::loop_isolation(false)]
pub fn partition_prune(worktrees: &Vec<(String, bool)>, workspaces: &Vec<Workspace>) -> (r:
    PrunePartition)
    ensures
        ({
            let wts = worktrees.deep_view();
            let ws = workspaces.deep_view();
            &&& r.in_use@.map_values(|x: usize| x as int) == spec_prune_indices(wts, ws, 0)
            &&& r.dirty@.map_values(|x: usize| x as int) == spec_prune_indices(wts, ws, 1)
            &&& r.to_clean@.map_values(|x: usize| x as int) == spec_prune_indices(wts, ws, 2)
            &&& r.orphans.deep_view() == spec_prune_orphans(wts, ws)
        }),
{
    let ghost wts = worktrees.deep_view();
    let ghost wsv = workspaces.deep_view();
    let mut in_use: Vec<usize> = Vec::new();
    let mut dirty: Vec<usize> = Vec::new();
    let mut to_clean: Vec<usize> = Vec::new();
    let mut orphans: Vec<String> = Vec::new();
    let mut i: usize = 0;
    proof {
        assert(in_use@.map_values(|x: usize| x as int) =~= spec_prune_indices(wts.take(0), wsv, 0));
        assert(dirty@.map_values(|x: usize| x as int) =~= spec_prune_indices(wts.take(0), wsv, 1));
        assert(to_clean@.map_values(|x: usize| x as int) =~= spec_prune_indices(
            wts.take(0),
            wsv,
            2,
        ));
        assert(orphans.deep_view() =~= spec_prune_orphans(wts.take(0), wsv));
    }
    while i < worktrees.len()
        invariant
            0 <= i <= wts.len(),
            in_use@.map_values(|x: usize| x as int) == spec_prune_indices(
                wts.take(i as int),
                wsv,
                0,
            ),
            dirty@.map_values(|x: usize| x as int) == spec_prune_indices(
                wts.take(i as int),
                wsv,
                1,
            ),
            to_clean@.map_values(|x: usize| x as int) == spec_prune_indices(
                wts.take(i as int),
                wsv,
                2,
            ),
            orphans.deep_view() == spec_prune_orphans(wts.take(i as int), wsv),
        decreases wts.len() - i,
    {
        proof {
            assert(wts.take(i + 1).drop_last() =~= wts.take(i as int));
            assert(wts.take(i + 1).last() == wts[i as int]);
            lemma_find_ws_path(wsv, wts[i as int].0);
        }
        let path = &worktrees[i].0;
        let exists_on_disk = worktrees[i].1;
        let ghost cls = spec_prune_class(wts[i as int].0, wts[i as int].1, wsv);
        if !exists_on_disk {
            let ghost odv = orphans.deep_view();
            orphans.push(path.clone());
            proof {
                assert(cls == 3);
                assert(orphans.deep_view() =~= odv.push(wts[i as int].0));
            }
        } else {
            // Find the workspace covering this path.
            let mut j: usize = 0;
            let mut found = false;
            while j < workspaces.len() && !found
                invariant
                    0 <= j <= wsv.len(),
                    !found ==> forall|k: int|
                        0 <= k < j ==> (#[trigger] wsv[k]).path != wts[i as int].0,
                    found ==> 0 < j <= wsv.len() && wsv[j - 1].path == wts[i as int].0
                        && forall|k: int|
                        0 <= k < j - 1 ==> (#[trigger] wsv[k]).path != wts[i as int].0,
                decreases wsv.len() - j,
            {
                if str_eq(workspaces[j].path.as_str(), path.as_str()) {
                    proof {
                        assert(wsv[j as int].path == wts[i as int].0);
                    }
                    found = true;
                }
                j += 1;
            }
            if found {
                let idx = j - 1;
                proof {
                    let f = spec_find_ws_path(wsv, wts[i as int].0);
                    assert(wsv[idx as int].path == wts[i as int].0);
                    assert(f != -1);
                    if f < idx {
                        assert(wsv[f].path != wts[i as int].0);
                    }
                    if f > idx as int {
                        assert(wsv[idx as int].path != wts[i as int].0);
                    }
                    assert(f == idx as int);
                }
                let ws = &workspaces[idx];
                if ws.execs.len() > 0 {
                    let ghost odv = in_use@;
                    in_use.push(idx);
                    proof {
                        assert(cls == 0);
                        assert(in_use@.map_values(|x: usize| x as int) =~= odv.map_values(
                            |x: usize| x as int,
                        ).push(idx as int));
                    }
                } else if ws.dirty {
                    let ghost odv = dirty@;
                    dirty.push(idx);
                    proof {
                        assert(cls == 1);
                        assert(dirty@.map_values(|x: usize| x as int) =~= odv.map_values(
                            |x: usize| x as int,
                        ).push(idx as int));
                    }
                } else {
                    let ghost odv = to_clean@;
                    to_clean.push(idx);
                    proof {
                        assert(cls == 2);
                        assert(to_clean@.map_values(|x: usize| x as int) =~= odv.map_values(
                            |x: usize| x as int,
                        ).push(idx as int));
                    }
                }
            } else {
                proof {
                    let f = spec_find_ws_path(wsv, wts[i as int].0);
                    if f >= 0 {
                        assert(wsv[f].path != wts[i as int].0);
                    }
                    assert(f == -1);
                    assert(cls == 3);
                }
                let ghost odv = orphans.deep_view();
                orphans.push(path.clone());
                proof {
                    assert(orphans.deep_view() =~= odv.push(wts[i as int].0));
                }
            }
        }
        i += 1;
    }
    proof {
        assert(wts.take(wts.len() as int) =~= wts);
    }
    PrunePartition { in_use, dirty, to_clean, orphans }
}


/// The line `go` prints for the shell wrapper to `eval`: a `cd` into the
/// workspace, with the path shell-quoted. Fails only when the path cannot
/// be quoted (it holds a nul character).
pub fn go_line(path: &str) -> (r: Result<String, Error>)
    ensures
        match r {
            Result::Ok(line) => !crate::complete::has_nul(path@) && line@ == "cd "@
                + crate::complete::quoted_of(path@),
            Result::Err(e) => crate::complete::has_nul(path@) && e matches Error::Msg(_),
        },
{
    let quoted = match crate::complete::try_quote(path) {
        Result::Ok(q) => q,
        Result::Err(e) => { return Result::Err(e) },
    };
    let line = concat_str(String::from_str("cd "), quoted.as_str());
    Result::Ok(line)
}

} // verus!

//! Parsing git's worktree listings and planning worktree operations.
//!
//! The caller runs git and hands the porcelain output here as plain text;
//! these functions do all the parsing and deciding.

use vstd::prelude::*;

use crate::errors::Error;
use crate::strutil::{concat_str, has_prefix, spec_has_prefix, spec_lines, split_lines};

verus! {

/// The worktree paths in a `git worktree list --porcelain` output: one for
/// each line that starts with `worktree `, with that prefix stripped.
pub open spec fn spec_worktree_paths_of_lines(lines: Seq<Seq<char>>) -> Seq<Seq<char>>
    decreases lines.len(),
{
    if lines.len() == 0 {
        Seq::empty()
    } else {
        let rest = spec_worktree_paths_of_lines(lines.drop_last());
        let line = lines.last();
        if spec_has_prefix(line, "worktree "@) {
            rest.push(line.subrange("worktree "@.len() as int, line.len() as int))
        } else {
            rest
        }
    }
}

/// The worktree paths parsed from a porcelain listing.
pub open spec fn spec_worktree_paths(porcelain: Seq<char>) -> Seq<Seq<char>> {
    spec_worktree_paths_of_lines(spec_lines(porcelain))
}

/// Parse the output of `git worktree list --porcelain`: when the command
/// succeeded, the paths of all `worktree `-prefixed lines; when it failed, an
/// error. Callers that run git asynchronously and the shell completer share
/// this one parser.
pub fn list_sync(success: bool, porcelain: &str) -> (r: Result<Vec<String>, Error>)
    ensures
        match r {
            Result::Ok(paths) => success && paths.deep_view() == spec_worktree_paths(porcelain@),
            Result::Err(e) => !success && (e matches Error::Msg(m) && m@
                == "git worktree list failed"@),
        },
{
    if !success {
        return Result::Err(Error::Msg(String::from_str("git worktree list failed")));
    }
    let lines = split_lines(porcelain);
    let mut out: Vec<String> = Vec::new();
    let mut i: usize = 0;
    while i < lines.len()
        invariant
            0 <= i <= lines@.len(),
            out.deep_view() == spec_worktree_paths_of_lines(lines.deep_view().take(i as int)),
        decreases lines@.len() - i,
    {
        proof {
            assert(lines.deep_view().take(i + 1).drop_last() =~= lines.deep_view().take(
                i as int,
            ));
            assert(lines.deep_view().take(i + 1).last() == lines.deep_view()[i as int]);
        }
        let line = &lines[i];
        if has_prefix(line.as_str(), "worktree ") {
            let ghost old_dv = out.deep_view();
            proof {
                reveal_strlit("worktree ");
            }
            let rest = line.as_str().substring_char(9, line.as_str().unicode_len());
            out.push(String::from_str(rest));
            proof {
                assert(out.deep_view() =~= old_dv.push(rest@));
            }
        }
        i += 1;
    }
    proof {
        assert(lines.deep_view().take(lines@.len() as int) =~= lines.deep_view());
    }
    Result::Ok(out)
}

/// Whether a worktree path lies under the given workspace directory: it is
/// the directory itself or a path below it. The comparison is textual, on
/// the canonicalized paths the caller supplies.
pub open spec fn spec_under_dir(path: Seq<char>, dir: Seq<char>) -> bool {
    path == dir || spec_has_prefix(path, dir + "/"@)
}

/// Keep only the worktree paths under the given workspace directory.
pub fn worktrees_under(paths: Vec<String>, dir: &str) -> (r: Vec<String>)
    ensures
        r.deep_view() == paths.deep_view().filter(|p: Seq<char>| spec_under_dir(p, dir@)),
{
    let sep = concat_str(String::from_str(dir), "/");
    let mut out: Vec<String> = Vec::new();
    let mut i: usize = 0;
    while i < paths.len()
        invariant
            0 <= i <= paths@.len(),
            sep@ == dir@ + "/"@,
            out.deep_view() == paths.deep_view().take(i as int).filter(
                |p: Seq<char>| spec_under_dir(p, dir@),
            ),
        decreases paths@.len() - i,
    {
        proof {
            assert(paths.deep_view().take(i + 1).drop_last() =~= paths.deep_view().take(i as int));
            reveal(Seq::filter);
        }
        let p = &paths[i];
        let keep = crate::strutil::str_eq(p.as_str(), dir) || has_prefix(p.as_str(), sep.as_str());
        if keep {
            let ghost old_dv = out.deep_view();
            out.push(p.clone());
            proof {
                assert(out.deep_view() =~= old_dv.push(p@));
            }
        }
        i += 1;
    }
    proof {
        assert(paths.deep_view().take(paths@.len() as int) =~= paths.deep_view());
    }
    out
}

/// Dirty detection for a worktree: a path with uncommitted changes (non-empty
/// `git status --porcelain` output) is dirty; a clean path is not; a path
/// that no longer exists on disk is reported clean rather than an error — the
/// workspace is an orphan, handled elsewhere.
pub fn dirty_from_status(path_exists: bool, porcelain: &str) -> (r: bool)
    ensures
        r == (path_exists && porcelain@.len() > 0),
{
    if !path_exists {
        return false;
    }
    porcelain.unicode_len() > 0
}

/// Whether a string is acceptable as a workspace name: a single path
/// component, so nonempty, without `/`, and neither `.` nor `..`.
pub open spec fn spec_valid_name(name: Seq<char>) -> bool {
    name.len() > 0 && (forall|i: int| 0 <= i < name.len() ==> name[i] != '/') && name != "."@
        && name != ".."@
}

/// What to do to create a workspace's worktree.
pub struct CreatePlan {
    /// Where the worktree will live: `{workspace_dir}/{name}`.
    pub worktree_path: String,
    /// The argument vector of the creating command, to run from the
    /// repository root: `git worktree add <path>`, plus `--detach` when the
    /// caller asked for a detached worktree.
    pub args: Vec<String>,
}

/// Plan the creation of a workspace worktree: validate the name and build
/// the path and the git argument vector. An invalid name (one that is not a
/// single path component) is rejected.
pub fn create_plan(workspace_dir: &str, name: &str, detach: bool) -> (r: Result<CreatePlan, Error>)
    ensures
        match r {
            Result::Ok(plan) => {
                &&& spec_valid_name(name@)
                &&& plan.worktree_path@ == workspace_dir@ + "/"@ + name@
                &&& plan.args.deep_view() == (if detach {
                    seq!["git"@, "worktree"@, "add"@, plan.worktree_path@, "--detach"@]
                } else {
                    seq!["git"@, "worktree"@, "add"@, plan.worktree_path@]
                })
            },
            Result::Err(e) => {
                &&& !spec_valid_name(name@)
                &&& e matches Error::Msg(_)
            },
        },
{
    if !valid_name(name) {
        return Result::Err(Error::Msg(String::from_str("invalid workspace name")));
    }
    let worktree_path = concat_str(concat_str(String::from_str(workspace_dir), "/"), name);
    let mut args: Vec<String> = Vec::new();
    args.push(String::from_str("git"));
    args.push(String::from_str("worktree"));
    args.push(String::from_str("add"));
    args.push(worktree_path.clone());
    if detach {
        args.push(String::from_str("--detach"));
    }
    proof {
        if detach {
            assert(args.deep_view() =~= seq![
                "git"@,
                "worktree"@,
                "add"@,
                worktree_path@,
                "--detach"@,
            ]);
        } else {
            assert(args.deep_view() =~= seq!["git"@, "worktree"@, "add"@, worktree_path@]);
        }
    }
    Result::Ok(CreatePlan { worktree_path, args })
}

/// Whether a string is a single path component, as executable code.
pub fn valid_name(name: &str) -> (r: bool)
    ensures
        r == spec_valid_name(name@),
{
    let len = name.unicode_len();
    if len == 0 {
        return false;
    }
    if crate::strutil::str_eq(name, ".") || crate::strutil::str_eq(name, "..") {
        return false;
    }
    let mut i: usize = 0;
    while i < len
        invariant
            0 <= i <= len,
            len == name@.len(),
            forall|j: int| 0 <= j < i ==> name@[j] != '/',
        decreases len - i,
    {
        if name.get_char(i) == '/' {
            return false;
        }
        i += 1;
    }
    true
}

} // verus!

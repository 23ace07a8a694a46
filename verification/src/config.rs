//! Persisted tool configuration, as plain data, and project selection.

use vstd::prelude::*;

use crate::devcontainer::Cmd;
use crate::errors::Error;
use crate::slug::{basename, basename_of};
use crate::strutil::str_eq;

verus! {

/// Per-project options, from the global configuration or a project's own
/// override file.
#[derive(Debug)]
pub struct ProjectOptions {
    /// Default command for interactive exec.
    pub default_cmd: Option<Cmd>,
    /// Directory to create workspaces in; `/tmp/` when unset.
    pub workspace_dir: Option<String>,
    /// Static host port for port forwarding.
    pub fwd_port: Option<u16>,
}

/// Mathematical view of [`ProjectOptions`].
#[verifier::ext_equal]
pub ghost struct ProjectOptionsV {
    pub default_cmd: Option<crate::devcontainer::CmdV>,
    pub workspace_dir: Option<Seq<char>>,
    pub fwd_port: Option<u16>,
}

impl DeepView for ProjectOptions {
    type V = ProjectOptionsV;

    open spec fn deep_view(&self) -> ProjectOptionsV {
        ProjectOptionsV {
            default_cmd: self.default_cmd.deep_view(),
            workspace_dir: self.workspace_dir.deep_view(),
            fwd_port: self.fwd_port,
        }
    }
}

impl Clone for ProjectOptions {
    fn clone(&self) -> (r: Self)
        ensures
            r.deep_view() == self.deep_view(),
    {
        let default_cmd = match &self.default_cmd {
            Option::Some(c) => Option::Some(c.clone()),
            Option::None => Option::None,
        };
        let workspace_dir = match &self.workspace_dir {
            Option::Some(d) => Option::Some(d.clone()),
            Option::None => Option::None,
        };
        let r = ProjectOptions { default_cmd, workspace_dir, fwd_port: self.fwd_port };
        proof {
            assert(r.deep_view() =~~= self.deep_view());
        }
        r
    }
}

/// One configured project: its repository path and options.
#[derive(Debug)]
pub struct Project {
    pub path: String,
    pub options: ProjectOptions,
}

/// Mathematical view of a [`Project`].
#[verifier::ext_equal]
pub ghost struct ProjectV {
    pub path: Seq<char>,
    pub options: ProjectOptionsV,
}

impl DeepView for Project {
    type V = ProjectV;

    open spec fn deep_view(&self) -> ProjectV {
        ProjectV { path: self.path@, options: self.options.deep_view() }
    }
}

impl Clone for Project {
    fn clone(&self) -> (r: Self)
        ensures
            r.deep_view() == self.deep_view(),
    {
        let r = Project { path: self.path.clone(), options: self.options.clone() };
        proof {
            assert(r.deep_view() =~~= self.deep_view());
        }
        r
    }
}

/// The loaded configuration: projects in configuration order.
#[derive(Debug, Clone)]
pub struct Config {
    pub default_cmd: Option<Cmd>,
    pub projects: Vec<(String, Project)>,
}

/// The options after a project's own override file is applied: each field
/// the override sets replaces the base one.
pub open spec fn spec_apply_overrides(base: ProjectOptions, over: ProjectOptions) -> ProjectOptions {
    ProjectOptions {
        default_cmd: if over.default_cmd is Some {
            over.default_cmd
        } else {
            base.default_cmd
        },
        workspace_dir: if over.workspace_dir is Some {
            over.workspace_dir
        } else {
            base.workspace_dir
        },
        fwd_port: if over.fwd_port is Some {
            over.fwd_port
        } else {
            base.fwd_port
        },
    }
}

impl ProjectOptions {
    /// Apply a project's override file on top of these options.
    pub fn apply_overrides(self, over: ProjectOptions) -> (r: ProjectOptions)
        ensures
            r == spec_apply_overrides(self, over),
    {
        ProjectOptions {
            default_cmd: match over.default_cmd {
                Option::Some(c) => Option::Some(c),
                Option::None => self.default_cmd,
            },
            workspace_dir: match over.workspace_dir {
                Option::Some(d) => Option::Some(d),
                Option::None => self.workspace_dir,
            },
            fwd_port: match over.fwd_port {
                Option::Some(p) => Option::Some(p),
                Option::None => self.fwd_port,
            },
        }
    }
}

/// Index of the first project with the given name, or `-1`.
pub open spec fn spec_project_idx(projects: Seq<(String, Project)>, name: Seq<char>) -> int
    decreases projects.len(),
{
    if projects.len() == 0 {
        -1
    } else if projects.first().0@ == name {
        0
    } else {
        let r = spec_project_idx(projects.drop_first(), name);
        if r == -1 {
            -1
        } else {
            r + 1
        }
    }
}

proof fn lemma_project_idx(projects: Seq<(String, Project)>, name: Seq<char>)
    ensures
        -1 <= spec_project_idx(projects, name) < projects.len(),
        spec_project_idx(projects, name) == -1 ==> forall|j: int|
            0 <= j < projects.len() ==> (#[trigger] projects[j]).0@ != name,
        spec_project_idx(projects, name) >= 0 ==> projects[spec_project_idx(projects, name)].0@
            == name && forall|j: int|
            0 <= j < spec_project_idx(projects, name) ==> (#[trigger] projects[j]).0@ != name,
    decreases projects.len(),
{
    if projects.len() > 0 && projects.first().0@ != name {
        lemma_project_idx(projects.drop_first(), name);
        assert(forall|j: int|
            1 <= j < projects.len() ==> (#[trigger] projects[j]) == projects.drop_first()[j - 1]);
    }
}

impl Config {
    /// Select a project: the named one, or the first configured when no
    /// name is given. A name that matches no project, or an empty
    /// configuration, is an error.
    #[verifier::loop_isolation(false)]
    pub fn project(&self, name: &Option<String>) -> (r: Result<(String, Project), Error>)
        ensures
            match r {
                Result::Ok(p) => match name {
                    Option::Some(n) => {
                        &&& spec_project_idx(self.projects@, n@) >= 0
                        &&& p.0@ == n@
                        &&& p.1.deep_view() == self.projects@[spec_project_idx(
                            self.projects@,
                            n@,
                        )].1.deep_view()
                    },
                    Option::None => {
                        &&& self.projects@.len() > 0
                        &&& p.0@ == self.projects@[0].0@
                        &&& p.1.deep_view() == self.projects@[0].1.deep_view()
                    },
                },
                Result::Err(e) => match name {
                    Option::Some(n) => spec_project_idx(self.projects@, n@) == -1 && e
                        matches Error::NotFound(_),
                    Option::None => self.projects@.len() == 0 && e matches Error::NotFound(_),
                },
            },
    {
        match name {
            Option::Some(n) => {
                proof {
                    lemma_project_idx(self.projects@, n@);
                }
                let mut j: usize = 0;
                while j < self.projects.len()
                    invariant
                        0 <= j <= self.projects@.len(),
                        forall|k: int|
                            0 <= k < j ==> (#[trigger] self.projects@[k]).0@ != n@,
                    decreases self.projects@.len() - j,
                {
                    if str_eq(self.projects[j].0.as_str(), n.as_str()) {
                        proof {
                            let i = spec_project_idx(self.projects@, n@);
                            assert(self.projects@[j as int].0@ == n@);
                            assert(i != -1);
                            if i < j {
                                assert(self.projects@[i].0@ != n@);
                            }
                            if i > j as int {
                                assert(self.projects@[j as int].0@ != n@);
                            }
                            assert(i == j as int);
                        }
                        return Result::Ok((self.projects[j].0.clone(), self.projects[j].1.clone()));
                    }
                    j += 1;
                }
                proof {
                    let i = spec_project_idx(self.projects@, n@);
                    if i >= 0 {
                        assert(self.projects@[i].0@ != n@);
                    }
                }
                Result::Err(Error::NotFound(n.clone()))
            },
            Option::None => {
                if self.projects.len() == 0 {
                    return Result::Err(
                        Error::NotFound(String::from_str("no projects configured")),
                    );
                }
                Result::Ok((self.projects[0].0.clone(), self.projects[0].1.clone()))
            },
        }
    }
}

/// Whether the named workspace is the project root itself: the name equals
/// the basename of the project's repository path.
pub fn is_root(project_path: &str, name: &str) -> (r: bool)
    ensures
        r == (basename_of(project_path@) == name@),
{
    let base = basename(project_path);
    str_eq(base, name)
}

/// Resolve the workspace name an operation targets: the given name when
/// there is one; otherwise the basename of the current working directory,
/// provided it is one of the project's worktrees — else the caller is not
/// inside a workspace and the resolution fails.
#[verifier::loop_isolation(false)]
pub fn resolve_name(name: Option<String>, cwd: &str, worktrees: &Vec<String>) -> (r: Result<
    String,
    Error,
>)
    ensures
        match r {
            Result::Ok(n) => match name {
                Option::Some(given) => n@ == given@,
                Option::None => (exists|j: int|
                    0 <= j < worktrees.deep_view().len() && worktrees.deep_view()[j] == cwd@) && n@
                    == basename_of(cwd@),
            },
            Result::Err(e) => {
                &&& name is None
                &&& !(exists|j: int|
                    0 <= j < worktrees.deep_view().len() && worktrees.deep_view()[j] == cwd@)
                &&& e matches Error::NotFound(_)
            },
        },
{
    match name {
        Option::Some(n) => Result::Ok(n),
        Option::None => {
            let mut j: usize = 0;
            while j < worktrees.len()
                invariant
                    0 <= j <= worktrees@.len(),
                    forall|k: int| 0 <= k < j ==> (#[trigger] worktrees.deep_view()[k]) != cwd@,
                decreases worktrees@.len() - j,
            {
                if str_eq(worktrees[j].as_str(), cwd) {
                    proof {
                        assert(worktrees.deep_view()[j as int] == cwd@);
                    }
                    let base = basename(cwd);
                    return Result::Ok(String::from_str(base));
                }
                j += 1;
            }
            Result::Err(Error::NotFound(String::from_str("not inside a worktree of the project")))
        },
    }
}

} // verus!

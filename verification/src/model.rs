//! Plain data records describing containers, worktrees and workspaces.
//!
//! Every record is a short-lived snapshot built from values the caller read
//! from the container engine or from git; none is persisted. Each executable
//! type has a mathematical view (`deep_view`) over which all contracts are
//! stated.

use vstd::prelude::*;

use crate::status::Status;

verus! {

/// How thoroughly to sample container statistics: `Fast` takes a single
/// instantaneous reading (RAM only), `Slow` takes two time-separated readings
/// and derives a CPU percentage from the counter deltas.
#[derive(Debug, Clone, Copy, PartialEq, Eq, Structural)]
pub enum Speed {
    Fast,
    Slow,
}

/// Resource usage of one container, or summed over a workspace's containers.
#[derive(Debug, Clone, Copy)]
pub struct Stats {
    /// Current memory use in bytes.
    pub ram: u64,
    /// Current CPU use, in hundredths of a percent; absent when only a single
    /// instantaneous sample was taken, since a percentage needs the delta of
    /// two time-separated counter readings.
    pub cpu: Option<u64>,
}

impl DeepView for Stats {
    type V = Stats;

    open spec fn deep_view(&self) -> Stats {
        *self
    }
}

/// A currently-running `exec` session inside a container.
#[derive(Debug)]
pub struct ExecSession {
    pub pid: u32,
    pub command: Vec<String>,
}

/// Mathematical view of an [`ExecSession`].
pub ghost struct ExecSessionV {
    pub pid: u32,
    pub command: Seq<Seq<char>>,
}

impl DeepView for ExecSession {
    type V = ExecSessionV;

    open spec fn deep_view(&self) -> ExecSessionV {
        ExecSessionV { pid: self.pid, command: self.command.deep_view() }
    }
}

impl Clone for ExecSession {
    fn clone(&self) -> (r: Self)
        ensures
            r.deep_view() == self.deep_view(),
    {
        let r = ExecSession { pid: self.pid, command: self.command.clone() };
        proof {
            assert(r.command.deep_view() =~~= self.command.deep_view());
        }
        r
    }
}

/// One container as discovered from the engine's labeled listing.
#[derive(Debug)]
pub struct ContainerInfo {
    pub id: String,
    pub state: Status,
    /// Worktree path recorded in the container's label: the join key that maps
    /// the container onto a workspace.
    pub local_folder: String,
    /// Owning project recorded in the container's label, if any.
    pub dc_project: Option<String>,
    /// Creation time, in seconds since the epoch, if the engine reported one.
    pub created: Option<i64>,
    /// Host ports published by the container.
    pub host_ports: Vec<u16>,
}

/// Mathematical view of a [`ContainerInfo`].
pub ghost struct ContainerInfoV {
    pub id: Seq<char>,
    pub state: Status,
    pub local_folder: Seq<char>,
    pub dc_project: Option<Seq<char>>,
    pub created: Option<i64>,
    pub host_ports: Seq<u16>,
}

impl DeepView for ContainerInfo {
    type V = ContainerInfoV;

    open spec fn deep_view(&self) -> ContainerInfoV {
        ContainerInfoV {
            id: self.id@,
            state: self.state,
            local_folder: self.local_folder@,
            dc_project: match self.dc_project {
                Option::Some(ref p) => Option::Some(p@),
                Option::None => Option::None,
            },
            created: self.created,
            host_ports: self.host_ports@,
        }
    }
}

/// One worktree found on disk, together with the project it belongs to.
#[derive(Debug)]
pub struct WorktreeEntry {
    pub path: String,
    pub project: String,
}

/// Mathematical view of a [`WorktreeEntry`].
pub ghost struct WorktreeEntryV {
    pub path: Seq<char>,
    pub project: Seq<char>,
}

impl DeepView for WorktreeEntry {
    type V = WorktreeEntryV;

    open spec fn deep_view(&self) -> WorktreeEntryV {
        WorktreeEntryV { path: self.path@, project: self.project@ }
    }
}

/// One workspace: a worktree plus the containers mapped onto it, with the
/// aggregate fields derived by reconciliation.
#[derive(Debug)]
pub struct Workspace {
    /// Absolute path of the worktree; the unique key of the workspace.
    pub path: String,
    /// Name of the owning project.
    pub project: String,
    /// Deterministic slug derived from the path's basename.
    pub compose_project_name: String,
    /// Ids of the containers mapped onto this workspace.
    pub container_ids: Vec<String>,
    /// Whether the worktree has uncommitted changes.
    pub dirty: bool,
    /// Currently-running exec sessions across the workspace's containers.
    pub execs: Vec<ExecSession>,
    /// Most-alive state among the workspace's containers.
    pub status: Status,
    /// Summed resource usage; absent when the workspace has no sampled
    /// containers.
    pub stats: Option<Stats>,
}

/// Mathematical view of a [`Workspace`].
pub ghost struct WorkspaceV {
    pub path: Seq<char>,
    pub project: Seq<char>,
    pub compose_project_name: Seq<char>,
    pub container_ids: Seq<Seq<char>>,
    pub dirty: bool,
    pub execs: Seq<ExecSessionV>,
    pub status: Status,
    pub stats: Option<Stats>,
}

impl DeepView for Workspace {
    type V = WorkspaceV;

    open spec fn deep_view(&self) -> WorkspaceV {
        WorkspaceV {
            path: self.path@,
            project: self.project@,
            compose_project_name: self.compose_project_name@,
            container_ids: self.container_ids.deep_view(),
            dirty: self.dirty,
            execs: self.execs.deep_view(),
            status: self.status,
            stats: self.stats,
        }
    }
}

} // verus!

//! The reconciler: merging container listings, worktree listings and
//! per-container enrichment into one `Workspace` record per worktree path.
//!
//! The caller performs the engine and git I/O and hands the results in as
//! plain values; reconciliation itself is pure, so two calls against
//! unchanged inputs produce identical workspaces.

use vstd::prelude::*;

use crate::model::{
    ContainerInfo, ContainerInfoV, ExecSession, ExecSessionV, Stats, Workspace, WorkspaceV,
    WorktreeEntry, WorktreeEntryV,
};
use crate::slug::{compose_project_name, spec_slug};
use crate::status::{spec_status_max, status_of_states, Status};
use crate::strutil::str_eq;

verus! {

/// One worktree path's accumulator while grouping containers.
pub struct Group {
    /// The worktree path: the join key.
    pub path: String,
    /// The owning project of the first container grouped here, or of the
    /// worktree when no container was.
    pub project: String,
    /// Ids of the containers with this path label, in discovery order; the
    /// first is the primary service container.
    pub ids: Vec<String>,
    /// States of those containers, in the same order.
    pub states: Vec<Status>,
}

/// Mathematical view of a [`Group`].
#[verifier::ext_equal]
pub ghost struct GroupV {
    pub path: Seq<char>,
    pub project: Seq<char>,
    pub ids: Seq<Seq<char>>,
    pub states: Seq<Status>,
}

impl DeepView for Group {
    type V = GroupV;

    open spec fn deep_view(&self) -> GroupV {
        GroupV {
            path: self.path@,
            project: self.project@,
            ids: self.ids.deep_view(),
            states: self.states@,
        }
    }
}

/// Whether a container belongs to the caller's project scope. A container
/// whose project label does not match the scope is discarded, so that a
/// stale or moved container cannot contaminate another project's listing.
pub open spec fn in_scope(c: ContainerInfoV, scope: Option<Seq<char>>) -> bool {
    match scope {
        Option::None => true,
        Option::Some(p) => c.dc_project == Option::Some(p),
    }
}

/// The containers within the project scope, in order.
pub open spec fn spec_scope_filter(cs: Seq<ContainerInfoV>, scope: Option<Seq<char>>) -> Seq<
    ContainerInfoV,
>
    decreases cs.len(),
{
    if cs.len() == 0 {
        Seq::empty()
    } else {
        let rest = spec_scope_filter(cs.drop_last(), scope);
        if in_scope(cs.last(), scope) {
            rest.push(cs.last())
        } else {
            rest
        }
    }
}

/// Index of the first group with the given path, or `-1` when there is none.
pub open spec fn find_group(gs: Seq<GroupV>, path: Seq<char>) -> int
    decreases gs.len(),
{
    if gs.len() == 0 {
        -1
    } else if gs.first().path == path {
        0
    } else {
        let r = find_group(gs.drop_first(), path);
        if r == -1 {
            -1
        } else {
            r + 1
        }
    }
}

pub proof fn lemma_find_group(gs: Seq<GroupV>, path: Seq<char>)
    ensures
        -1 <= find_group(gs, path) < gs.len(),
        find_group(gs, path) == -1 ==> forall|j: int|
            0 <= j < gs.len() ==> (#[trigger] gs[j]).path != path,
        find_group(gs, path) >= 0 ==> gs[find_group(gs, path)].path == path && forall|j: int|
            0 <= j < find_group(gs, path) ==> (#[trigger] gs[j]).path != path,
    decreases gs.len(),
{
    if gs.len() > 0 && gs.first().path != path {
        lemma_find_group(gs.drop_first(), path);
        assert(forall|j: int|
            1 <= j < gs.len() ==> (#[trigger] gs[j]) == gs.drop_first()[j - 1]);
    }
}

/// The project name a new group takes from its first container: the
/// container's project label, or empty when it has none.
pub open spec fn project_of(c: ContainerInfoV) -> Seq<char> {
    match c.dc_project {
        Option::Some(p) => p,
        Option::None => Seq::empty(),
    }
}

/// Fold one container into the groups: append to the group with its path,
/// or open a new group at the end.
pub open spec fn spec_add_container(gs: Seq<GroupV>, c: ContainerInfoV) -> Seq<GroupV> {
    let i = find_group(gs, c.local_folder);
    if 0 <= i < gs.len() {
        gs.update(
            i,
            GroupV {
                path: gs[i].path,
                project: gs[i].project,
                ids: gs[i].ids.push(c.id),
                states: gs[i].states.push(c.state),
            },
        )
    } else {
        gs.push(
            GroupV {
                path: c.local_folder,
                project: project_of(c),
                ids: seq![c.id],
                states: seq![c.state],
            },
        )
    }
}

/// Group a container listing by worktree path, in first-appearance order.
pub open spec fn spec_groups_of(cs: Seq<ContainerInfoV>) -> Seq<GroupV>
    decreases cs.len(),
{
    if cs.len() == 0 {
        Seq::empty()
    } else {
        spec_add_container(spec_groups_of(cs.drop_last()), cs.last())
    }
}

/// Fold one worktree into the groups: a worktree that no container group
/// covers yet becomes an empty group, so that a workspace created via
/// `worktree add` but never brought up is still visible and prunable.
pub open spec fn spec_add_worktree(gs: Seq<GroupV>, wt: WorktreeEntryV) -> Seq<GroupV> {
    if find_group(gs, wt.path) >= 0 {
        gs
    } else {
        gs.push(GroupV { path: wt.path, project: wt.project, ids: Seq::empty(), states: Seq::empty() })
    }
}

/// Merge a worktree listing into the container groups.
pub open spec fn spec_merge_worktrees(gs: Seq<GroupV>, wts: Seq<WorktreeEntryV>) -> Seq<GroupV>
    decreases wts.len(),
{
    if wts.len() == 0 {
        gs
    } else {
        spec_add_worktree(spec_merge_worktrees(gs, wts.drop_last()), wts.last())
    }
}

/// Index of the first pair with the given key, or `-1`.
pub open spec fn spec_lookup_idx<T>(pairs: Seq<(Seq<char>, T)>, key: Seq<char>) -> int
    decreases pairs.len(),
{
    if pairs.len() == 0 {
        -1
    } else if pairs.first().0 == key {
        0
    } else {
        let r = spec_lookup_idx(pairs.drop_first(), key);
        if r == -1 {
            -1
        } else {
            r + 1
        }
    }
}

/// First value keyed by `key`, if any.
pub open spec fn spec_lookup<T>(pairs: Seq<(Seq<char>, T)>, key: Seq<char>) -> Option<T> {
    let i = spec_lookup_idx(pairs, key);
    if 0 <= i < pairs.len() {
        Option::Some(pairs[i].1)
    } else {
        Option::None
    }
}

pub proof fn lemma_lookup_idx<T>(pairs: Seq<(Seq<char>, T)>, key: Seq<char>)
    ensures
        -1 <= spec_lookup_idx(pairs, key) < pairs.len(),
        spec_lookup_idx(pairs, key) == -1 ==> forall|j: int|
            0 <= j < pairs.len() ==> (#[trigger] pairs[j]).0 != key,
        spec_lookup_idx(pairs, key) >= 0 ==> pairs[spec_lookup_idx(pairs, key)].0 == key
            && forall|j: int|
            0 <= j < spec_lookup_idx(pairs, key) ==> (#[trigger] pairs[j]).0 != key,
    decreases pairs.len(),
{
    if pairs.len() > 0 && pairs.first().0 != key {
        lemma_lookup_idx(pairs.drop_first(), key);
        assert(forall|j: int|
            1 <= j < pairs.len() ==> (#[trigger] pairs[j]) == pairs.drop_first()[j - 1]);
    }
}

/// Whether a worktree path is dirty, per the caller's dirty listing;
/// a path absent from the listing counts as clean.
pub open spec fn spec_dirty(pairs: Seq<(Seq<char>, bool)>, path: Seq<char>) -> bool {
    match spec_lookup(pairs, path) {
        Option::Some(b) => b,
        Option::None => false,
    }
}

/// The exec sessions of a group: the concatenation, in container order, of
/// each container's sessions from the enrichment listing; containers without
/// an entry contribute nothing (a failed enrichment degrades to empty).
pub open spec fn spec_group_execs(
    ids: Seq<Seq<char>>,
    execs: Seq<(Seq<char>, Seq<ExecSessionV>)>,
) -> Seq<ExecSessionV>
    decreases ids.len(),
{
    if ids.len() == 0 {
        Seq::empty()
    } else {
        spec_group_execs(ids.drop_last(), execs) + (match spec_lookup(execs, ids.last()) {
            Option::Some(e) => e,
            Option::None => Seq::empty(),
        })
    }
}

/// The sampled stats of a group's containers, in container order; containers
/// without a sample contribute nothing.
pub open spec fn spec_present_stats(ids: Seq<Seq<char>>, stats: Seq<(Seq<char>, Stats)>) -> Seq<
    Stats,
>
    decreases ids.len(),
{
    if ids.len() == 0 {
        Seq::empty()
    } else {
        spec_present_stats(ids.drop_last(), stats) + (match spec_lookup(stats, ids.last()) {
            Option::Some(s) => seq![s],
            Option::None => Seq::empty(),
        })
    }
}

/// Saturating addition on `u64`.
pub open spec fn spec_sat_add(a: u64, b: u64) -> u64 {
    if a + b > u64::MAX {
        u64::MAX
    } else {
        (a + b) as u64
    }
}

/// Total RAM over a list of samples, saturating at `u64::MAX`.
pub open spec fn spec_sum_ram(s: Seq<Stats>) -> u64
    decreases s.len(),
{
    if s.len() == 0 {
        0
    } else {
        spec_sat_add(spec_sum_ram(s.drop_last()), s.last().ram)
    }
}

/// Total CPU over a list of samples: absent when no sample carries a CPU
/// reading, otherwise the saturating sum of those that do.
pub open spec fn spec_sum_cpu(s: Seq<Stats>) -> Option<u64>
    decreases s.len(),
{
    if s.len() == 0 {
        Option::None
    } else {
        match (spec_sum_cpu(s.drop_last()), s.last().cpu) {
            (Option::None, Option::None) => Option::None,
            (Option::None, Option::Some(c)) => Option::Some(c),
            (Option::Some(a), Option::None) => Option::Some(a),
            (Option::Some(a), Option::Some(c)) => Option::Some(spec_sat_add(a, c)),
        }
    }
}

/// Aggregate stats of a group: absent when no container was sampled, else
/// the sums across the sampled containers.
pub open spec fn spec_group_stats(
    ids: Seq<Seq<char>>,
    stats: Seq<(Seq<char>, Stats)>,
) -> Option<Stats> {
    let present = spec_present_stats(ids, stats);
    if present.len() == 0 {
        Option::None
    } else {
        Option::Some(Stats { ram: spec_sum_ram(present), cpu: spec_sum_cpu(present) })
    }
}

/// The workspace a finished group reconciles to.
pub open spec fn spec_workspace_of(
    g: GroupV,
    dirty: Seq<(Seq<char>, bool)>,
    stats: Seq<(Seq<char>, Stats)>,
    execs: Seq<(Seq<char>, Seq<ExecSessionV>)>,
) -> WorkspaceV {
    WorkspaceV {
        path: g.path,
        project: g.project,
        compose_project_name: spec_slug(g.path),
        container_ids: g.ids,
        dirty: spec_dirty(dirty, g.path),
        execs: spec_group_execs(g.ids, execs),
        status: spec_status_max(g.states),
        stats: spec_group_stats(g.ids, stats),
    }
}

/// The full reconciliation: group the in-scope containers by worktree path,
/// merge in container-less worktrees, and derive every workspace's aggregate
/// fields. A pure function of its inputs.
pub open spec fn spec_reconcile(
    cs: Seq<ContainerInfoV>,
    scope: Option<Seq<char>>,
    wts: Seq<WorktreeEntryV>,
    dirty: Seq<(Seq<char>, bool)>,
    stats: Seq<(Seq<char>, Stats)>,
    execs: Seq<(Seq<char>, Seq<ExecSessionV>)>,
) -> Seq<WorkspaceV> {
    let gs = spec_merge_worktrees(spec_groups_of(spec_scope_filter(cs, scope)), wts);
    gs.map_values(|g: GroupV| spec_workspace_of(g, dirty, stats, execs))
}

/// For any group of containers mapped onto a workspace, the reconciled
/// status is the maximum of their states under the liveness total order: it
/// bounds every member, it is one of the members when the group is
/// nonempty, and a workspace with zero containers has status `Empty`.
pub proof fn lemma_workspace_status_is_max(
    g: GroupV,
    dirty: Seq<(Seq<char>, bool)>,
    stats: Seq<(Seq<char>, Stats)>,
    execs: Seq<(Seq<char>, Seq<ExecSessionV>)>,
)
    ensures
        spec_workspace_of(g, dirty, stats, execs).status == spec_status_max(g.states),
        forall|i: int|
            0 <= i < g.states.len() ==> crate::status::rank(g.states[i]) <= crate::status::rank(
                spec_workspace_of(g, dirty, stats, execs).status,
            ),
        g.states.len() == 0 ==> spec_workspace_of(g, dirty, stats, execs).status == Status::Empty,
        g.states.len() > 0 ==> exists|i: int|
            0 <= i < g.states.len() && g.states[i] == spec_workspace_of(
                g,
                dirty,
                stats,
                execs,
            ).status,
{
    crate::status::lemma_status_max_is_max(g.states);
}

/// Reconciliation is idempotent: it is a pure function of its inputs, so
/// two reconciliations against unchanged backing listings produce workspace
/// sequences with identical field values.
pub proof fn lemma_reconcile_idempotent(
    a: Seq<WorkspaceV>,
    b: Seq<WorkspaceV>,
    cs: Seq<ContainerInfoV>,
    scope: Option<Seq<char>>,
    wts: Seq<WorktreeEntryV>,
    dirty: Seq<(Seq<char>, bool)>,
    stats: Seq<(Seq<char>, Stats)>,
    execs: Seq<(Seq<char>, Seq<ExecSessionV>)>,
)
    requires
        a == spec_reconcile(cs, scope, wts, dirty, stats, execs),
        b == spec_reconcile(cs, scope, wts, dirty, stats, execs),
    ensures
        a == b,
{
}


/// Pairwise-distinct group paths: the grouping key is unique.
pub open spec fn groups_distinct(gs: Seq<GroupV>) -> bool {
    forall|i: int, j: int| 0 <= i < j < gs.len() ==> (#[trigger] gs[i]).path != (#[trigger] gs[j]).path
}

proof fn lemma_add_container_distinct(gs: Seq<GroupV>, c: ContainerInfoV)
    requires
        groups_distinct(gs),
    ensures
        groups_distinct(spec_add_container(gs, c)),
{
    lemma_find_group(gs, c.local_folder);
    let i = find_group(gs, c.local_folder);
    let out = spec_add_container(gs, c);
    if 0 <= i < gs.len() {
        assert forall|a: int, b: int| 0 <= a < b < out.len() implies out[a].path != out[b].path by {
            assert(out[a].path == gs[a].path);
            assert(out[b].path == gs[b].path);
        }
    } else {
        assert forall|a: int, b: int| 0 <= a < b < out.len() implies out[a].path != out[b].path by {
            if b < gs.len() {
                assert(out[a].path == gs[a].path && out[b].path == gs[b].path);
            } else {
                assert(out[b].path == c.local_folder);
                assert(out[a].path == gs[a].path);
                assert(gs[a].path != c.local_folder);
            }
        }
    }
}

proof fn lemma_add_worktree_distinct(gs: Seq<GroupV>, wt: WorktreeEntryV)
    requires
        groups_distinct(gs),
    ensures
        groups_distinct(spec_add_worktree(gs, wt)),
{
    lemma_find_group(gs, wt.path);
    let i = find_group(gs, wt.path);
    let out = spec_add_worktree(gs, wt);
    if !(i >= 0) {
        assert forall|a: int, b: int| 0 <= a < b < out.len() implies out[a].path != out[b].path by {
            if b < gs.len() {
                assert(out[a].path == gs[a].path && out[b].path == gs[b].path);
            } else {
                assert(out[b].path == wt.path);
                assert(out[a].path == gs[a].path);
                assert(gs[a].path != wt.path);
            }
        }
    }
}

proof fn lemma_groups_of_distinct(cs: Seq<ContainerInfoV>)
    ensures
        groups_distinct(spec_groups_of(cs)),
    decreases cs.len(),
{
    if cs.len() > 0 {
        lemma_groups_of_distinct(cs.drop_last());
        lemma_add_container_distinct(spec_groups_of(cs.drop_last()), cs.last());
    }
}

proof fn lemma_merge_worktrees_distinct(gs: Seq<GroupV>, wts: Seq<WorktreeEntryV>)
    requires
        groups_distinct(gs),
    ensures
        groups_distinct(spec_merge_worktrees(gs, wts)),
    decreases wts.len(),
{
    if wts.len() > 0 {
        lemma_merge_worktrees_distinct(gs, wts.drop_last());
        lemma_add_worktree_distinct(spec_merge_worktrees(gs, wts.drop_last()), wts.last());
    }
}

/// One workspace per distinct worktree path, never duplicated: any two
/// distinct workspaces a reconciliation produces have different paths.
pub proof fn lemma_reconcile_paths_distinct(
    cs: Seq<ContainerInfoV>,
    scope: Option<Seq<char>>,
    wts: Seq<WorktreeEntryV>,
    dirty: Seq<(Seq<char>, bool)>,
    stats: Seq<(Seq<char>, Stats)>,
    execs: Seq<(Seq<char>, Seq<ExecSessionV>)>,
)
    ensures
        forall|i: int, j: int|
            0 <= i < j < spec_reconcile(cs, scope, wts, dirty, stats, execs).len() ==> (
            #[trigger] spec_reconcile(cs, scope, wts, dirty, stats, execs)[i]).path != (
            #[trigger] spec_reconcile(cs, scope, wts, dirty, stats, execs)[j]).path,
{
    let gs = spec_merge_worktrees(spec_groups_of(spec_scope_filter(cs, scope)), wts);
    lemma_groups_of_distinct(spec_scope_filter(cs, scope));
    lemma_merge_worktrees_distinct(spec_groups_of(spec_scope_filter(cs, scope)), wts);
    let out = spec_reconcile(cs, scope, wts, dirty, stats, execs);
    assert forall|i: int, j: int| 0 <= i < j < out.len() implies out[i].path != out[j].path by {
        assert(out[i] == spec_workspace_of(gs[i], dirty, stats, execs));
        assert(out[j] == spec_workspace_of(gs[j], dirty, stats, execs));
        assert(gs[i].path != gs[j].path);
    }
}

/// Whether the container is in the project scope, as executable code.
#[verifier::loop_isolation(false)]
fn in_scope_exec(c: &ContainerInfo, scope: &Option<String>) -> (r: bool)
    ensures
        r == in_scope(c.deep_view(), scope.deep_view()),
{
    match scope {
        Option::None => true,
        Option::Some(p) => match &c.dc_project {
            Option::Some(q) => str_eq(p.as_str(), q.as_str()),
            Option::None => false,
        },
    }
}

/// Whether the worktree path is dirty per the listing; absent paths are
/// clean.
#[verifier::loop_isolation(false)]
pub fn lookup_dirty(pairs: &Vec<(String, bool)>, key: &str) -> (r: bool)
    ensures
        r == spec_dirty(pairs.deep_view(), key@),
{
    proof {
        lemma_lookup_idx(pairs.deep_view(), key@);
    }
    let mut j: usize = 0;
    while j < pairs.len()
        invariant
            0 <= j <= pairs@.len(),
            forall|k: int| 0 <= k < j ==> (#[trigger] pairs.deep_view()[k]).0 != key@,
        decreases pairs@.len() - j,
    {
        if str_eq(pairs[j].0.as_str(), key) {
            proof {
                let dv = pairs.deep_view();
                let i = spec_lookup_idx(dv, key@);
                assert(dv[j as int].0 == key@);
                assert(i != -1);
                assert(0 <= i < dv.len());
                if i < j {
                    assert(dv[i].0 != key@);
                }
                if i > j as int {
                    assert(dv[j as int].0 != key@);
                }
                assert(i == j as int);
            }
            return pairs[j].1;
        }
        j += 1;
    }
    proof {
        let dv = pairs.deep_view();
        let i = spec_lookup_idx(dv, key@);
        if i >= 0 {
            assert(dv[i].0 != key@);
        }
    }
    false
}

/// The sampled stats of one container, if the listing has them.
#[verifier::loop_isolation(false)]
pub fn lookup_stats(pairs: &Vec<(String, Stats)>, key: &str) -> (r: Option<Stats>)
    ensures
        r == spec_lookup(pairs.deep_view(), key@),
{
    proof {
        lemma_lookup_idx(pairs.deep_view(), key@);
    }
    let mut j: usize = 0;
    while j < pairs.len()
        invariant
            0 <= j <= pairs@.len(),
            forall|k: int| 0 <= k < j ==> (#[trigger] pairs.deep_view()[k]).0 != key@,
        decreases pairs@.len() - j,
    {
        if str_eq(pairs[j].0.as_str(), key) {
            proof {
                let dv = pairs.deep_view();
                let i = spec_lookup_idx(dv, key@);
                assert(dv[j as int].0 == key@);
                assert(i != -1);
                if i < j {
                    assert(dv[i].0 != key@);
                }
                if i > j as int {
                    assert(dv[j as int].0 != key@);
                }
                assert(i == j as int);
            }
            return Option::Some(pairs[j].1);
        }
        j += 1;
    }
    proof {
        let dv = pairs.deep_view();
        let i = spec_lookup_idx(dv, key@);
        if i >= 0 {
            assert(dv[i].0 != key@);
        }
    }
    Option::None
}

/// The exec sessions of one container, cloned out of the listing, if any.
#[verifier::loop_isolation(false)]
fn lookup_execs(pairs: &Vec<(String, Vec<ExecSession>)>, key: &str) -> (r: Option<Vec<ExecSession>>)
    ensures
        r.deep_view() == spec_lookup(pairs.deep_view(), key@),
{
    proof {
        lemma_lookup_idx(pairs.deep_view(), key@);
    }
    let mut j: usize = 0;
    while j < pairs.len()
        invariant
            0 <= j <= pairs@.len(),
            forall|k: int| 0 <= k < j ==> (#[trigger] pairs.deep_view()[k]).0 != key@,
        decreases pairs@.len() - j,
    {
        if str_eq(pairs[j].0.as_str(), key) {
            let found = pairs[j].1.clone();
            proof {
                let dv = pairs.deep_view();
                let i = spec_lookup_idx(dv, key@);
                assert(dv[j as int].0 == key@);
                assert(i != -1);
                if i < j {
                    assert(dv[i].0 != key@);
                }
                if i > j as int {
                    assert(dv[j as int].0 != key@);
                }
                assert(i == j as int);
                assert(found.deep_view() =~~= dv[j as int].1);
            }
            return Option::Some(found);
        }
        j += 1;
    }
    proof {
        let dv = pairs.deep_view();
        let i = spec_lookup_idx(dv, key@);
        if i >= 0 {
            assert(dv[i].0 != key@);
        }
    }
    Option::None
}

/// Fold one container into the groups, as executable code.
#[verifier::loop_isolation(false)]
fn add_container(groups: &mut Vec<Group>, c: ContainerInfo)
    ensures
        final(groups).deep_view() == spec_add_container(old(groups).deep_view(), c.deep_view()),
{
    proof {
        lemma_find_group(groups.deep_view(), c.local_folder@);
    }
    let ghost gdv = groups.deep_view();
    let ghost cv = c.deep_view();
    let mut j: usize = 0;
    while j < groups.len()
        invariant
            0 <= j <= gdv.len(),
            groups@ == old(groups)@,
            forall|k: int| 0 <= k < j ==> (#[trigger] gdv[k]).path != c.local_folder@,
        decreases gdv.len() - j,
    {
        if str_eq(groups[j].path.as_str(), c.local_folder.as_str()) {
            proof {
                let i = find_group(gdv, cv.local_folder);
                assert(gdv[j as int] == old(groups)@[j as int].deep_view());
                assert(gdv[j as int].path == cv.local_folder);
                assert(i != -1);
                if i < j {
                    assert(gdv[i].path != cv.local_folder);
                }
                if i > j as int {
                    assert(gdv[j as int].path != cv.local_folder);
                }
                assert(i == j as int);
            }
            let ghost before = groups@;
            let mut g = groups.remove(j);
            g.ids.push(c.id);
            g.states.push(c.state);
            proof {
                assert forall|m: int| 0 <= m < g.ids.deep_view().len() implies g.ids.deep_view()[m]
                    == gdv[j as int].ids.push(cv.id)[m] by {
                    if m < g.ids@.len() - 1 {
                        assert(g.ids@[m] == before[j as int].ids@[m]);
                    } else {
                        assert(g.ids@[m] == c.id);
                    }
                }
                assert(g.ids.deep_view() =~= gdv[j as int].ids.push(cv.id));
                assert(g.states@ =~= gdv[j as int].states.push(cv.state));
                assert(g.deep_view() =~= GroupV {
                    path: gdv[j as int].path,
                    project: gdv[j as int].project,
                    ids: gdv[j as int].ids.push(cv.id),
                    states: gdv[j as int].states.push(cv.state),
                });
            }
            groups.insert(j, g);
            proof {
                let expected = spec_add_container(gdv, cv);
                assert(groups@.len() == before.len());
                assert forall|k: int| 0 <= k < groups@.len() implies groups.deep_view()[k]
                    == expected[k] by {
                    if k < j {
                        assert(groups@[k] == before[k]);
                    } else if k == j as int {
                        assert(groups@[k] == g);
                    } else {
                        assert(groups@[k] == before.remove(j as int).insert(j as int, g)[k]);
                        assert(groups@[k] == before[k]);
                    }
                }
                assert(groups.deep_view() =~= expected);
            }
            return ;
        }
        j += 1;
    }
    proof {
        let i = find_group(gdv, cv.local_folder);
        if i >= 0 {
            assert(gdv[i].path != cv.local_folder);
        }
        assert(i == -1);
    }
    let ghost before = groups@;
    let ContainerInfo { id, state, local_folder, dc_project, .. } = c;
    let project = match dc_project {
        Option::Some(p) => p,
        Option::None => String::new(),
    };
    let mut ids: Vec<String> = Vec::new();
    ids.push(id);
    let mut states: Vec<Status> = Vec::new();
    states.push(state);
    let g = Group { path: local_folder, project, ids, states };
    proof {
        assert(g.ids.deep_view() =~= seq![cv.id]);
        assert(g.states@ =~= seq![cv.state]);
        assert(g.project@ == project_of(cv));
        assert(g.deep_view() =~= GroupV {
            path: cv.local_folder,
            project: project_of(cv),
            ids: seq![cv.id],
            states: seq![cv.state],
        });
    }
    groups.push(g);
    proof {
        assert(groups.deep_view() =~= spec_add_container(gdv, cv));
    }
}

/// Fold one worktree into the groups, as executable code.
#[verifier::loop_isolation(false)]
fn add_worktree(groups: &mut Vec<Group>, wt: WorktreeEntry)
    ensures
        final(groups).deep_view() == spec_add_worktree(old(groups).deep_view(), wt.deep_view()),
{
    proof {
        lemma_find_group(groups.deep_view(), wt.path@);
    }
    let ghost gdv = groups.deep_view();
    let ghost wv = wt.deep_view();
    let mut j: usize = 0;
    while j < groups.len()
        invariant
            0 <= j <= gdv.len(),
            groups@ == old(groups)@,
            forall|k: int| 0 <= k < j ==> (#[trigger] gdv[k]).path != wt.path@,
        decreases gdv.len() - j,
    {
        if str_eq(groups[j].path.as_str(), wt.path.as_str()) {
            proof {
                let i = find_group(gdv, wv.path);
                assert(gdv[j as int] == old(groups)@[j as int].deep_view());
                assert(gdv[j as int].path == wv.path);
                assert(i != -1);
            }
            return ;
        }
        j += 1;
    }
    proof {
        let i = find_group(gdv, wv.path);
        if i >= 0 {
            assert(gdv[i].path != wv.path);
        }
        assert(i == -1);
    }
    let WorktreeEntry { path, project } = wt;
    let g = Group { path, project, ids: Vec::new(), states: Vec::new() };
    proof {
        assert(g.deep_view() =~= GroupV {
            path: wv.path,
            project: wv.project,
            ids: Seq::empty(),
            states: Seq::empty(),
        });
    }
    groups.push(g);
    proof {
        assert(groups.deep_view() =~= spec_add_worktree(gdv, wv));
    }
}

/// The exec sessions of a group, concatenated in container order.
#[verifier::loop_isolation(false)]
pub fn group_execs(ids: &Vec<String>, execs: &Vec<(String, Vec<ExecSession>)>) -> (r: Vec<
    ExecSession,
>)
    ensures
        r.deep_view() == spec_group_execs(ids.deep_view(), execs.deep_view()),
{
    let mut out: Vec<ExecSession> = Vec::new();
    let mut i: usize = 0;
    while i < ids.len()
        invariant
            0 <= i <= ids@.len(),
            out.deep_view() == spec_group_execs(ids.deep_view().take(i as int), execs.deep_view()),
        decreases ids@.len() - i,
    {
        proof {
            assert(ids.deep_view().take(i + 1).drop_last() =~= ids.deep_view().take(i as int));
            assert(ids.deep_view().take(i + 1).last() == ids.deep_view()[i as int]);
        }
        let ghost old_dv = out.deep_view();
        match lookup_execs(execs, ids[i].as_str()) {
            Option::Some(mut found) => {
                let ghost fdv = found.deep_view();
                out.append(&mut found);
                proof {
                    assert(out.deep_view() =~= old_dv + fdv);
                }
            },
            Option::None => {
                proof {
                    assert(out.deep_view() =~= old_dv + Seq::<ExecSessionV>::empty());
                }
            },
        }
        i += 1;
    }
    proof {
        assert(ids.deep_view().take(ids@.len() as int) =~= ids.deep_view());
    }
    out
}

/// Aggregate the sampled stats of a group: sums across its sampled
/// containers, saturating at `u64::MAX`; absent when none was sampled.
#[verifier::loop_isolation(false)]
pub fn group_stats(ids: &Vec<String>, stats: &Vec<(String, Stats)>) -> (r: Option<Stats>)
    ensures
        r == spec_group_stats(ids.deep_view(), stats.deep_view()),
{
    let mut present: Vec<Stats> = Vec::new();
    let mut i: usize = 0;
    while i < ids.len()
        invariant
            0 <= i <= ids@.len(),
            present@ == spec_present_stats(ids.deep_view().take(i as int), stats.deep_view()),
        decreases ids@.len() - i,
    {
        proof {
            assert(ids.deep_view().take(i + 1).drop_last() =~= ids.deep_view().take(i as int));
            assert(ids.deep_view().take(i + 1).last() == ids.deep_view()[i as int]);
        }
        let ghost old_dv = present@;
        match lookup_stats(stats, ids[i].as_str()) {
            Option::Some(s) => {
                present.push(s);
                proof {
                    assert(present@ =~= old_dv + seq![s]);
                }
            },
            Option::None => {
                proof {
                    assert(present@ =~= old_dv + Seq::<Stats>::empty());
                }
            },
        }
        i += 1;
    }
    proof {
        assert(ids.deep_view().take(ids@.len() as int) =~= ids.deep_view());
    }
    if present.len() == 0 {
        return Option::None;
    }
    let mut ram: u64 = 0;
    let mut cpu: Option<u64> = Option::None;
    let mut i: usize = 0;
    while i < present.len()
        invariant
            0 <= i <= present@.len(),
            ram == spec_sum_ram(present@.take(i as int)),
            cpu == spec_sum_cpu(present@.take(i as int)),
        decreases present@.len() - i,
    {
        proof {
            assert(present@.take(i + 1).drop_last() =~= present@.take(i as int));
            assert(present@.take(i + 1).last() == present@[i as int]);
        }
        let s = present[i];
        ram = if ram <= u64::MAX - s.ram {
            ram + s.ram
        } else {
            u64::MAX
        };
        cpu = match (cpu, s.cpu) {
            (Option::None, Option::None) => Option::None,
            (Option::None, Option::Some(c)) => Option::Some(c),
            (Option::Some(a), Option::None) => Option::Some(a),
            (Option::Some(a), Option::Some(c)) => Option::Some(
                if a <= u64::MAX - c {
                    a + c
                } else {
                    u64::MAX
                },
            ),
        };
        i += 1;
    }
    proof {
        assert(present@.take(present@.len() as int) =~= present@);
    }
    Option::Some(Stats { ram, cpu })
}

/// Reconcile container, worktree and enrichment listings into one workspace
/// per distinct worktree path.
///
/// Containers outside the project scope are discarded. Containers are
/// grouped by their worktree-path label in first-appearance order; worktrees
/// without containers follow as empty groups. Every workspace's status is
/// the maximum of its containers' states (`Empty` for none), its dirty flag
/// comes from the dirty listing (clean when absent), its exec sessions and
/// stats are concatenated and summed per container, and its slug is derived
/// from its path. Reconciliation is a pure function of its inputs: two calls
/// on unchanged listings produce identical workspaces.
#[verifier::loop_isolation(false)]
pub fn reconcile(
    containers: Vec<ContainerInfo>,
    project_scope: Option<String>,
    worktrees: Vec<WorktreeEntry>,
    dirty: Vec<(String, bool)>,
    stats: Vec<(String, Stats)>,
    execs: Vec<(String, Vec<ExecSession>)>,
) -> (r: Vec<Workspace>)
    ensures
        r.deep_view() == spec_reconcile(
            containers.deep_view(),
            project_scope.deep_view(),
            worktrees.deep_view(),
            dirty.deep_view(),
            stats.deep_view(),
            execs.deep_view(),
        ),
{
    let ghost cs = containers.deep_view();
    let ghost scope = project_scope.deep_view();
    let ghost wts = worktrees.deep_view();

    // Group the in-scope containers by worktree path.
    let mut groups: Vec<Group> = Vec::new();
    let mut rest = containers;
    let ghost mut done: int = 0;
    proof {
        assert(cs.skip(0) =~= cs);
        assert(spec_scope_filter(cs.take(0), scope) =~= Seq::<ContainerInfoV>::empty());
    }
    while rest.len() > 0
        invariant
            0 <= done <= cs.len(),
            rest.deep_view() == cs.skip(done),
            groups.deep_view() == spec_groups_of(spec_scope_filter(cs.take(done), scope)),
        decreases rest@.len(),
    {
        proof {
            assert(rest.deep_view().len() == rest@.len());
            assert(cs.skip(done).len() == cs.len() - done);
            assert(done < cs.len());
        }
        let ghost rest_before = rest@;
        let c = rest.remove(0);
        proof {
            assert(c == rest_before[0]);
            assert(rest_before[0].deep_view() == cs.skip(done)[0]);
            assert(cs.skip(done)[0] == cs[done]);
            assert(c.deep_view() == cs[done]);
            assert forall|k: int| 0 <= k < rest@.len() implies rest.deep_view()[k] == cs.skip(
                done + 1,
            )[k] by {
                assert(rest@[k] == rest_before[k + 1]);
                assert(rest_before[k + 1].deep_view() == cs.skip(done)[k + 1]);
            }
            assert(rest.deep_view() =~= cs.skip(done + 1));
            assert(cs.take(done + 1).drop_last() =~= cs.take(done));
            assert(cs.take(done + 1).last() == cs[done]);
        }
        let ghost filtered_before = spec_scope_filter(cs.take(done), scope);
        if in_scope_exec(&c, &project_scope) {
            add_container(&mut groups, c);
            proof {
                assert(spec_scope_filter(cs.take(done + 1), scope) == filtered_before.push(
                    cs[done],
                ));
                assert(filtered_before.push(cs[done]).drop_last() =~= filtered_before);
                assert(filtered_before.push(cs[done]).last() == cs[done]);
            }
        } else {
            proof {
                assert(spec_scope_filter(cs.take(done + 1), scope) == filtered_before);
            }
        }
        proof {
            done = done + 1;
        }
    }
    proof {
        assert(cs.take(cs.len() as int) =~= cs);
    }

    // Merge in the worktrees that have no containers yet.
    let mut wrest = worktrees;
    let ghost mut wdone: int = 0;
    proof {
        assert(wts.skip(0) =~= wts);
        assert(spec_merge_worktrees(spec_groups_of(spec_scope_filter(cs, scope)), wts.take(0))
            =~= spec_groups_of(spec_scope_filter(cs, scope)));
    }
    while wrest.len() > 0
        invariant
            0 <= wdone <= wts.len(),
            wrest.deep_view() == wts.skip(wdone),
            groups.deep_view() == spec_merge_worktrees(
                spec_groups_of(spec_scope_filter(cs, scope)),
                wts.take(wdone),
            ),
        decreases wrest@.len(),
    {
        proof {
            assert(wrest.deep_view().len() == wrest@.len());
            assert(wdone < wts.len());
        }
        let ghost wrest_before = wrest@;
        let wt = wrest.remove(0);
        proof {
            assert(wt == wrest_before[0]);
            assert(wrest_before[0].deep_view() == wts.skip(wdone)[0]);
            assert(wt.deep_view() == wts[wdone]);
            assert forall|k: int| 0 <= k < wrest@.len() implies wrest.deep_view()[k] == wts.skip(
                wdone + 1,
            )[k] by {
                assert(wrest@[k] == wrest_before[k + 1]);
                assert(wrest_before[k + 1].deep_view() == wts.skip(wdone)[k + 1]);
            }
            assert(wrest.deep_view() =~= wts.skip(wdone + 1));
            assert(wts.take(wdone + 1).drop_last() =~= wts.take(wdone));
            assert(wts.take(wdone + 1).last() == wts[wdone]);
        }
        add_worktree(&mut groups, wt);
        proof {
            wdone = wdone + 1;
        }
    }
    proof {
        assert(wts.take(wts.len() as int) =~= wts);
    }
    let ghost gs = groups.deep_view();

    // Derive each group's workspace.
    let ghost ddv = dirty.deep_view();
    let ghost sdv = stats.deep_view();
    let ghost edv = execs.deep_view();
    let mut out: Vec<Workspace> = Vec::new();
    let mut grest = groups;
    let ghost mut gdone: int = 0;
    proof {
        assert(gs.skip(0) =~= gs);
        assert(out.deep_view() =~= gs.take(0).map_values(
            |g: GroupV| spec_workspace_of(g, ddv, sdv, edv),
        ));
    }
    while grest.len() > 0
        invariant
            0 <= gdone <= gs.len(),
            grest.deep_view() == gs.skip(gdone),
            dirty.deep_view() == ddv,
            stats.deep_view() == sdv,
            execs.deep_view() == edv,
            out.deep_view() == gs.take(gdone).map_values(
                |g: GroupV| spec_workspace_of(g, ddv, sdv, edv),
            ),
        decreases grest@.len(),
    {
        proof {
            assert(grest.deep_view().len() == grest@.len());
            assert(gdone < gs.len());
        }
        let ghost grest_before = grest@;
        let g = grest.remove(0);
        proof {
            assert(g == grest_before[0]);
            assert(grest_before[0].deep_view() == gs.skip(gdone)[0]);
            assert(g.deep_view() == gs[gdone]);
            assert forall|k: int| 0 <= k < grest@.len() implies grest.deep_view()[k] == gs.skip(
                gdone + 1,
            )[k] by {
                assert(grest@[k] == grest_before[k + 1]);
                assert(grest_before[k + 1].deep_view() == gs.skip(gdone)[k + 1]);
            }
            assert(grest.deep_view() =~= gs.skip(gdone + 1));
        }
        let compose_project_name_s = compose_project_name(g.path.as_str());
        let dirty_flag = lookup_dirty(&dirty, g.path.as_str());
        let ws_execs = group_execs(&g.ids, &execs);
        let ws_stats = group_stats(&g.ids, &stats);
        let ws_status = status_of_states(&g.states);
        let ws = Workspace {
            path: g.path,
            project: g.project,
            compose_project_name: compose_project_name_s,
            container_ids: g.ids,
            dirty: dirty_flag,
            execs: ws_execs,
            status: ws_status,
            stats: ws_stats,
        };
        let ghost old_dv = out.deep_view();
        out.push(ws);
        proof {
            assert(ws.deep_view() == spec_workspace_of(gs[gdone], ddv, sdv, edv));
            assert(out.deep_view() =~= old_dv.push(ws.deep_view()));
            assert(gs.take(gdone + 1).map_values(
                |g2: GroupV| spec_workspace_of(g2, ddv, sdv, edv),
            ) =~= old_dv.push(ws.deep_view()));
            gdone = gdone + 1;
        }
    }
    proof {
        assert(gs.take(gs.len() as int) =~= gs);
    }
    out
}

} // verus!

use devconcurrent::{reconcile, ContainerInfo, Stats, Status, WorktreeEntry};

fn container(id: &str, path: &str, state: Status) -> ContainerInfo {
    ContainerInfo {
        id: id.to_string(),
        state,
        local_folder: path.to_string(),
        dc_project: Some("proj".to_string()),
        created: None,
        host_ports: vec![],
    }
}

fn worktree(path: &str) -> WorktreeEntry {
    WorktreeEntry {
        path: path.to_string(),
        project: "proj".to_string(),
    }
}

#[test]
fn two_containers_and_a_bare_worktree() {
    // C1(path=/ws/a, Running), C2(path=/ws/a, Exited), worktrees [/ws/a, /ws/b]:
    // exactly two workspaces; /ws/a Running with 2 container ids; /ws/b Empty
    // with none.
    let containers = vec![
        container("c1", "/ws/a", Status::Running),
        container("c2", "/ws/a", Status::Exited),
    ];
    let worktrees = vec![worktree("/ws/a"), worktree("/ws/b")];
    let out = reconcile(containers, None, worktrees, vec![], vec![], vec![]);
    assert_eq!(out.len(), 2);
    assert_eq!(out[0].path, "/ws/a");
    assert_eq!(out[0].status, Status::Running);
    assert_eq!(out[0].container_ids, vec!["c1".to_string(), "c2".to_string()]);
    assert_eq!(out[1].path, "/ws/b");
    assert_eq!(out[1].status, Status::Empty);
    assert_eq!(out[1].container_ids.len(), 0);
}

#[test]
fn status_is_maximum_of_states() {
    let containers = vec![
        container("c1", "/ws/a", Status::Dead),
        container("c2", "/ws/a", Status::Paused),
        container("c3", "/ws/a", Status::Exited),
    ];
    let out = reconcile(containers, None, vec![], vec![], vec![], vec![]);
    assert_eq!(out.len(), 1);
    assert_eq!(out[0].status, Status::Paused);
}

#[test]
fn zero_containers_means_empty_status() {
    let out = reconcile(
        vec![],
        None,
        vec![worktree("/ws/only")],
        vec![],
        vec![],
        vec![],
    );
    assert_eq!(out.len(), 1);
    assert_eq!(out[0].status, Status::Empty);
    assert!(out[0].stats.is_none());
}

#[test]
fn reconcile_is_idempotent_on_equal_inputs() {
    let build = || {
        reconcile(
            vec![
                container("c1", "/ws/a", Status::Running),
                container("c2", "/ws/b", Status::Exited),
            ],
            None,
            vec![worktree("/ws/a"), worktree("/ws/b"), worktree("/ws/c")],
            vec![("/ws/a".to_string(), true)],
            vec![(
                "c1".to_string(),
                Stats {
                    ram: 512,
                    cpu: Some(150),
                },
            )],
            vec![],
        )
    };
    let a = build();
    let b = build();
    assert_eq!(a.len(), b.len());
    for (x, y) in a.iter().zip(b.iter()) {
        assert_eq!(x.path, y.path);
        assert_eq!(x.project, y.project);
        assert_eq!(x.compose_project_name, y.compose_project_name);
        assert_eq!(x.container_ids, y.container_ids);
        assert_eq!(x.dirty, y.dirty);
        assert_eq!(x.status, y.status);
        assert_eq!(x.execs.len(), y.execs.len());
        match (&x.stats, &y.stats) {
            (None, None) => {}
            (Some(s), Some(t)) => {
                assert_eq!(s.ram, t.ram);
                assert_eq!(s.cpu, t.cpu);
            }
            _ => panic!("stats differ between two identical reconciliations"),
        }
    }
}

#[test]
fn stats_are_summed_across_containers() {
    let containers = vec![
        container("c1", "/ws/a", Status::Running),
        container("c2", "/ws/a", Status::Running),
        container("c3", "/ws/a", Status::Running),
    ];
    let stats = vec![
        ("c1".to_string(), Stats { ram: 100, cpu: Some(50) }),
        ("c2".to_string(), Stats { ram: 200, cpu: None }),
        ("c3".to_string(), Stats { ram: 300, cpu: Some(25) }),
    ];
    let out = reconcile(containers, None, vec![], vec![], stats, vec![]);
    assert_eq!(out.len(), 1);
    let s = out[0].stats.as_ref().unwrap();
    assert_eq!(s.ram, 600);
    assert_eq!(s.cpu, Some(75));
}

#[test]
fn out_of_scope_containers_are_discarded() {
    let mut other = container("c9", "/ws/z", Status::Running);
    other.dc_project = Some("someone-else".to_string());
    let containers = vec![container("c1", "/ws/a", Status::Running), other];
    let out = reconcile(
        containers,
        Some("proj".to_string()),
        vec![],
        vec![],
        vec![],
        vec![],
    );
    assert_eq!(out.len(), 1);
    assert_eq!(out[0].path, "/ws/a");
}

#[test]
fn dirty_comes_from_the_listing_and_defaults_clean() {
    let containers = vec![
        container("c1", "/ws/a", Status::Running),
        container("c2", "/ws/b", Status::Running),
    ];
    let dirty = vec![("/ws/a".to_string(), true)];
    let out = reconcile(containers, None, vec![], dirty, vec![], vec![]);
    assert_eq!(out.len(), 2);
    assert!(out[0].dirty);
    assert!(!out[1].dirty);
}

#[test]
fn slug_is_derived_from_the_path() {
    let out = reconcile(
        vec![],
        None,
        vec![worktree("/ws/My Repo")],
        vec![],
        vec![],
        vec![],
    );
    assert_eq!(out[0].compose_project_name, "myrepo_devcontainer");
}

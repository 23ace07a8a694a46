use devconcurrent::cli::Copy as CopyArgs;
use devconcurrent::{
    choose_host_port, cleanup_plan, compose_base_args, compose_ps_tail, compose_up_tail,
    compute_cpu_percent, container_from_parts, copy_volume_plan, docker_exec_args,
    exec_session_from_parts, exec_target, find_workspace, group_forwarded_ports,
    is_completion_candidate, is_root, join_ports, kill_plan, parse_completions,
    parse_container_id, partition_prune, pick_workspace, port_conflict, resolve_name,
    retain_running, shell_function, sidecar_plan, sort_dedup_ports, trim, volume_name, Cmd,
    Compose, Config, Error, Project, ProjectOptions, ShellKind, Status, Workspace,
};

fn ws(path: &str, status: Status) -> Workspace {
    Workspace {
        path: path.to_string(),
        project: "proj".to_string(),
        compose_project_name: String::new(),
        container_ids: vec!["cid-1".to_string()],
        dirty: false,
        execs: vec![],
        status,
        stats: None,
    }
}

#[test]
fn exec_target_picks_the_named_running_workspace() {
    let list = vec![ws("/ws/a", Status::Exited), ws("/ws/b", Status::Running)];
    let (path, cid) = exec_target(list, "b").unwrap();
    assert_eq!(path, "/ws/b");
    assert_eq!(cid, "cid-1");
}

#[test]
fn exec_target_rejects_stopped_and_missing() {
    let stopped = exec_target(vec![ws("/ws/a", Status::Exited)], "a").unwrap_err();
    assert!(matches!(stopped, Error::Msg(_)));
    let missing = exec_target(vec![ws("/ws/a", Status::Running)], "zz").unwrap_err();
    assert!(matches!(missing, Error::NotFound(_)));
}

#[test]
fn retain_running_drops_everything_else() {
    let list = vec![
        ws("/ws/a", Status::Running),
        ws("/ws/b", Status::Exited),
        ws("/ws/c", Status::Running),
    ];
    let running = retain_running(list);
    assert_eq!(running.len(), 2);
    assert_eq!(running[0].path, "/ws/a");
    assert_eq!(running[1].path, "/ws/c");
}

#[test]
fn pick_workspace_handles_zero_one_many() {
    assert!(pick_workspace(vec![], None).is_err());
    let one = pick_workspace(vec![ws("/ws/a", Status::Running)], None).unwrap();
    assert_eq!(one.0, "/ws/a");
    let many = vec![ws("/ws/a", Status::Running), ws("/ws/b", Status::Running)];
    let picked = pick_workspace(many, Some(1)).unwrap();
    assert_eq!(picked.0, "/ws/b");
    let many2 = vec![ws("/ws/a", Status::Running), ws("/ws/b", Status::Running)];
    assert!(pick_workspace(many2, None).is_err());
}

#[test]
fn find_workspace_matches_by_basename() {
    let list = vec![ws("/ws/a", Status::Exited), ws("/ws/b", Status::Running)];
    let w = find_workspace(list, "a").unwrap();
    assert_eq!(w.path, "/ws/a");
}

#[test]
fn compose_invocation_is_assembled_exactly() {
    let compose = Compose {
        docker_compose_file: vec!["docker-compose.yml".to_string()],
        service: "dev".to_string(),
        run_services: Some(vec!["db".to_string()]),
        workspace_folder: "/work".to_string(),
        shutdown_action: Default::default(),
        override_command: false,
    };
    let base = compose_base_args(&compose, "/ws/app", "/tmp/app-override.yml");
    assert_eq!(
        base,
        vec![
            "compose",
            "--progress",
            "plain",
            "-p",
            "app_devcontainer",
            "-f",
            "/ws/app/.devcontainer/docker-compose.yml",
            "-f",
            "/tmp/app-override.yml"
        ]
    );
    // The primary service is appended when the run services lack it.
    assert_eq!(compose_up_tail(&compose), vec!["up", "-d", "--build", "db", "dev"]);
    assert_eq!(compose_ps_tail(&compose), vec!["ps", "-q", "dev"]);
}

#[test]
fn container_id_is_the_first_trimmed_line() {
    assert_eq!(trim("  abc\r "), "abc");
    let id = parse_container_id(true, "deadbeef\nother\n").unwrap();
    assert_eq!(id, "deadbeef");
    assert!(parse_container_id(true, "\n").is_err());
    assert!(parse_container_id(false, "deadbeef").is_err());
}

#[test]
fn cleanup_plan_tears_down_compose_and_worktree() {
    let plan = cleanup_plan("app_devcontainer", "/ws/app", true, false);
    assert_eq!(
        plan.compose_down,
        vec!["compose", "-p", "app_devcontainer", "down", "-v", "--remove-orphans"]
    );
    assert_eq!(plan.override_filename, "app_devcontainer-override.yml");
    assert_eq!(
        plan.worktree_remove.unwrap(),
        vec!["worktree", "remove", "/ws/app"]
    );
    let kept = cleanup_plan("x", "/ws/x", false, false);
    assert!(kept.worktree_remove.is_none());
}

#[test]
fn kill_plan_spares_the_root_worktree() {
    let plan = kill_plan("/tmp/ws", "feature", "/repo", true);
    assert_eq!(plan.worktree_path, "/tmp/ws/feature");
    assert!(!plan.is_root);
    assert_eq!(
        plan.cleanup.worktree_remove.unwrap(),
        vec!["worktree", "remove", "--force", "/tmp/ws/feature"]
    );
    let root = kill_plan("/repo-parent", "repo", "/repo-parent/repo", false);
    assert!(root.is_root);
    assert!(root.cleanup.worktree_remove.is_none());
}

#[test]
fn copy_volume_plan_binds_both_sides() {
    assert_eq!(volume_name("app_devcontainer", "cargo"), "app_devcontainer_cargo");
    let plan = copy_volume_plan("a_cargo", "b_cargo");
    assert_eq!(plan.binds, vec!["a_cargo:/from", "b_cargo:/to"]);
    assert_eq!(plan.cmd, vec!["sh", "-c", "cp -a /from/. /to/"]);
    // The Copy arguments carry what the command needs.
    let args = CopyArgs {
        project: None,
        from: Some("a".to_string()),
        to: Some("b".to_string()),
        volumes: vec!["cargo".to_string()],
    };
    assert_eq!(args.volumes.len(), 1);
}

#[test]
fn forward_port_selection_and_sidecar() {
    assert_eq!(choose_host_port(Some(8080), Some(9999)).unwrap(), 8080);
    assert_eq!(choose_host_port(None, Some(9999)).unwrap(), 9999);
    assert!(choose_host_port(None, None).is_err());
    let plan = sidecar_plan("proj", "app_devcontainer", 8080, 3000, "172.17.0.2");
    assert_eq!(plan.name, "dc-fwd-app_devcontainer");
    assert_eq!(plan.port_key, "8080/tcp");
    assert_eq!(plan.socat_listen, "TCP-LISTEN:8080,fork,reuseaddr");
    assert_eq!(plan.socat_target, "TCP:172.17.0.2:3000");
    assert_eq!(plan.host_ip, "127.0.0.1");
    assert_eq!(plan.labels.len(), 3);
    assert_eq!(plan.labels[2].1, "app_devcontainer");
}

#[test]
fn port_conflicts_skip_our_own_sidecars() {
    let others = vec![
        (true, vec![8080u16], "ours".to_string()),
        (false, vec![22u16, 8080u16], "intruder".to_string()),
    ];
    assert_eq!(port_conflict(&others, 8080).unwrap(), "intruder");
    assert!(port_conflict(&others, 5000).is_none());
}

#[test]
fn prune_partitions_worktrees() {
    let mut in_use_ws = ws("/tmp/ws/busy", Status::Running);
    in_use_ws.execs = vec![devconcurrent::ExecSession {
        pid: 42,
        command: vec!["bash".to_string()],
    }];
    let mut dirty_ws = ws("/tmp/ws/dirty", Status::Exited);
    dirty_ws.dirty = true;
    let clean_ws = ws("/tmp/ws/idle", Status::Exited);
    let workspaces = vec![in_use_ws, dirty_ws, clean_ws];
    let worktrees = vec![
        ("/tmp/ws/busy".to_string(), true),
        ("/tmp/ws/dirty".to_string(), true),
        ("/tmp/ws/idle".to_string(), true),
        ("/tmp/ws/gone".to_string(), false),
        ("/tmp/ws/unknown".to_string(), true),
    ];
    let parts = partition_prune(&worktrees, &workspaces);
    assert_eq!(parts.in_use, vec![0]);
    assert_eq!(parts.dirty, vec![1]);
    assert_eq!(parts.to_clean, vec![2]);
    assert_eq!(
        parts.orphans,
        vec!["/tmp/ws/gone".to_string(), "/tmp/ws/unknown".to_string()]
    );
}

#[test]
fn docker_exec_argv_carries_user_workdir_env() {
    let cmd = Cmd::Args(vec!["make".to_string(), "test".to_string()]);
    let env = vec![
        ("TERM".to_string(), Some("xterm".to_string())),
        ("PASSTHROUGH".to_string(), None),
    ];
    let args = docker_exec_args(
        "cid-1",
        &cmd,
        &Some("dev".to_string()),
        &Some("/work".to_string()),
        &env,
    );
    assert_eq!(
        args,
        vec![
            "exec", "-u", "dev", "-w", "/work", "-e", "TERM=xterm", "-e", "PASSTHROUGH", "cid-1",
            "make", "test"
        ]
    );
    let shell = Cmd::Shell("echo hi".to_string());
    assert_eq!(shell.as_args(), vec!["/bin/sh", "-c", "echo hi"]);
    assert_eq!(shell.command_text(), "echo hi");
    assert_eq!(cmd.command_text(), "make test");
}

#[test]
fn cpu_percent_comes_from_counter_deltas() {
    // delta 50 over delta 1000 on 2 CPUs: 10% -> 1000 hundredths.
    assert_eq!(compute_cpu_percent(150, 100, 2000, 1000, 2), 1000);
    // Empty or backwards intervals read as zero.
    assert_eq!(compute_cpu_percent(150, 100, 1000, 1000, 2), 0);
    assert_eq!(compute_cpu_percent(90, 100, 2000, 1000, 2), 0);
}

#[test]
fn container_records_come_from_labels() {
    let labels = vec![
        ("devcontainer.local_folder".to_string(), "/ws/a".to_string()),
        ("dev.dc.project".to_string(), "proj".to_string()),
    ];
    let c = container_from_parts(
        Some("cid".to_string()),
        Some(Status::Running),
        labels,
        Some(123),
        vec![80],
    )
    .unwrap();
    assert_eq!(c.local_folder, "/ws/a");
    assert_eq!(c.dc_project.as_deref(), Some("proj"));
    let missing = container_from_parts(Some("cid".to_string()), Some(Status::Running), vec![], None, vec![]);
    assert!(matches!(missing.unwrap_err(), Error::ParseFailure(_)));
}

#[test]
fn exec_sessions_keep_only_running_ones() {
    let none = exec_session_from_parts(Some(false), Some(1), None, vec![]).unwrap();
    assert!(none.is_none());
    let some = exec_session_from_parts(
        Some(true),
        Some(99),
        Some("/bin/zsh".to_string()),
        vec!["-l".to_string()],
    )
    .unwrap()
    .unwrap();
    assert_eq!(some.pid, 99);
    assert_eq!(some.command, vec!["/bin/zsh", "-l"]);
    let bad = exec_session_from_parts(Some(true), None, None, vec![]);
    assert!(matches!(bad.unwrap_err(), Error::ParseFailure(_)));
}

#[test]
fn forwarded_ports_group_and_sort() {
    let grouped = group_forwarded_ports(vec![
        ("a".to_string(), 3000),
        ("b".to_string(), 80),
        ("a".to_string(), 8080),
    ]);
    assert_eq!(grouped.len(), 2);
    assert_eq!(grouped[0].0, "a");
    assert_eq!(grouped[0].1, vec![3000, 8080]);
    assert_eq!(grouped[1].1, vec![80]);
    let sorted = sort_dedup_ports(&vec![8080, 80, 8080, 3000, 80]);
    assert_eq!(sorted, vec![80, 3000, 8080]);
    assert_eq!(join_ports(&sorted), "80,3000,8080");
}

#[test]
fn project_selection_prefers_the_named_project() {
    let cfg = Config {
        default_cmd: None,
        projects: vec![
            (
                "first".to_string(),
                Project {
                    path: "/repo1".to_string(),
                    options: ProjectOptions {
                        default_cmd: None,
                        workspace_dir: None,
                        fwd_port: Some(8080),
                    },
                },
            ),
            (
                "second".to_string(),
                Project {
                    path: "/repo2".to_string(),
                    options: ProjectOptions {
                        default_cmd: None,
                        workspace_dir: None,
                        fwd_port: None,
                    },
                },
            ),
        ],
    };
    let (name, p) = cfg.project(&None).unwrap();
    assert_eq!(name, "first");
    assert_eq!(p.path, "/repo1");
    let (name2, p2) = cfg.project(&Some("second".to_string())).unwrap();
    assert_eq!(name2, "second");
    assert_eq!(p2.path, "/repo2");
    assert!(matches!(
        cfg.project(&Some("zzz".to_string())).unwrap_err(),
        Error::NotFound(_)
    ));
}

#[test]
fn name_resolution_uses_the_cwd_worktree() {
    let worktrees = vec!["/tmp/ws/a".to_string(), "/tmp/ws/b".to_string()];
    assert_eq!(
        resolve_name(Some("given".to_string()), "/anywhere", &worktrees).unwrap(),
        "given"
    );
    assert_eq!(resolve_name(None, "/tmp/ws/b", &worktrees).unwrap(), "b");
    assert!(resolve_name(None, "/elsewhere", &worktrees).is_err());
}

#[test]
fn root_detection_compares_basenames() {
    assert!(is_root("/home/me/proj", "proj"));
    assert!(!is_root("/home/me/proj", "other"));
}

#[test]
fn completion_candidates_extend_strictly() {
    assert!(is_completion_candidate("fe", "feature"));
    assert!(!is_completion_candidate("feature", "feature"));
    assert!(!is_completion_candidate("x", "feature"));
}

#[test]
fn compose_completions_parse_until_directive() {
    let parsed = parse_completions("up\tStart services\ndown\n:4\nignored\n");
    assert_eq!(parsed.len(), 2);
    assert_eq!(parsed[0].0, "up");
    assert_eq!(parsed[0].1, "Start services");
    assert_eq!(parsed[1].0, "down");
    assert_eq!(parsed[1].1, "");
}

#[test]
fn shell_wrapper_quotes_the_binary() {
    let f = shell_function(ShellKind::Bash, "/opt/my tools/dc").unwrap();
    assert!(f.contains("'/opt/my tools/dc'"));
    assert!(f.contains("dc() {"));
    let fish = shell_function(ShellKind::Fish, "dc").unwrap();
    assert!(fish.contains("function dc --wraps dc"));
    assert!(shell_function(ShellKind::Zsh, "x\u{0}y").is_err());
}

#[test]
fn go_prints_a_quoted_cd() {
    let line = devconcurrent::go_line("/tmp/my ws/a").unwrap();
    assert_eq!(line, "cd '/tmp/my ws/a'");
    assert!(devconcurrent::go_line("bad\u{0}path").is_err());
}

#[test]
fn workspace_dir_resolves_relative_folders() {
    let opts = devconcurrent::DcOptions {
        default_exec: None,
        worktree_folder: Some("worktrees".to_string()),
        ports: None,
        default_copy_volumes: None,
        mount_git: true,
    };
    assert_eq!(opts.workspace_dir("/repo"), "/repo/worktrees");
    let abs = devconcurrent::DcOptions {
        worktree_folder: Some("/var/ws".to_string()),
        ..opts
    };
    assert_eq!(abs.workspace_dir("/repo"), "/var/ws");
    let unset = devconcurrent::DcOptions {
        worktree_folder: None,
        ..abs
    };
    assert_eq!(unset.workspace_dir("/repo"), "/tmp/");
}

#[test]
fn lifecycle_steps_follow_specification_order() {
    let mut common = devconcurrent::Common::default();
    common.post_start_command = Some(devconcurrent::LifecycleCommand::Single(Cmd::Shell(
        "late".to_string(),
    )));
    common.on_create_command = Some(devconcurrent::LifecycleCommand::Single(Cmd::Shell(
        "early".to_string(),
    )));
    let steps = devconcurrent::container_lifecycle_sequence(&common);
    assert_eq!(steps.len(), 2);
    assert_eq!(steps[0].0, "onCreateCommand");
    assert_eq!(steps[1].0, "postStartCommand");
}

#[test]
fn overrides_replace_only_set_fields() {
    let base = ProjectOptions {
        default_cmd: None,
        workspace_dir: Some("/a".to_string()),
        fwd_port: Some(1),
    };
    let over = ProjectOptions {
        default_cmd: None,
        workspace_dir: None,
        fwd_port: Some(2),
    };
    let merged = base.apply_overrides(over);
    assert_eq!(merged.workspace_dir.as_deref(), Some("/a"));
    assert_eq!(merged.fwd_port, Some(2));
}

#[test]
fn override_labels_identify_the_workspace() {
    let labels = devconcurrent::override_labels("/ws/a", "/ws/a/.devcontainer/devcontainer.json", "proj");
    assert_eq!(labels[0], "devcontainer.local_folder=/ws/a");
    assert_eq!(labels[2], "dev.dc.managed=true");
    assert_eq!(labels[3], "dev.dc.project=proj");
    assert_eq!(devconcurrent::override_filename("app_devcontainer"), "app_devcontainer-override.yml");
}

#[test]
fn pick_workspace_requires_a_container() {
    let mut bare = ws("/ws/bare", Status::Running);
    bare.container_ids = vec![];
    let err = pick_workspace(vec![bare], None).unwrap_err();
    assert!(matches!(err, Error::Msg(_)));
    let empty_err = pick_workspace(vec![], None).unwrap_err();
    assert_eq!(empty_err.message(), "no running workspaces found");
}

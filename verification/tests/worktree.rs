use devconcurrent::{
    create_plan, dirty_from_status, list_sync, worktrees_under, Error,
};

#[test]
fn list_sync_parses_porcelain_worktree_lines() {
    let porcelain = "worktree /repo\nHEAD abc\n\nworktree /tmp/ws/a\nHEAD def\n\nworktree /tmp/ws/b\n";
    let paths = list_sync(true, porcelain).unwrap();
    assert_eq!(
        paths,
        vec![
            "/repo".to_string(),
            "/tmp/ws/a".to_string(),
            "/tmp/ws/b".to_string()
        ]
    );
}

#[test]
fn list_sync_fails_when_git_failed() {
    let err = list_sync(false, "").unwrap_err();
    assert!(matches!(err, Error::Msg(_)));
    assert_eq!(err.message(), "git worktree list failed");
}

#[test]
fn list_sync_of_empty_output_is_empty() {
    assert_eq!(list_sync(true, "").unwrap().len(), 0);
}

#[test]
fn worktrees_under_keeps_only_the_workspace_dir() {
    let paths = vec![
        "/repo".to_string(),
        "/tmp/ws/a".to_string(),
        "/tmp/ws".to_string(),
        "/tmp/wsx/b".to_string(),
    ];
    let under = worktrees_under(paths, "/tmp/ws");
    assert_eq!(under, vec!["/tmp/ws/a".to_string(), "/tmp/ws".to_string()]);
}

#[test]
fn dirty_when_porcelain_output_is_nonempty() {
    assert!(dirty_from_status(true, " M src/lib.rs\n"));
}

#[test]
fn clean_when_porcelain_output_is_empty() {
    assert!(!dirty_from_status(true, ""));
}

#[test]
fn missing_path_is_clean_not_an_error() {
    // The worktree's directory no longer exists: reported clean, no error.
    assert!(!dirty_from_status(false, "anything"));
}

#[test]
fn create_plan_builds_the_git_invocation() {
    let plan = create_plan("/tmp/ws", "feature", false).unwrap();
    assert_eq!(plan.worktree_path, "/tmp/ws/feature");
    assert_eq!(plan.args, vec!["git", "worktree", "add", "/tmp/ws/feature"]);
    let detached = create_plan("/tmp/ws", "feature", true).unwrap();
    assert_eq!(
        detached.args,
        vec!["git", "worktree", "add", "/tmp/ws/feature", "--detach"]
    );
}

#[test]
fn create_plan_rejects_names_that_are_not_a_single_component() {
    assert!(create_plan("/tmp/ws", "a/b", false).is_err());
    assert!(create_plan("/tmp/ws", "", false).is_err());
    assert!(create_plan("/tmp/ws", ".", false).is_err());
    assert!(create_plan("/tmp/ws", "..", false).is_err());
}

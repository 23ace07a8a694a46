use devconcurrent::{basename, compose_project_name};

#[test]
fn slug_for_odd_worktree_name_is_lowercase_and_clean() {
    // `.../my_Worktree!`: lowercase, only [a-z0-9-_], deterministic.
    let slug = compose_project_name("/tmp/ws/my_Worktree!");
    assert_eq!(slug, "my_worktree_devcontainer");
    for c in slug.chars() {
        assert!(
            c.is_ascii_lowercase() || c.is_ascii_digit() || c == '-' || c == '_',
            "unexpected character {c:?}"
        );
    }
    // Repeated calls agree.
    assert_eq!(slug, compose_project_name("/tmp/ws/my_Worktree!"));
}

#[test]
fn slug_matches_the_devcontainer_convention() {
    assert_eq!(compose_project_name("/home/me/proj"), "proj_devcontainer");
    assert_eq!(compose_project_name("bare"), "bare_devcontainer");
}

#[test]
fn basename_is_the_final_component() {
    assert_eq!(basename("/a/b/c"), "c");
    assert_eq!(basename("plain"), "plain");
    assert_eq!(basename("/trailing/"), "");
}

use devconcurrent::{
    format_age, format_bytes, format_cpu, format_exec, i64_string, picker_items, u64_string,
    workspace_table, ws_fields, ExecSession, Stats, Status, Workspace,
};

fn ws(path: &str, status: Status, dirty: bool) -> Workspace {
    Workspace {
        path: path.to_string(),
        project: "proj".to_string(),
        compose_project_name: String::new(),
        container_ids: vec![],
        dirty,
        execs: vec![],
        status,
        stats: None,
    }
}

#[test]
fn decimal_rendering_is_exact() {
    assert_eq!(u64_string(0), "0");
    assert_eq!(u64_string(12345), "12345");
    assert_eq!(u64_string(u64::MAX), "18446744073709551615");
    assert_eq!(i64_string(-42), "-42");
    assert_eq!(i64_string(i64::MIN), "-9223372036854775808");
}

#[test]
fn bytes_use_binary_units() {
    assert_eq!(format_bytes(512), "512B");
    assert_eq!(format_bytes(2048), "2KiB");
    assert_eq!(format_bytes(5 * 1024 * 1024), "5MiB");
    assert_eq!(format_bytes(3 * 1024 * 1024 * 1024), "3GiB");
    assert_eq!(format_bytes(2 * 1024 * 1024 * 1024 * 1024), "2TiB");
}

#[test]
fn cpu_shows_one_decimal_place() {
    // Hundredths of a percent in, one truncated decimal out.
    assert_eq!(format_cpu(150), "1.5%");
    assert_eq!(format_cpu(12345), "123.4%");
    assert_eq!(format_cpu(7), "0.0%");
}

#[test]
fn ages_bucket_to_round_units() {
    assert_eq!(format_age(None, 1000), "-");
    assert_eq!(format_age(Some(2000), 1000), "-");
    assert_eq!(format_age(Some(970), 1000), "30s");
    assert_eq!(format_age(Some(0), 90), "1m");
    assert_eq!(format_age(Some(0), 7200), "2h");
    assert_eq!(format_age(Some(0), 172800), "2d");
    assert_eq!(format_age(Some(0), 605000), "1w");
    assert_eq!(format_age(Some(0), 2600000), "1mo");
    assert_eq!(format_age(Some(0), 32000000), "1y");
}

#[test]
fn exec_lines_show_basename_and_truncate() {
    let short = ExecSession {
        pid: 1,
        command: vec!["/bin/sh".to_string(), "-c".to_string(), "ls".to_string()],
    };
    assert_eq!(format_exec(&short), "sh -c ls");
    let long = ExecSession {
        pid: 2,
        command: vec![
            "/usr/bin/python3".to_string(),
            "a-very-long-argument-list-that-overflows-the-column".to_string(),
        ],
    };
    let rendered = format_exec(&long);
    assert_eq!(rendered.chars().count(), 40);
    assert!(rendered.ends_with('…'));
    let empty = ExecSession {
        pid: 3,
        command: vec![],
    };
    assert_eq!(format_exec(&empty), "");
}

#[test]
fn fields_star_dirty_workspaces_and_dash_missing_stats() {
    let mut w = ws("/ws/alpha", Status::Running, true);
    w.stats = Some(Stats {
        ram: 2048,
        cpu: None,
    });
    let f = ws_fields(&w);
    assert_eq!(f.name, "alpha*");
    assert_eq!(f.project, "proj");
    assert_eq!(f.status, "running");
    assert_eq!(f.cpu, "-");
    assert_eq!(f.mem, "2KiB");

    let f2 = ws_fields(&ws("/ws/beta", Status::Empty, false));
    assert_eq!(f2.name, "beta");
    assert_eq!(f2.status, "-");
    assert_eq!(f2.mem, "-");
}

#[test]
fn table_renders_header_and_rows_aligned() {
    let list = vec![ws("/ws/alpha", Status::Running, false)];
    let rendered = workspace_table(&list).unwrap();
    let lines: Vec<&str> = rendered.lines().collect();
    assert_eq!(lines.len(), 2);
    assert!(lines[0].starts_with("NAME"));
    assert!(lines[0].contains("PROJECT"));
    assert!(lines[0].contains("EXECS"));
    assert!(lines[1].starts_with("alpha"));
    assert!(lines[1].contains("running"));
    // Alignment: the header and the row lay their columns out identically.
    let header_project = lines[0].find("PROJECT").unwrap();
    let row_project = lines[1].find("proj").unwrap();
    assert_eq!(header_project, row_project);
}

#[test]
fn picker_pairs_each_workspace_with_its_line() {
    let list = vec![
        ws("/ws/alpha", Status::Running, false),
        ws("/ws/beta", Status::Exited, true),
    ];
    let items = picker_items(list).unwrap();
    assert_eq!(items.len(), 2);
    assert_eq!(items[0].0.path, "/ws/alpha");
    assert!(items[0].1.starts_with("alpha"));
    assert_eq!(items[1].0.path, "/ws/beta");
    assert!(items[1].1.starts_with("beta*"));
}

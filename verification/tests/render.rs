use nixtop::derivation::split_derivation_name;
use nixtop::ps::Build;
use nixtop::ps::BuildProcess;
use nixtop::show_duration;
use nixtop::tree::render_tree;

fn proc(pid: usize, parent_pid: usize, argv: &[&str]) -> BuildProcess {
    BuildProcess {
        argv: argv.iter().map(|a| a.to_string()).collect(),
        parent_pid,
        pid,
    }
}

fn build_with(processes: Vec<BuildProcess>, main_pid: usize) -> Build {
    Build {
        derivation: "drv".to_string(),
        main_pid,
        nix_pid: 7,
        processes,
        start_time: 0,
    }
}

#[test]
fn tree_fixture_root_two_children_one_grandchild() {
    // Root 1 has children 2 and 3, in list order; 2 has grandchild 4.
    let b = build_with(
        vec![
            proc(1, 0, &["root"]),
            proc(2, 1, &["a"]),
            proc(3, 1, &["b"]),
            proc(4, 2, &["g"]),
        ],
        1,
    );
    let lines = render_tree(&b, 1);
    assert_eq!(
        lines,
        vec![
            "root".to_string(),
            "├─── a".to_string(),
            "│    └─── g".to_string(),
            "└─── b".to_string(),
        ]
    );
}

#[test]
fn tree_continuation_under_last_child_is_blank() {
    // The grandchild hangs under the last child, so its line continues
    // with blank space, not a bar.
    let b = build_with(
        vec![
            proc(1, 0, &["root"]),
            proc(2, 1, &["a"]),
            proc(3, 1, &["b"]),
            proc(4, 3, &["g"]),
        ],
        1,
    );
    let lines = render_tree(&b, 1);
    assert_eq!(
        lines,
        vec![
            "root".to_string(),
            "├─── a".to_string(),
            "└─── b".to_string(),
            "     └─── g".to_string(),
        ]
    );
}

#[test]
fn tree_joins_argv_with_spaces() {
    let b = build_with(vec![proc(1, 0, &["bash", "-c", "make"])], 1);
    let lines = render_tree(&b, 1);
    assert_eq!(lines, vec!["bash -c make".to_string()]);
}

#[test]
fn tree_unmatched_root_yields_empty_sequence() {
    let b = build_with(vec![proc(1, 0, &["root"]), proc(2, 1, &["a"])], 1);
    let lines = render_tree(&b, 99);
    assert!(lines.is_empty());
}

#[test]
fn tree_of_empty_process_list_is_empty() {
    let b = build_with(Vec::new(), 1);
    assert!(render_tree(&b, 1).is_empty());
}

#[test]
fn duration_zero_is_empty() {
    assert_eq!(show_duration(0), "");
}

#[test]
fn duration_seconds_only() {
    assert_eq!(show_duration(45), "45s");
}

#[test]
fn duration_minute_and_seconds() {
    assert_eq!(show_duration(90), "1m 30s");
}

#[test]
fn duration_two_component_cap_suppresses_minutes() {
    // 1 day, 2 hours, 5 minutes.
    assert_eq!(show_duration(86400 + 2 * 3600 + 5 * 60), "1d 2h");
}

#[test]
fn duration_days_hours_cap() {
    // 2 days, 5 hours, 3 minutes, 10 seconds.
    assert_eq!(show_duration(2 * 86400 + 5 * 3600 + 3 * 60 + 10), "2d 5h");
}

#[test]
fn duration_skips_zero_leading_components() {
    // 1 day and 30 seconds: hours and minutes are zero, so the seconds
    // still fit under the two-component cap.
    assert_eq!(show_duration(86400 + 30), "1d 30s");
    assert_eq!(show_duration(3600), "1h");
}

#[test]
fn duration_negative_is_empty() {
    assert_eq!(show_duration(-5), "");
}

#[test]
fn derivation_name_splits_pname_and_version() {
    let d = "abcdefghijklmnopqrstuvwxyz012345-hello-2.12.1.drv";
    let (pname, version) = split_derivation_name(d);
    assert_eq!(pname, "hello");
    assert_eq!(version, "2.12.1");
}

#[test]
fn derivation_name_without_dash_has_empty_version() {
    let d = "abcdefghijklmnopqrstuvwxyz012345-hello.drv";
    let (pname, version) = split_derivation_name(d);
    assert_eq!(pname, "hello");
    assert_eq!(version, "");
}

#[test]
fn derivation_name_multi_dash_splits_at_last() {
    let d = "abcdefghijklmnopqrstuvwxyz012345-gnu-hello-2.12.drv";
    let (pname, version) = split_derivation_name(d);
    assert_eq!(pname, "gnu-hello");
    assert_eq!(version, "2.12");
}

#[test]
fn short_derivation_falls_back_to_raw_string() {
    let (pname, version) = split_derivation_name("tiny.drv");
    assert_eq!(pname, "tiny.drv");
    assert_eq!(version, "");
}

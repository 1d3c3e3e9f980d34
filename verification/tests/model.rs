use nixtop::ps::Build;
use nixtop::ps::position_of_nix_pid;
use nixtop::ps::sort_builds;
use nixtop::ps::str_le;
use nixtop::u64_to_string;

fn build(derivation: &str, nix_pid: usize) -> Build {
    Build {
        derivation: derivation.to_string(),
        main_pid: 1,
        nix_pid,
        processes: Vec::new(),
        start_time: 100,
    }
}

#[test]
fn sort_orders_by_derivation_ascending() {
    let mut builds = vec![build("ccc", 3), build("aaa", 1), build("bbb", 2)];
    sort_builds(&mut builds);
    let names: Vec<&str> = builds.iter().map(|b| b.derivation.as_str()).collect();
    assert_eq!(names, vec!["aaa", "bbb", "ccc"]);
    let pids: Vec<usize> = builds.iter().map(|b| b.nix_pid).collect();
    assert_eq!(pids, vec![1, 2, 3]);
}

#[test]
fn sort_keeps_equal_keys_and_empty_list() {
    let mut builds: Vec<Build> = Vec::new();
    sort_builds(&mut builds);
    assert!(builds.is_empty());

    let mut builds = vec![build("same", 1), build("same", 2)];
    sort_builds(&mut builds);
    assert_eq!(builds.len(), 2);
    assert_eq!(builds[0].derivation, "same");
    assert_eq!(builds[1].derivation, "same");
}

#[test]
fn string_order_is_lexicographic() {
    assert!(str_le("abc", "abd"));
    assert!(!str_le("abd", "abc"));
    assert!(str_le("ab", "abc"));
    assert!(!str_le("abc", "ab"));
    assert!(str_le("", "a"));
    assert!(str_le("abc", "abc"));
}

#[test]
fn position_finds_first_match() {
    let builds = vec![build("a", 5), build("b", 7), build("c", 7)];
    assert_eq!(position_of_nix_pid(&builds, 7), Some(1));
    assert_eq!(position_of_nix_pid(&builds, 5), Some(0));
    assert_eq!(position_of_nix_pid(&builds, 9), None);
}

#[test]
fn elapsed_subtracts_start_time() {
    let b = build("a", 1);
    assert_eq!(b.elapsed(160), 60);
    assert_eq!(b.elapsed(100), 0);
    // A clock that stands before the start gives a negative delta.
    assert_eq!(b.elapsed(40), -60);
}

#[test]
fn elapsed_saturates_instead_of_overflowing() {
    let b = Build {
        derivation: "a".to_string(),
        main_pid: 1,
        nix_pid: 1,
        processes: Vec::new(),
        start_time: i64::MIN,
    };
    assert_eq!(b.elapsed(i64::MAX), i64::MAX);
}

#[test]
fn decimal_rendering() {
    assert_eq!(u64_to_string(0), "0");
    assert_eq!(u64_to_string(7), "7");
    assert_eq!(u64_to_string(10), "10");
    assert_eq!(u64_to_string(86400), "86400");
    assert_eq!(u64_to_string(u64::MAX), "18446744073709551615");
}

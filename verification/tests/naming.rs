use gpiosim::{app_name, default_name, unique_name};

#[test]
fn unique_name_default() {
    let name = unique_name("my_app", 4242, 0, None);
    assert!(name.starts_with("my_app-p"));
}

#[test]
fn unique_name_explicit() {
    let name = unique_name("my_app", 4242, 1, Some("test2"));
    assert!(name.starts_with("my_app-p"));
    assert!(name.ends_with("-test2"));
}

#[test]
fn unique_name_is_app_pid_count() {
    assert_eq!(unique_name("my_app", 4242, 0, None), "my_app-p4242-0");
    assert_eq!(unique_name("my_app", 4242, 17, None), "my_app-p4242-17");
    assert_eq!(unique_name("gpiosim", 80, 4294967295, None), "gpiosim-p80-4294967295");
}

#[test]
fn unique_name_ends_in_instance() {
    assert_eq!(unique_name("gpiosim", 99, 3, Some("live")), "gpiosim-p99-3-live");
    assert_eq!(unique_name("gpiosim", 99, 3, Some("")), "gpiosim-p99-3-");
}

#[test]
fn unique_names_differ_by_count() {
    let first = unique_name("a", 7, 0, None);
    let second = unique_name("a", 7, 1, None);
    assert_ne!(first, second);
}

#[test]
fn app_name_is_file_name() {
    assert_eq!(app_name(Some("my_test-0a1b")), "my_test-0a1b");
}

#[test]
fn app_name_falls_back() {
    assert_eq!(app_name(None), "gpiosim");
}

#[test]
fn default_name_has_no_instance() {
    assert_eq!(default_name(Some("tester"), 321, 5), "tester-p321-5");
    assert_eq!(default_name(None, 321, 0), "gpiosim-p321-0");
}

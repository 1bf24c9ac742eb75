use gpiosim::configfs_mountpoint;
use gpiosim::mounts::mount_in_line;

fn lines(text: &[&str]) -> Vec<String> {
    text.iter().map(|l| l.to_string()).collect()
}

#[test]
fn mount_point_is_second_field() {
    let table = lines(&[
        "sysfs /sys sysfs rw,nosuid,nodev,noexec,relatime 0 0",
        "proc /proc proc rw,nosuid,nodev,noexec,relatime 0 0",
        "configfs /sys/kernel/config configfs rw,nosuid,nodev,noexec,relatime 0 0",
        "tmpfs /run tmpfs rw 0 0",
    ]);
    assert_eq!(configfs_mountpoint(&table), Some("/sys/kernel/config".to_string()));
}

#[test]
fn first_configfs_line_wins() {
    let table = lines(&[
        "none /mnt/a configfs rw 0 0",
        "none /mnt/b configfs rw 0 0",
    ]);
    assert_eq!(configfs_mountpoint(&table), Some("/mnt/a".to_string()));
}

#[test]
fn no_configfs_line_no_mount() {
    let table = lines(&["sysfs /sys sysfs rw 0 0", "", "configfs", "configfs /config"]);
    assert_eq!(configfs_mountpoint(&table), None);
    assert_eq!(configfs_mountpoint(&Vec::new()), None);
}

#[test]
fn only_the_third_field_counts() {
    assert_eq!(mount_in_line("configfs /sys sysfs rw 0 0"), None);
    assert_eq!(mount_in_line("x configfs ext4 rw 0 0"), None);
    assert_eq!(mount_in_line("x /c configfs2 rw 0 0"), None);
    assert_eq!(mount_in_line("x\t/c\tconfigfs\trw"), Some("/c".to_string()));
    assert_eq!(mount_in_line("  x   /c   configfs"), Some("/c".to_string()));
}

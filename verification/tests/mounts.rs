use toolbox::mounts::{is_skipped, is_skipped_given, is_virtual_filesystem, Mount};

#[test]
fn mount_is_shown_without_its_options() {
    let m = Mount {
        device: "/dev/sda1".to_string(),
        mount_point: "/".to_string(),
        filesystem: "ext4".to_string(),
        options: vec!["rw".to_string()],
    };
    assert_eq!(m.to_string(), "/dev/sda1 on / type ext4");
}

#[test]
fn default_mount_is_empty() {
    let m = Mount::default();
    assert_eq!(m.device, "");
    assert_eq!(m.mount_point, "");
    assert_eq!(m.filesystem, "");
    assert!(m.options.is_empty());
    assert_eq!(m.to_string(), " on  type ");
}

#[test]
fn mount_clones() {
    let m = Mount {
        device: "a".to_string(),
        mount_point: "b".to_string(),
        filesystem: "c".to_string(),
        options: vec!["d".to_string(), "e".to_string()],
    };
    let n = m.clone();
    assert_eq!(n.device, "a");
    assert_eq!(n.options, m.options);
}

#[test]
fn virtual_filesystems_are_known() {
    for name in [
        "binfmt_misc",
        "cgroup",
        "cgroup2",
        "devpts",
        "devtmpfs",
        "overlay",
        "proc",
        "sysfs",
        "tmpfs",
        "nsfs",
        "rpc_pipefs",
        "securityfs",
        "pstore",
        "efivarfs",
        "bpf",
        "autofs",
        "mqueue",
        "hugetlbfs",
        "debugfs",
        "tracefs",
        "fusectl",
        "configfs",
        "ramfs",
        "nfsd",
    ] {
        assert!(is_virtual_filesystem(name), "{}", name);
    }
    for name in ["ext4", "squashfs", "", "Proc", "proc ", "cgroup3", "nfs", "vfat"] {
        assert!(!is_virtual_filesystem(name), "{}", name);
    }
}

#[test]
fn snap_images_and_virtual_file_systems_are_skipped() {
    assert!(is_skipped("/snap/core/1234", "squashfs"));
    assert!(is_skipped("/snap", "squashfs"));
    assert!(!is_skipped("/snapshots/x", "squashfs"));
    assert!(!is_skipped("/mnt/image", "squashfs"));
    assert!(!is_skipped("/snap/core/1234", "ext4"));
    assert!(is_skipped("/proc", "proc"));
    assert!(is_skipped("/snap/x", "tmpfs"));
    assert!(!is_skipped("/", "ext4"));
    assert!(is_skipped_given("squashfs", true));
    assert!(!is_skipped_given("squashfs", false));
    assert!(is_skipped_given("sysfs", false));
    assert!(!is_skipped_given("ext4", true));
}

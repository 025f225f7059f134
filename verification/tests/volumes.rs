use cosmic_disks::config::Config;
use cosmic_disks::message::Message;
use cosmic_disks::state::{AppState, Effect};
use cosmic_disks::ui::{create_op_shown, free_bytes, fs_color, partition_actions, partition_op_shown, FsColor, PartitionAction};
use cosmic_disks::disks::{BlockDevice, Drive, FstabEntry, PartitionState};
use cosmic_disks::message::OperationKind;
use cosmic_disks::volumes::{
    ay_bytes, contains_parent_dir, created_message, decimal_string, fstab_fsname, fstab_options,
    formatted_message, label_value, mount_option_value, mounted_message, resolve_path,
    unmounted_message, PathError,
};
use cosmic_disks::watch::{watch_step, WatchAction, WatchEvent, WatchState};

#[test]
fn resolve_path_rules() {
    assert!(matches!(resolve_path("   ", Some("/home/u")), Err(PathError::MountPathRequired)));
    assert_eq!(resolve_path(" /mnt/data ", None).unwrap(), "/mnt/data");
    assert_eq!(resolve_path("~", Some("/home/u")).unwrap(), "/home/u");
    assert_eq!(resolve_path("~/disk", Some("/home/u")).unwrap(), "/home/u/disk");
    match resolve_path("~/disk", None) {
        Err(PathError::PathNotAbsolute { path }) => assert_eq!(path, "~/disk"),
        other => panic!("unexpected {other:?}"),
    }
    match resolve_path("mnt", None) {
        Err(PathError::PathNotAbsolute { path }) => assert_eq!(path, "mnt"),
        other => panic!("unexpected {other:?}"),
    }
    match resolve_path("/mnt/../etc", None) {
        Err(PathError::PathContainsParentDir { path }) => assert_eq!(path, "/mnt/../etc"),
        other => panic!("unexpected {other:?}"),
    }
    assert_eq!(resolve_path("/mnt/..x/a..", None).unwrap(), "/mnt/..x/a..");
}

#[test]
fn parent_components() {
    assert!(contains_parent_dir("/a/.."));
    assert!(contains_parent_dir("../a"));
    assert!(!contains_parent_dir("/a/.../b"));
    assert!(!contains_parent_dir("/a/b."));
}

#[test]
fn fstab_fields() {
    assert_eq!(fstab_options("  "), "defaults");
    assert_eq!(fstab_options(" ro,noatime "), "ro,noatime");
    assert_eq!(fstab_fsname("/dev/sda1", ""), "/dev/sda1");
    assert_eq!(fstab_fsname("/dev/sda1", "abc"), "UUID=abc");
    assert_eq!(mount_option_value(" "), None);
    assert_eq!(mount_option_value(" ro "), Some("ro".to_string()));
    assert_eq!(label_value(""), None);
    assert_eq!(label_value("x"), Some("x".to_string()));
    assert_eq!(ay_bytes("ab"), vec![b'a', b'b', 0]);
}

#[test]
fn result_messages() {
    assert_eq!(mounted_message("/dev/sda1", "/mnt"), "Mounted /dev/sda1 at /mnt");
    assert_eq!(unmounted_message("/dev/sda1"), "Unmounted /dev/sda1");
    assert_eq!(formatted_message("/dev/sda1", "ext4"), "Formatted /dev/sda1 as ext4");
    assert_eq!(created_message("xfs", 1234), "Created xfs partition (1234 bytes)");
    assert_eq!(decimal_string(0), "0");
    assert_eq!(decimal_string(u64::MAX), u64::MAX.to_string());
}

fn created_size(typed: &str) -> Option<u64> {
    let mut s = AppState::new(Config::default());
    s.handle(Message::SelectUnallocated("d".to_string()));
    s.handle(Message::OpenCreatePartitionPanel { drive_id: "d".to_string(), max_bytes: u64::MAX });
    s.handle(Message::CreatePartitionSizeChanged(typed.to_string()));
    match s.handle(Message::ConfirmCreatePartition) {
        Effect::CreatePartition { size_bytes, .. } => Some(size_bytes),
        _ => None,
    }
}

#[test]
fn byte_sizes() {
    assert_eq!(vol(0, PartitionState::Unformatted).display_size(), "0 B");
    assert_eq!(vol(1023, PartitionState::Unformatted).display_size(), "1023 B");
    assert_eq!(vol(1024, PartitionState::Unformatted).display_size(), "1.0 KiB");
    assert_eq!(created_size("42"), Some(42));
    assert_eq!(created_size("1 KiB"), Some(1024));
    assert_eq!(created_size("nonsense"), None);
}

#[test]
fn filesystem_colours() {
    assert_eq!(fs_color("ext3"), FsColor::Ext4);
    assert_eq!(fs_color("fat32"), FsColor::Vfat);
    assert_eq!(fs_color("ntfs"), FsColor::ExfatNtfs);
    assert_eq!(fs_color("exfat"), FsColor::ExfatNtfs);
    assert_eq!(fs_color("swap"), FsColor::Swap);
    assert_eq!(fs_color("zfs"), FsColor::Zfs);
    assert_eq!(fs_color("iso9660"), FsColor::Iso9660);
    assert_eq!(fs_color(""), FsColor::Other);
}

fn vol(size: u64, state: PartitionState) -> BlockDevice {
    BlockDevice {
        device: "/dev/sda1".to_string(),
        uuid: String::new(),
        label: String::new(),
        fs_type: String::new(),
        size,
        offset: 0,
        mount_points: vec![],
        drive_id: "d".to_string(),
        state,
        part_uuid: String::new(),
        part_label: String::new(),
    }
}

#[test]
fn free_space_and_actions() {
    let d = Drive {
        id: "d".to_string(),
        model: String::new(),
        vendor: String::new(),
        size: 1000,
        removable: true,
        partitions: vec![vol(300, PartitionState::Mounted), vol(200, PartitionState::Mounted)],
        block_device: String::new(),
    };
    assert_eq!(free_bytes(&d), 500);
    assert_eq!(d.display_name(), "Unknown Drive (1000 B)");
    let over = Drive { size: 100, ..d };
    assert_eq!(free_bytes(&over), 0);

    assert!(matches!(partition_actions(&vol(1, PartitionState::Mounted), None).as_slice(), [PartitionAction::Unmount]));
    assert!(matches!(partition_actions(&vol(1, PartitionState::Unformatted), None).as_slice(), [PartitionAction::Format]));
    let entry = FstabEntry { spec: "x".into(), mount_point: "/m".into(), options: "o".into() };
    match partition_actions(&vol(1, PartitionState::Unmounted), Some(&entry)).as_slice() {
        [PartitionAction::MountAtFstabPath(p), PartitionAction::MountNewLocation, PartitionAction::Format] => assert_eq!(p, "/m"),
        _ => panic!("unexpected actions"),
    }
    assert!(partition_op_shown(&OperationKind::Mounting("/dev/a".into()), &"/dev/a".to_string()));
    assert!(!partition_op_shown(&OperationKind::Formatting("/dev/b".into()), &"/dev/a".to_string()));
    assert!(create_op_shown(&OperationKind::CreatingPartition { drive_id: "d".into() }, &"d".to_string()));
    assert!(!create_op_shown(&OperationKind::Unmounting("d".into()), &"d".to_string()));
}

#[test]
fn watcher_debounces_bursts() {
    let (s, a) = watch_step(WatchState::Waiting, WatchEvent::Signal);
    assert_eq!((s, a), (WatchState::Debouncing, WatchAction::AwaitQuietWindow));
    let (s, a) = watch_step(s, WatchEvent::Signal);
    assert_eq!((s, a), (WatchState::Debouncing, WatchAction::AwaitQuietWindow));
    let (s, a) = watch_step(s, WatchEvent::QuietWindowElapsed);
    assert_eq!((s, a), (WatchState::Sending, WatchAction::SendRefresh));
    let (s, a) = watch_step(s, WatchEvent::Sent);
    assert_eq!((s, a), (WatchState::Waiting, WatchAction::AwaitSignal));
    assert_eq!(watch_step(s, WatchEvent::StreamEnded).1, WatchAction::Reconnect);
    assert_eq!(watch_step(WatchState::Sending, WatchEvent::SendFailed).1, WatchAction::Reconnect);
    assert_eq!(watch_step(WatchState::Debouncing, WatchEvent::ConnectFailed).1, WatchAction::RetryLater);
}

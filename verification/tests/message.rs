use cosmic_disks::disks::{BlockDevice, FstabEntry, PartitionState};
use cosmic_disks::message::{
    FsType, MountFlag, MountLocationDialog, PartitionContext, SelectionState, UnallocatedContext,
};

fn dummy_block_device() -> BlockDevice {
    BlockDevice {
        device: String::new(),
        uuid: String::new(),
        label: String::new(),
        fs_type: String::new(),
        size: 0,
        offset: 0,
        mount_points: vec![],
        drive_id: String::new(),
        state: PartitionState::Unmounted,
        part_uuid: String::new(),
        part_label: String::new(),
    }
}

fn partition_ctx(fstab_entry: Option<FstabEntry>) -> PartitionContext {
    PartitionContext {
        partition: dummy_block_device(),
        fstab_entry,
        format_panel: None,
        operation_in_progress: None,
        operation_error: None,
    }
}

fn dummy_fstab() -> FstabEntry {
    FstabEntry {
        spec: "UUID=abc-123".to_string(),
        mount_point: "/mnt/data".to_string(),
        options: "defaults".to_string(),
    }
}

#[test]
fn no_selection_returns_false() {
    assert!(!SelectionState::Unselected.has_fstab_entry());
}

#[test]
fn partition_without_fstab_returns_false() {
    let state = SelectionState::Partition(partition_ctx(None));
    assert!(!state.has_fstab_entry());
}

#[test]
fn partition_with_fstab_returns_true() {
    let state = SelectionState::Partition(partition_ctx(Some(dummy_fstab())));
    assert!(state.has_fstab_entry());
}

#[test]
fn unallocated_returns_false() {
    let state = SelectionState::Unallocated(UnallocatedContext {
        drive_id: "test-drive".to_string(),
        create_panel: None,
        operation_in_progress: None,
        operation_error: None,
    });
    assert!(!state.has_fstab_entry());
}

fn mount_dialog(add_to_fstab: bool, already_in_fstab: bool) -> MountLocationDialog {
    MountLocationDialog {
        device: String::new(),
        path: String::new(),
        show_advanced: false,
        selected_flags: Vec::new(),
        add_to_fstab,
        already_in_fstab,
    }
}

#[test]
fn effective_fstab_normal_write() {
    // user checked the box, not already in fstab → write
    assert!(mount_dialog(true, false).effective_add_to_fstab());
}

#[test]
fn effective_fstab_suppressed_when_already_present() {
    // already in fstab → no write even if checkbox was somehow set true
    assert!(!mount_dialog(true, true).effective_add_to_fstab());
}

#[test]
fn effective_fstab_unchecked_no_write() {
    // user left box unchecked → no write
    assert!(!mount_dialog(false, false).effective_add_to_fstab());
}

#[test]
fn effective_fstab_unchecked_already_present() {
    // both false → no write
    assert!(!mount_dialog(false, true).effective_add_to_fstab());
}

// ---------------------------------------------------------------------------

#[test]
fn mount_flag_option_names() {
    let names: Vec<&str> = MountFlag::ALL.iter().map(|f| f.as_str()).collect();
    assert_eq!(names, vec!["ro", "noexec", "nosuid", "noatime", "nodiratime", "sync"]);
    assert_eq!(MountFlag::NoAtime.label_id(), "mount-flag-noatime");
}

#[test]
fn fs_type_names_round_trip() {
    for t in FsType::ALL {
        assert_eq!(t.as_str().parse::<FsType>(), Ok(t));
    }
    assert_eq!(FsType::default(), FsType::Ext4);
}

#[test]
fn fs_type_display_aliases() {
    assert_eq!("ext2".parse::<FsType>(), Ok(FsType::Ext4));
    assert_eq!("ext3".parse::<FsType>(), Ok(FsType::Ext4));
    assert_eq!("fat16".parse::<FsType>(), Ok(FsType::Vfat));
    assert_eq!("fat32".parse::<FsType>(), Ok(FsType::Vfat));
    assert_eq!("swap".parse::<FsType>(), Err(()));
    assert_eq!("EXT4".parse::<FsType>(), Err(()));
}

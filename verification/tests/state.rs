use cosmic_disks::config::Config;
use cosmic_disks::disks::{BlockDevice, Drive, FstabEntry, PartitionState};
use cosmic_disks::message::{
    ActiveDialog, ContextPage, FsType, LoadState, Message, MountFlag, OperationKind,
    SelectionState,
};
use cosmic_disks::state::{mount_options, AppState, Effect};

fn block(device: &str, drive_id: &str, state: PartitionState) -> BlockDevice {
    BlockDevice {
        device: device.to_string(),
        uuid: "u-1".to_string(),
        label: "data".to_string(),
        fs_type: "ext4".to_string(),
        size: 1000,
        offset: 0,
        mount_points: vec![],
        drive_id: drive_id.to_string(),
        state,
        part_uuid: "pu".to_string(),
        part_label: "pl".to_string(),
    }
}

fn drive(id: &str, parts: Vec<BlockDevice>) -> Drive {
    Drive {
        id: id.to_string(),
        model: "Model".to_string(),
        vendor: "Vendor".to_string(),
        size: 4000,
        removable: false,
        partitions: parts,
        block_device: format!("{id}/block"),
    }
}

fn fresh() -> AppState {
    AppState::new(Config { default_fs_type: FsType::Ext4 })
}

fn select(s: &mut AppState, device: &str) {
    s.handle(Message::SelectPartition(block(device, "d1", PartitionState::Unmounted)));
}

fn partition_error(s: &AppState) -> Option<String> {
    match &s.selection_state {
        SelectionState::Partition(c) => c.operation_error.clone(),
        SelectionState::Unallocated(c) => c.operation_error.clone(),
        SelectionState::Unselected => None,
    }
}

#[test]
fn select_partition_asks_for_fstab_lookup() {
    let mut s = fresh();
    let e = s.handle(Message::SelectPartition(block("/dev/sda1", "d1", PartitionState::Mounted)));
    match e {
        Effect::LookupFstab(q) => {
            assert_eq!(q.device, "/dev/sda1");
            assert_eq!(q.uuid, "u-1");
            assert_eq!(q.label, "data");
            assert_eq!(q.part_uuid, "pu");
            assert_eq!(q.part_label, "pl");
        }
        _ => panic!("expected an fstab lookup"),
    }
    assert!(matches!(s.selection_state, SelectionState::Partition(_)));
}

#[test]
fn mount_dialog_snapshots_fstab_presence() {
    let mut s = fresh();
    select(&mut s, "/dev/sda1");
    s.handle(Message::FstabLoaded(Some(FstabEntry {
        spec: "UUID=u-1".to_string(),
        mount_point: "/mnt/d".to_string(),
        options: "defaults".to_string(),
    })));
    s.handle(Message::OpenMountDialog { device: "/dev/sda1".to_string(), prefill_path: None });
    match &s.active_dialog {
        ActiveDialog::Mount(d) => {
            assert!(d.already_in_fstab);
            assert!(!d.add_to_fstab);
            assert_eq!(d.path, "");
        }
        _ => panic!("mount dialog expected"),
    }
    // The checkbox cannot be toggled, and no fstab entry is written.
    s.handle(Message::ToggleFstabCheckbox);
    s.handle(Message::MountDialogPathChanged("  /mnt/d  ".to_string()));
    let e = s.handle(Message::ConfirmMountDialog);
    match e {
        Effect::MountAtPath { device, path, options, persistent } => {
            assert_eq!(device, "/dev/sda1");
            assert_eq!(path, "/mnt/d");
            assert_eq!(options, "");
            assert!(!persistent);
        }
        _ => panic!("mount at path expected"),
    }
    assert!(matches!(s.active_dialog, ActiveDialog::Closed));
    match &s.selection_state {
        SelectionState::Partition(c) => {
            assert!(matches!(&c.operation_in_progress, Some(OperationKind::Mounting(d)) if d == "/dev/sda1"))
        }
        _ => panic!("partition expected"),
    }
}

#[test]
fn confirm_mount_with_blank_path_uses_managed_mount_and_flag_order() {
    let mut s = fresh();
    select(&mut s, "/dev/sdb1");
    s.handle(Message::OpenMountDialog {
        device: "/dev/sdb1".to_string(),
        prefill_path: Some("   ".to_string()),
    });
    s.handle(Message::ToggleDialogMountFlag(MountFlag::Sync));
    s.handle(Message::ToggleDialogMountFlag(MountFlag::ReadOnly));
    s.handle(Message::ToggleDialogMountFlag(MountFlag::NoExec));
    s.handle(Message::ToggleDialogMountFlag(MountFlag::NoExec));
    s.handle(Message::ToggleFstabCheckbox);
    let e = s.handle(Message::ConfirmMountDialog);
    match e {
        Effect::MountDefault { device, options } => {
            assert_eq!(device, "/dev/sdb1");
            assert_eq!(options, "ro,sync");
        }
        _ => panic!("managed mount expected"),
    }
}

#[test]
fn checked_fstab_box_makes_mount_persistent() {
    let mut s = fresh();
    select(&mut s, "/dev/sdb1");
    s.handle(Message::OpenMountDialog {
        device: "/dev/sdb1".to_string(),
        prefill_path: Some("/mnt/x".to_string()),
    });
    s.handle(Message::ToggleFstabCheckbox);
    match s.handle(Message::ConfirmMountDialog) {
        Effect::MountAtPath { persistent, .. } => assert!(persistent),
        _ => panic!("mount at path expected"),
    }
}

#[test]
fn mount_options_follow_flag_order() {
    let flags = vec![MountFlag::Sync, MountFlag::NoAtime, MountFlag::ReadOnly, MountFlag::NoAtime];
    assert_eq!(mount_options(&flags), "ro,noatime,sync");
    assert_eq!(mount_options(&vec![]), "");
}

#[test]
fn operation_failure_without_selection_goes_to_banner_and_stale_timer_is_ignored() {
    let mut s = fresh();
    let e = s.handle(Message::OperationFailed("boom".to_string()));
    assert!(matches!(e, Effect::DismissLater { epoch: 1 }));
    assert_eq!(s.operation_error.as_deref(), Some("boom"));
    let e = s.handle(Message::OperationFailed("again".to_string()));
    assert!(matches!(e, Effect::DismissLater { epoch: 2 }));
    s.handle(Message::AutoDismissError(1));
    assert_eq!(s.operation_error.as_deref(), Some("again"));
    s.handle(Message::AutoDismissError(2));
    assert_eq!(s.operation_error, None);
}

#[test]
fn operation_failure_with_selection_goes_to_card() {
    let mut s = fresh();
    select(&mut s, "/dev/sda1");
    s.handle(Message::OperationFailed("denied".to_string()));
    assert_eq!(partition_error(&s).as_deref(), Some("denied"));
    assert_eq!(s.operation_error, None);
    s.handle(Message::DismissError);
    assert_eq!(partition_error(&s), None);
}

#[test]
fn format_uses_config_default_and_remembers_choice() {
    let mut s = fresh();
    select(&mut s, "/dev/sda1");
    s.handle(Message::OpenFormatPanel("/dev/sda1".to_string()));
    s.handle(Message::FormatPanelFsChanged(FsType::Btrfs));
    s.handle(Message::FormatPanelLabelChanged("store".to_string()));
    match s.handle(Message::ConfirmFormat) {
        Effect::Format { device, fs_type, label } => {
            assert_eq!(device, "/dev/sda1");
            assert_eq!(fs_type, "btrfs");
            assert_eq!(label, "store");
        }
        _ => panic!("format expected"),
    }
    assert_eq!(s.config.default_fs_type, FsType::Btrfs);
    assert!(matches!(s.handle(Message::ConfirmFormat), Effect::Nothing));
}

#[test]
fn create_partition_panel_and_size_rules() {
    let mut s = fresh();
    s.handle(Message::DisksScanned(Ok(vec![drive("d1", vec![])])));
    s.handle(Message::SelectUnallocated("d1".to_string()));
    s.handle(Message::OpenCreatePartitionPanel { drive_id: "d1".to_string(), max_bytes: 512 });
    match &s.selection_state {
        SelectionState::Unallocated(c) => {
            let p = c.create_panel.as_ref().unwrap();
            assert_eq!(p.block_device, "d1/block");
            assert_eq!(p.size_str, "512 B");
            assert_eq!(p.fs_type, FsType::Ext4);
        }
        _ => panic!("unallocated expected"),
    }
    s.handle(Message::CreatePartitionSizeChanged(" 100 ".to_string()));
    s.handle(Message::CreatePartitionFsChanged(FsType::Xfs));
    match s.handle(Message::ConfirmCreatePartition) {
        Effect::CreatePartition { block_device, size_bytes, fs_type, label } => {
            assert_eq!(block_device, "d1/block");
            assert_eq!(size_bytes, 100);
            assert_eq!(fs_type, "xfs");
            assert_eq!(label, "");
        }
        _ => panic!("create expected"),
    }
    assert_eq!(s.config.default_fs_type, FsType::Xfs);
}

#[test]
fn create_partition_size_at_or_over_maximum_means_all_space() {
    let mut s = fresh();
    s.handle(Message::SelectUnallocated("d1".to_string()));
    s.handle(Message::OpenCreatePartitionPanel { drive_id: "d1".to_string(), max_bytes: 500 });
    s.handle(Message::CreatePartitionSizeChanged("500".to_string()));
    match s.handle(Message::ConfirmCreatePartition) {
        Effect::CreatePartition { size_bytes, block_device, .. } => {
            assert_eq!(size_bytes, 0);
            assert_eq!(block_device, "");
        }
        _ => panic!("create expected"),
    }
}

#[test]
fn create_partition_rejects_unreadable_size() {
    let mut s = fresh();
    s.handle(Message::SelectUnallocated("d1".to_string()));
    s.handle(Message::OpenCreatePartitionPanel { drive_id: "d1".to_string(), max_bytes: 500 });
    s.handle(Message::CreatePartitionSizeChanged("lots".to_string()));
    match s.handle(Message::ConfirmCreatePartition) {
        Effect::RejectSize { input } => assert_eq!(input, "lots"),
        _ => panic!("rejection expected"),
    }
    match &s.selection_state {
        SelectionState::Unallocated(c) => assert!(c.create_panel.is_some()),
        _ => panic!("unallocated expected"),
    }
    s.set_selection_error("invalid size".to_string());
    assert_eq!(partition_error(&s).as_deref(), Some("invalid size"));
}

#[test]
fn rescan_keeps_or_clears_selection_and_dialog() {
    let mut s = fresh();
    select(&mut s, "/dev/sda1");
    s.handle(Message::OpenUnmountDialog("/dev/sda1".to_string(), vec!["/mnt".to_string()]));
    let mut fresh_part = block("/dev/sda1", "d1", PartitionState::Mounted);
    fresh_part.size = 77;
    let e = s.handle(Message::DisksScanned(Ok(vec![drive("d1", vec![fresh_part])])));
    assert!(matches!(e, Effect::LookupFstab(_)));
    match &s.selection_state {
        SelectionState::Partition(c) => assert_eq!(c.partition.size, 77),
        _ => panic!("partition kept"),
    }
    assert!(matches!(s.active_dialog, ActiveDialog::Unmount { .. }));
    let e = s.handle(Message::DisksScanned(Ok(vec![drive("d1", vec![])])));
    assert!(matches!(e, Effect::Nothing));
    assert!(matches!(s.selection_state, SelectionState::Unselected));
    assert!(matches!(s.active_dialog, ActiveDialog::Closed));
    assert!(matches!(&s.load_state, LoadState::Ready(d) if d.len() == 1));
    s.handle(Message::DisksScanned(Err("no bus".to_string())));
    assert!(matches!(&s.load_state, LoadState::Error(e) if e == "no bus"));
}

#[test]
fn refresh_and_browse_keep_state() {
    let mut s = fresh();
    assert!(matches!(s.handle(Message::RefreshDisks), Effect::ScanDrives));
    assert!(matches!(s.handle(Message::BrowseMountPath), Effect::PickFolder));
    assert!(matches!(s.load_state, LoadState::Scanning));
    match s.handle(Message::LaunchUrl("https://x".to_string())) {
        Effect::OpenUrl(u) => assert_eq!(u, "https://x"),
        _ => panic!("open url expected"),
    }
}

#[test]
fn context_page_toggles() {
    let mut s = fresh();
    s.handle(Message::ToggleContextPage(ContextPage::About));
    assert!(s.show_context);
    s.handle(Message::ToggleContextPage(ContextPage::About));
    assert!(!s.show_context);
}

#[test]
fn confirm_unmount_starts_operation() {
    let mut s = fresh();
    select(&mut s, "/dev/sda1");
    s.handle(Message::OpenUnmountDialog("/dev/sda1".to_string(), vec![]));
    match s.handle(Message::ConfirmUnmount) {
        Effect::Unmount { device } => assert_eq!(device, "/dev/sda1"),
        _ => panic!("unmount expected"),
    }
    assert!(matches!(s.active_dialog, ActiveDialog::Closed));
    assert!(matches!(s.handle(Message::ConfirmUnmount), Effect::Nothing));
}

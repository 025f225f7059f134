use cosmic_disks::disks::{BlockDevice, PartitionState};
use cosmic_disks::message::{PartitionContext, SelectionState, UnallocatedContext};
use cosmic_disks::portal::picked_folder;
use cosmic_disks::scan::ay_to_string;
use cosmic_disks::ui::{card_focus, unmount_body, CardFocus, UnmountBody};
use cosmic_disks::volumes::{ay_bytes, mount_plan};
use cosmic_disks::watch::{watch_step, WatchAction, WatchEvent, WatchState};

#[test]
fn picked_folder_takes_first_local_uri() {
    assert_eq!(picked_folder(&vec![]), None);
    assert_eq!(
        picked_folder(&vec!["file:///mnt/data".to_string(), "file:///other".to_string()]),
        Some("/mnt/data".to_string())
    );
    assert_eq!(
        picked_folder(&vec!["file:///media/My%20Disk".to_string()]),
        Some("/media/My Disk".to_string())
    );
    assert_eq!(picked_folder(&vec!["https://example.com/x".to_string()]), None);
    assert_eq!(picked_folder(&vec!["not a uri".to_string()]), None);
}

#[test]
fn ay_round_trip_keeps_non_ascii_text() {
    for s in ["", "/mnt/data", "/media/Données", "/run/media/ユーザー/ディスク"] {
        assert_eq!(ay_to_string(&ay_bytes(s)), s);
    }
    assert_eq!(ay_to_string(&Vec::new()), "");
}

fn part(device: &str, drive_id: &str) -> BlockDevice {
    BlockDevice {
        device: device.to_string(),
        uuid: String::new(),
        label: String::new(),
        fs_type: "ext4".to_string(),
        size: 10,
        offset: 0,
        mount_points: vec![],
        drive_id: drive_id.to_string(),
        state: PartitionState::Unmounted,
        part_uuid: String::new(),
        part_label: String::new(),
    }
}

#[test]
fn card_focus_follows_the_selected_drive() {
    let d1 = "d1".to_string();
    let d2 = "d2".to_string();
    assert_eq!(card_focus(&SelectionState::Unselected, &d1), CardFocus::Nothing);
    let sel = SelectionState::Partition(PartitionContext {
        partition: part("/dev/sda1", "d1"),
        fstab_entry: None,
        format_panel: None,
        operation_in_progress: None,
        operation_error: None,
    });
    assert_eq!(card_focus(&sel, &d1), CardFocus::Partition);
    assert_eq!(card_focus(&sel, &d2), CardFocus::Nothing);
    let sel = SelectionState::Unallocated(UnallocatedContext {
        drive_id: "d2".to_string(),
        create_panel: None,
        operation_in_progress: None,
        operation_error: None,
    });
    assert_eq!(card_focus(&sel, &d2), CardFocus::Unallocated);
    assert_eq!(card_focus(&sel, &d1), CardFocus::Nothing);
}

#[test]
fn mount_plan_writes_fstab_or_passes_the_path() {
    let p = mount_plan(" ro,noatime ", "/mnt/data", true);
    assert!(p.write_fstab);
    assert_eq!(p.options.as_deref(), Some("ro,noatime"));
    assert_eq!(p.mount_point, None);
    let p = mount_plan("  ", "/mnt/data", false);
    assert!(!p.write_fstab);
    assert_eq!(p.options, None);
    assert_eq!(p.mount_point.as_deref(), Some("/mnt/data"));
}

#[test]
fn each_burst_asks_for_one_refresh() {
    let mut state = WatchState::Waiting;
    let mut sent = 0;
    for n in [1usize, 3, 7] {
        for _ in 0..n {
            let (s, a) = watch_step(state, WatchEvent::Signal);
            assert_ne!(a, WatchAction::SendRefresh);
            state = s;
        }
        let (s, a) = watch_step(state, WatchEvent::QuietWindowElapsed);
        assert_eq!(a, WatchAction::SendRefresh);
        sent += 1;
        let (s, a) = watch_step(s, WatchEvent::Sent);
        assert_eq!(a, WatchAction::AwaitSignal);
        state = s;
    }
    assert_eq!(sent, 3);
    assert_eq!(state, WatchState::Waiting);
    for e in [WatchEvent::StreamEnded, WatchEvent::QuietWindowElapsed, WatchEvent::ConnectFailed] {
        assert_ne!(watch_step(WatchState::Waiting, e).1, WatchAction::SendRefresh);
    }
}

#[test]
fn unmount_body_names_the_mount_points() {
    assert!(matches!(unmount_body(&vec![]), UnmountBody::NoPath));
    match unmount_body(&vec!["/mnt/a".to_string(), "/mnt/b".to_string()]) {
        UnmountBody::Paths(p) => assert_eq!(p, "/mnt/a, /mnt/b"),
        UnmountBody::NoPath => panic!("paths expected"),
    }
}

#[test]
fn refresh_only_where_a_burst_ends() {
    // Events as the watcher loop would see them, starting from a fresh connection.
    let events = [
        WatchEvent::Signal,
        WatchEvent::Signal,
        WatchEvent::QuietWindowElapsed,
        WatchEvent::Sent,
        WatchEvent::StreamEnded,
        WatchEvent::ConnectFailed,
        WatchEvent::Signal,
        WatchEvent::StreamEnded,
        WatchEvent::SendFailed,
        WatchEvent::Signal,
        WatchEvent::Signal,
        WatchEvent::Signal,
        WatchEvent::QuietWindowElapsed,
    ];
    let mut state = WatchState::Waiting;
    let mut refresh_at = Vec::new();
    for (i, e) in events.iter().enumerate() {
        let (s, a) = watch_step(state, *e);
        if a == WatchAction::SendRefresh {
            refresh_at.push(i);
        }
        state = s;
    }
    assert_eq!(refresh_at, vec![2, 7, 12]);
}

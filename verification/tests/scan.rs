use cosmic_disks::cli::{all_volumes, drives_text, volumes_text};
use cosmic_disks::disks::PartitionState;
use cosmic_disks::scan::{
    assemble_drives, ay_to_string, locate_device, BlockProps, DriveProps, PartitionProps,
    UdisksObject,
};

fn ay(s: &str) -> Option<Vec<u8>> {
    let mut b = s.as_bytes().to_vec();
    b.push(0);
    Some(b)
}

fn drive_obj(path: &str, model: &str) -> UdisksObject {
    UdisksObject {
        path: path.to_string(),
        drive: Some(DriveProps {
            model: model.to_string(),
            vendor: "ACME ".to_string(),
            size: 2048,
            removable: false,
        }),
        block: None,
        partition: None,
        filesystem: None,
        partition_table: false,
    }
}

fn part_obj(path: &str, dev: &str, drive: &str, offset: u64, fs: Option<Vec<Vec<u8>>>) -> UdisksObject {
    UdisksObject {
        path: path.to_string(),
        drive: None,
        block: Some(BlockProps {
            device: ay(dev),
            drive: drive.to_string(),
            id_type: if fs.is_some() { "ext4".to_string() } else { String::new() },
            id_uuid: format!("uuid-{offset}"),
            id_label: String::new(),
            size: 100,
        }),
        partition: Some(PartitionProps { offset, uuid: "pu".to_string(), name: "pn".to_string() }),
        filesystem: fs,
        partition_table: false,
    }
}

fn disk_obj(path: &str, dev: &str, drive: &str) -> UdisksObject {
    UdisksObject {
        path: path.to_string(),
        drive: None,
        block: Some(BlockProps {
            device: ay(dev),
            drive: drive.to_string(),
            id_type: String::new(),
            id_uuid: String::new(),
            id_label: String::new(),
            size: 2048,
        }),
        partition: None,
        filesystem: None,
        partition_table: true,
    }
}

#[test]
fn ay_values_drop_trailing_nuls() {
    assert_eq!(ay_to_string(&b"/dev/sda1\0\0".to_vec()), "/dev/sda1");
    assert_eq!(ay_to_string(&Vec::new()), "");
}

#[test]
fn drives_get_their_volumes_sorted() {
    let objs = vec![
        part_obj("/p2", "/dev/sda2", "/d/a", 500, Some(vec![b"/mnt/x\0".to_vec(), b"\0".to_vec()])),
        drive_obj("/d/b", "Zeta"),
        part_obj("/p1", "/dev/sda1", "/d/a", 10, None),
        disk_obj("/b/sda", "/dev/sda", "/d/a"),
        part_obj("/loop", "/dev/loop0", "/d/a", 0, Some(vec![])),
        drive_obj("/d/a", "Alpha"),
        part_obj("/orphan", "/dev/sdz1", "/d/none", 0, None),
    ];
    let drives = assemble_drives(&objs);
    assert_eq!(drives.len(), 2);
    assert_eq!(drives[0].model, "Alpha");
    assert_eq!(drives[1].model, "Zeta");
    let a = &drives[0];
    assert_eq!(a.block_device, "/b/sda");
    let devs: Vec<&str> = a.partitions.iter().map(|p| p.device.as_str()).collect();
    assert_eq!(devs, vec!["/dev/sda1", "/dev/sda2"]);
    assert_eq!(a.partitions[0].state, PartitionState::Unformatted);
    assert_eq!(a.partitions[1].state, PartitionState::Mounted);
    assert_eq!(a.partitions[1].mount_points, vec!["/mnt/x".to_string()]);
    assert_eq!(a.partitions[1].drive_id, "/d/a");
    assert!(drives[1].partitions.is_empty());
    assert_eq!(a.display_name(), "ACME Alpha (2.0 KiB)");
}

#[test]
fn whole_disk_filesystem_is_listed() {
    let mut o = disk_obj("/b/sdc", "/dev/sdc", "/d/c");
    o.partition_table = false;
    o.filesystem = Some(vec![]);
    let objs = vec![drive_obj("/d/c", "C"), o];
    let drives = assemble_drives(&objs);
    assert_eq!(drives[0].partitions.len(), 1);
    assert_eq!(drives[0].partitions[0].state, PartitionState::Unmounted);
    assert_eq!(drives[0].partitions[0].offset, 0);
    assert_eq!(drives[0].block_device, "");
}

#[test]
fn locate_device_finds_path_and_uuid() {
    let objs = vec![drive_obj("/d/a", "A"), part_obj("/p1", "/dev/sda1", "/d/a", 3, None)];
    assert_eq!(
        locate_device(&objs, "/dev/sda1"),
        Some(("/p1".to_string(), "uuid-3".to_string()))
    );
    assert_eq!(locate_device(&objs, "/dev/sdb1"), None);
}

#[test]
fn text_reports() {
    let objs = vec![
        drive_obj("/d/a", "Alpha"),
        part_obj("/p1", "/dev/sda1", "/d/a", 10, Some(vec![b"/mnt/a\0".to_vec(), b"/mnt/b".to_vec()])),
        drive_obj("/d/b", "Beta"),
    ];
    let drives = assemble_drives(&objs);
    let lines = drives_text(&drives);
    assert_eq!(
        lines,
        vec![
            "ACME Alpha (2.0 KiB)".to_string(),
            format!("  {:<20} {:>10}  {:<8}  {}", "/dev/sda1", "100 B", "ext4", "/mnt/a, /mnt/b"),
            String::new(),
            "ACME Beta (2.0 KiB)".to_string(),
            "  (no partitions)".to_string(),
            String::new(),
        ]
    );
    let vols = all_volumes(drives);
    let lines = volumes_text(&vols);
    assert_eq!(
        lines,
        vec![
            format!("{:<20} {:<20} {:>10}  {:<10}  {}", "DEVICE", "LABEL", "SIZE", "TYPE", "MOUNTPOINTS"),
            "-".repeat(80),
            format!("{:<20} {:<20} {:>10}  {:<10}  {}", "/dev/sda1", "-", "100 B", "ext4", "/mnt/a, /mnt/b"),
        ]
    );
}

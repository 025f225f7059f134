use cosmic_disks::disks::parse_fstab;

#[test]
fn parse_fstab_matches_uuid() {
    let content = "UUID=abc-123  /mnt/data  ext4  defaults  0  2\n";
    let result = parse_fstab(content, "abc-123", "", "/dev/sda1", "", "");
    let entry = result.expect("should match UUID");
    assert_eq!(entry.mount_point, "/mnt/data");
    assert_eq!(entry.options, "defaults");
    assert_eq!(entry.spec, "UUID=abc-123");
}

#[test]
fn parse_fstab_matches_label() {
    let content = "LABEL=mydata  /mnt/usb  vfat  ro,noatime  0  0\n";
    let result = parse_fstab(content, "", "mydata", "/dev/sdb1", "", "");
    let entry = result.expect("should match LABEL");
    assert_eq!(entry.mount_point, "/mnt/usb");
    assert_eq!(entry.options, "ro,noatime");
}

#[test]
fn parse_fstab_matches_device_path() {
    let content = "/dev/sdc1  /boot  ext4  defaults  0  1\n";
    let result = parse_fstab(content, "", "", "/dev/sdc1", "", "");
    let entry = result.expect("should match device path");
    assert_eq!(entry.mount_point, "/boot");
}

#[test]
fn parse_fstab_no_match() {
    let content = "UUID=other-uuid  /mnt/other  ext4  defaults  0  2\n";
    assert!(parse_fstab(content, "abc-123", "mydata", "/dev/sda1", "", "").is_none());
}

#[test]
fn parse_fstab_skips_comments_and_short_lines() {
    let content =
        "# this is a comment\nUUID=abc-123\n\nUUID=abc-123  /mnt/data  ext4  defaults  0  2\n";
    let result = parse_fstab(content, "abc-123", "", "", "", "");
    assert!(result.is_some());
}

#[test]
fn parse_fstab_matches_partuuid() {
    let content =
        "PARTUUID=11111111-2222-3333-4444-555555555555  /mnt/data  ext4  defaults  0  2\n";
    let result = parse_fstab(
        content,
        "",
        "",
        "/dev/nvme0n1p1",
        "11111111-2222-3333-4444-555555555555",
        "",
    );
    let entry = result.expect("should match PARTUUID");
    assert_eq!(entry.mount_point, "/mnt/data");
}

#[test]
fn parse_fstab_matches_partlabel() {
    let content = "PARTLABEL=mypart  /mnt/data  ext4  defaults  0  2\n";
    let result = parse_fstab(content, "", "", "/dev/nvme0n1p1", "", "mypart");
    let entry = result.expect("should match PARTLABEL");
    assert_eq!(entry.mount_point, "/mnt/data");
}

// ---------------------------------------------------------------------------

#[test]
fn fstab_uuid_match_ignores_ascii_case() {
    let content = "uuid=ABC-123 /mnt/x ext4 rw 0 0\n";
    let entry = parse_fstab(content, "abc-123", "", "", "", "").expect("case-insensitive match");
    assert_eq!(entry.spec, "uuid=ABC-123");
    assert_eq!(entry.options, "rw");
}

#[test]
fn fstab_device_path_is_case_sensitive() {
    let content = "/DEV/SDA1 /mnt/x ext4 rw 0 0\n";
    assert!(parse_fstab(content, "", "", "/dev/sda1", "", "").is_none());
}

#[test]
fn fstab_first_matching_line_wins() {
    let content = "LABEL=a /first ext4 rw 0 0\nLABEL=a /second ext4 ro 0 0\n";
    let entry = parse_fstab(content, "", "a", "", "", "").unwrap();
    assert_eq!(entry.mount_point, "/first");
}

#[test]
fn fstab_empty_identifiers_never_match_prefix_alone() {
    let content = "UUID= /mnt/x ext4 rw 0 0\n";
    assert!(parse_fstab(content, "", "", "/dev/sda1", "", "").is_none());
}

#[test]
fn fstab_indented_comment_and_tabs() {
    let content = "   # UUID=abc /mnt/c ext4 rw 0 0\n\tUUID=abc\t/mnt/t\text4\tnoatime\t0\t0\r\n";
    let entry = parse_fstab(content, "abc", "", "", "", "").unwrap();
    assert_eq!(entry.mount_point, "/mnt/t");
    assert_eq!(entry.options, "noatime");
}

#[test]
fn fstab_last_line_without_newline() {
    let content = "/dev/sdc1 /boot ext4 defaults 0 1";
    assert_eq!(parse_fstab(content, "", "", "/dev/sdc1", "", "").unwrap().mount_point, "/boot");
}

#[test]
fn fstab_empty_text() {
    assert!(parse_fstab("", "a", "b", "/dev/x", "c", "d").is_none());
}

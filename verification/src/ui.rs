//! Display decisions of the disk cards: which colour class a filesystem gets,
//! how much space is unallocated, which actions a volume offers and which
//! in-flight operation a card reports.

use vstd::prelude::*;

use crate::disks::{blocks_view, strings_view, BlockDevice, BlockDeviceView, Drive, FstabEntry, PartitionState};
use crate::message::{FsType, OperationKind, OperationView, SelectionState, SelectionView};
use crate::text::{equals, join_strings, join_texts};

verus! {

/// The colour class of a volume in the disk bar.
#[derive(Debug, Clone, Copy, PartialEq, Eq, Structural)]
pub enum FsColor {
    Ext4,
    Btrfs,
    Xfs,
    Vfat,
    /// exFAT and NTFS share a colour.
    ExfatNtfs,
    Swap,
    Zfs,
    Iso9660,
    /// Any other (or no) filesystem.
    Other,
}

/// The colour class of a filesystem type name: the known filesystem types
/// (with their display aliases) by type, then swap, zfs and iso9660 by name.
pub open spec fn fs_color_of(fs: Seq<char>) -> FsColor {
    match FsType::from_name(fs) {
        Some(FsType::Ext4) => FsColor::Ext4,
        Some(FsType::Btrfs) => FsColor::Btrfs,
        Some(FsType::Xfs) => FsColor::Xfs,
        Some(FsType::Vfat) => FsColor::Vfat,
        Some(FsType::Exfat) => FsColor::ExfatNtfs,
        Some(FsType::Ntfs) => FsColor::ExfatNtfs,
        None => if fs == "swap"@ {
            FsColor::Swap
        } else if fs == "zfs"@ {
            FsColor::Zfs
        } else if fs == "iso9660"@ {
            FsColor::Iso9660
        } else {
            FsColor::Other
        },
    }
}

/// The colour class of a filesystem type name.
pub fn fs_color(fs: &str) -> (c: FsColor)
    ensures
        c == fs_color_of(fs@),
{
    match FsType::parse_name(fs) {
        Ok(FsType::Ext4) => FsColor::Ext4,
        Ok(FsType::Btrfs) => FsColor::Btrfs,
        Ok(FsType::Xfs) => FsColor::Xfs,
        Ok(FsType::Vfat) => FsColor::Vfat,
        Ok(FsType::Exfat) => FsColor::ExfatNtfs,
        Ok(FsType::Ntfs) => FsColor::ExfatNtfs,
        Err(()) => if equals(fs, "swap") {
            FsColor::Swap
        } else if equals(fs, "zfs") {
            FsColor::Zfs
        } else if equals(fs, "iso9660") {
            FsColor::Iso9660
        } else {
            FsColor::Other
        },
    }
}

/// The total size of the volumes.
pub open spec fn total_size(ps: Seq<BlockDeviceView>) -> int
    decreases ps.len(),
{
    if ps.len() == 0 {
        0
    } else {
        total_size(ps.drop_last()) + ps.last().size
    }
}

/// The unallocated space of a drive: its size less the total size of its
/// volumes, or zero when the volumes add up to more.
pub fn free_bytes(drive: &Drive) -> (r: u64)
    requires
        total_size(blocks_view(drive.partitions@)) <= u64::MAX,
    ensures
        r == if total_size(blocks_view(drive.partitions@)) >= drive.size {
            0
        } else {
            drive.size - total_size(blocks_view(drive.partitions@))
        },
{
    let ghost pv = blocks_view(drive.partitions@);
    let mut used: u64 = 0;
    let mut i: usize = 0;
    proof {
        assert(pv.take(0) =~= Seq::<BlockDeviceView>::empty());
    }
    while i < drive.partitions.len()
        invariant
            pv == blocks_view(drive.partitions@),
            total_size(pv) <= u64::MAX,
            i <= pv.len(),
            used == total_size(pv.take(i as int)),
        decreases drive.partitions.len() - i,
    {
        proof {
            let t = pv.take(i + 1);
            assert(t.drop_last() =~= pv.take(i as int));
            assert(t.last() == drive.partitions@[i as int]@);
            lemma_total_size_prefix(pv, i + 1);
        }
        used = used + drive.partitions[i].size;
        i = i + 1;
    }
    proof {
        assert(pv.take(i as int) =~= pv);
    }
    drive.size.saturating_sub(used)
}

/// The total size of a prefix is at most the total size (sizes are not negative).
pub proof fn lemma_total_size_prefix(ps: Seq<BlockDeviceView>, n: int)
    requires
        0 <= n <= ps.len(),
    ensures
        total_size(ps.take(n)) <= total_size(ps),
    decreases ps.len(),
{
    if n < ps.len() {
        lemma_total_size_prefix(ps.drop_last(), n);
        assert(ps.drop_last().take(n) =~= ps.take(n));
    } else {
        assert(ps.take(n) =~= ps);
    }
}

/// An action that the detail card of a volume offers.
pub enum PartitionAction {
    /// Unmount it (a mounted volume).
    Unmount,
    /// Mount it at the mount point of its fstab entry.
    MountAtFstabPath(String),
    /// Mount it at a location to be chosen.
    MountNewLocation,
    /// Format it.
    Format,
}

pub enum PartitionActionView {
    Unmount,
    MountAtFstabPath(Seq<char>),
    MountNewLocation,
    Format,
}

impl View for PartitionAction {
    type V = PartitionActionView;

    open spec fn view(&self) -> PartitionActionView {
        match self {
            PartitionAction::Unmount => PartitionActionView::Unmount,
            PartitionAction::MountAtFstabPath(p) => PartitionActionView::MountAtFstabPath(p@),
            PartitionAction::MountNewLocation => PartitionActionView::MountNewLocation,
            PartitionAction::Format => PartitionActionView::Format,
        }
    }
}

/// The actions a volume offers: a mounted volume can be unmounted; an
/// unmounted one mounted at its fstab mount point (when it has an entry), at a
/// new location, or formatted; an unformatted one only formatted.
pub open spec fn actions_for(state: PartitionState, fstab_mount_point: Option<Seq<char>>) -> Seq<
    PartitionActionView,
> {
    match state {
        PartitionState::Mounted => seq![PartitionActionView::Unmount],
        PartitionState::Unmounted => match fstab_mount_point {
            Some(mp) => seq![
                PartitionActionView::MountAtFstabPath(mp),
                PartitionActionView::MountNewLocation,
                PartitionActionView::Format,
            ],
            None => seq![PartitionActionView::MountNewLocation, PartitionActionView::Format],
        },
        PartitionState::Unformatted => seq![PartitionActionView::Format],
    }
}

/// The actions the detail card of a volume offers, in order.
pub fn partition_actions(p: &BlockDevice, fstab_entry: Option<&FstabEntry>) -> (r: Vec<
    PartitionAction,
>)
    ensures
        r@.map_values(|a: PartitionAction| a@) == actions_for(
            p.state,
            match fstab_entry {
                Some(e) => Some(e.mount_point@),
                None => None,
            },
        ),
{
    let mut r: Vec<PartitionAction> = Vec::new();
    match p.state {
        PartitionState::Mounted => {
            r.push(PartitionAction::Unmount);
        },
        PartitionState::Unmounted => {
            if let Some(e) = fstab_entry {
                r.push(PartitionAction::MountAtFstabPath(e.mount_point.clone()));
            }
            r.push(PartitionAction::MountNewLocation);
            r.push(PartitionAction::Format);
        },
        PartitionState::Unformatted => {
            r.push(PartitionAction::Format);
        },
    }
    assert(r@.map_values(|a: PartitionAction| a@) =~= actions_for(
        p.state,
        match fstab_entry {
            Some(e) => Some(e.mount_point@),
            None => None,
        },
    ));
    r
}

/// The operation a volume's card reports as in flight: mounting, unmounting
/// or formatting that very device.
pub open spec fn reports_partition_op(op: OperationView, device: Seq<char>) -> bool {
    match op {
        OperationView::Mounting(d) => d == device,
        OperationView::Unmounting(d) => d == device,
        OperationView::Formatting(d) => d == device,
        OperationView::CreatingPartition { .. } => false,
    }
}

/// Whether a volume's card shows `op` as in flight.
pub fn partition_op_shown(op: &OperationKind, device: &String) -> (b: bool)
    ensures
        b == reports_partition_op(op@, device@),
{
    match op {
        OperationKind::Mounting(d) => *d == *device,
        OperationKind::Unmounting(d) => *d == *device,
        OperationKind::Formatting(d) => *d == *device,
        OperationKind::CreatingPartition { .. } => false,
    }
}

/// Whether a drive's unallocated-space card shows `op` as in flight: creating
/// a partition on that very drive.
pub fn create_op_shown(op: &OperationKind, drive_id: &String) -> (b: bool)
    ensures
        b == (op@ matches OperationView::CreatingPartition { drive_id: d } && d == drive_id@),
{
    match op {
        OperationKind::CreatingPartition { drive_id: d } => *d == *drive_id,
        _ => false,
    }
}

/// Which part of the selection a drive's card shows.
#[derive(Debug, Clone, Copy, PartialEq, Eq, Structural)]
pub enum CardFocus {
    /// The selection is elsewhere (or there is none).
    Nothing,
    /// A volume of this drive is selected.
    Partition,
    /// The unallocated space of this drive is selected.
    Unallocated,
}

/// The part of the selection that belongs to the card of drive `drive_id`.
pub open spec fn card_focus_of(sel: SelectionView, drive_id: Seq<char>) -> CardFocus {
    match sel {
        SelectionView::Partition(c) => if c.partition.drive_id == drive_id {
            CardFocus::Partition
        } else {
            CardFocus::Nothing
        },
        SelectionView::Unallocated(c) => if c.drive_id == drive_id {
            CardFocus::Unallocated
        } else {
            CardFocus::Nothing
        },
        SelectionView::Unselected => CardFocus::Nothing,
    }
}

/// Which part of the selection the card of drive `drive_id` shows.
pub fn card_focus(selection: &SelectionState, drive_id: &String) -> (f: CardFocus)
    ensures
        f == card_focus_of(selection@, drive_id@),
{
    match selection {
        SelectionState::Partition(c) => if c.partition.drive_id == *drive_id {
            CardFocus::Partition
        } else {
            CardFocus::Nothing
        },
        SelectionState::Unallocated(c) => if c.drive_id == *drive_id {
            CardFocus::Unallocated
        } else {
            CardFocus::Nothing
        },
        SelectionState::Unselected => CardFocus::Nothing,
    }
}

/// The body of the unmount confirmation: a plain one when the device has no
/// mount point, otherwise one that names its mount points.
pub enum UnmountBody {
    NoPath,
    /// The mount points, joined by ", ".
    Paths(String),
}

/// Which unmount confirmation body to show for a device's mount points.
pub fn unmount_body(mount_points: &Vec<String>) -> (b: UnmountBody)
    ensures
        mount_points@.len() == 0 ==> b is NoPath,
        mount_points@.len() > 0 ==> (b matches UnmountBody::Paths(p) && p@ == join_texts(
            strings_view(mount_points@),
            ", "@,
        )),
{
    if mount_points.len() == 0 {
        UnmountBody::NoPath
    } else {
        let p = join_strings(mount_points, ", ");
        assert(mount_points@.map_values(|s: String| s@) =~= strings_view(mount_points@));
        UnmountBody::Paths(p)
    }
}

/// What a volume's card offers: a mounted volume only unmounting; an
/// unmounted one always mounting at a new location and formatting, and
/// mounting at its fstab mount point exactly when it has an fstab entry; an
/// unformatted one only formatting.
pub proof fn lemma_actions_offered(state: PartitionState, fstab_mount_point: Option<Seq<char>>)
    ensures
        ({
            let a = actions_for(state, fstab_mount_point);
            &&& (a.contains(PartitionActionView::Unmount) <==> state == PartitionState::Mounted)
            &&& (a.contains(PartitionActionView::Format) <==> state != PartitionState::Mounted)
            &&& (a.contains(PartitionActionView::MountNewLocation) <==> state
                == PartitionState::Unmounted)
            &&& forall|mp: Seq<char>|
                a.contains(PartitionActionView::MountAtFstabPath(mp)) <==> (state
                    == PartitionState::Unmounted && fstab_mount_point == Some(mp))
            &&& state == PartitionState::Mounted ==> a.len() == 1
            &&& state == PartitionState::Unformatted ==> a.len() == 1
        }),
{
    let a = actions_for(state, fstab_mount_point);
    match state {
        PartitionState::Mounted => {
            assert(a[0] == PartitionActionView::Unmount);
        },
        PartitionState::Unmounted => {
            match fstab_mount_point {
                Some(m) => {
                    assert(a[0] == PartitionActionView::MountAtFstabPath(m));
                    assert(a[1] == PartitionActionView::MountNewLocation);
                    assert(a[2] == PartitionActionView::Format);
                },
                None => {
                    assert(a[0] == PartitionActionView::MountNewLocation);
                    assert(a[1] == PartitionActionView::Format);
                },
            }
        },
        PartitionState::Unformatted => {
            assert(a[0] == PartitionActionView::Format);
        },
    }
}

/// Each volume adds its own size to the total, whatever its state: the total
/// of no volumes is zero, and appending a volume adds exactly its size.
pub proof fn lemma_total_size_adds(ps: Seq<BlockDeviceView>, p: BlockDeviceView)
    ensures
        total_size(Seq::<BlockDeviceView>::empty()) == 0,
        total_size(ps.push(p)) == total_size(ps) + p.size,
        total_size(ps) >= 0,
    decreases ps.len(),
{
    assert(ps.push(p).drop_last() =~= ps);
    if ps.len() > 0 {
        lemma_total_size_adds(ps.drop_last(), ps.last());
    }
}

/// The free space of a drive is its size less the sizes of all its volumes,
/// whatever their state, and never below zero: with the free space, the
/// volumes fill the drive exactly when they fit in it.
pub proof fn lemma_free_space_fills_drive(size: u64, ps: Seq<BlockDeviceView>, free: u64)
    requires
        free == (if total_size(ps) >= size {
            0
        } else {
            size - total_size(ps)
        }),
    ensures
        total_size(ps) <= size ==> free + total_size(ps) == size,
        total_size(ps) >= size ==> free == 0,
        free <= size,
{
    if ps.len() > 0 {
        lemma_total_size_adds(ps.drop_last(), ps.last());
        assert(ps.drop_last().push(ps.last()) =~= ps);
    }
}

} // verus!

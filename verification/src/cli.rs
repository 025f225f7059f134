//! The command-line interface: its commands and the text reports it prints.

use vstd::prelude::*;

use crate::disks::{
    blocks_view, drive_display_name, drives_view, strings_view, BlockDevice, BlockDeviceView,
    Drive, DriveView,
};
use crate::sizes::byte_size_text;
use crate::text::{join_strings, join_texts, pad_left, pad_right, padded_left, padded_right};

verus! {

/// Parsed command line.
pub struct Cli {
    /// Output format.
    pub format: Format,
    pub command: Command,
}

pub enum Command {
    /// List all physical disks.
    ListDisks,
    /// List all volumes (partitions).
    ListVolumes,
    /// Mount a volume through udisks2's managed path.
    Mount { device: String, options: String },
    /// Unmount a volume.
    Unmount { device: String },
    /// Format a volume.
    Format { device: String, fs: String, label: String },
}

#[derive(Clone, Copy, Debug, PartialEq, Eq, Structural)]
pub enum Format {
    Text,
    Json,
}

/// The text for an optional field: the value, or `-` when empty.
pub open spec fn or_dash(s: Seq<char>) -> Seq<char> {
    if s.len() == 0 {
        "-"@
    } else {
        s
    }
}

/// The mount points joined by ", ", or `-` when there are none.
pub open spec fn mounts_text(mps: Seq<Seq<char>>) -> Seq<char> {
    if mps.len() == 0 {
        "-"@
    } else {
        join_texts(mps, ", "@)
    }
}

/// The line listing a volume under its drive.
pub open spec fn drive_volume_line(p: BlockDeviceView) -> Seq<char> {
    "  "@ + pad_right(p.device, 20) + " "@ + pad_left(byte_size_text(p.size), 10) + "  "@
        + pad_right(or_dash(p.fs_type), 8) + "  "@ + mounts_text(p.mount_points)
}

/// The lines listing the volumes of a drive, in order.
pub open spec fn volume_lines(ps: Seq<BlockDeviceView>) -> Seq<Seq<char>>
    decreases ps.len(),
{
    if ps.len() == 0 {
        seq![]
    } else {
        volume_lines(ps.drop_last()).push(drive_volume_line(ps.last()))
    }
}

/// The lines that describe one drive: its name, its volumes (or a note that
/// it has none), and a blank line.
pub open spec fn drive_lines(d: DriveView) -> Seq<Seq<char>> {
    seq![drive_display_name(d)] + if d.partitions.len() == 0 {
        seq!["  (no partitions)"@]
    } else {
        volume_lines(d.partitions)
    } + seq![seq![]]
}

/// The lines of the disk listing, drive after drive.
pub open spec fn drives_report(ds: Seq<DriveView>) -> Seq<Seq<char>>
    decreases ds.len(),
{
    if ds.len() == 0 {
        seq![]
    } else {
        drives_report(ds.drop_last()) + drive_lines(ds.last())
    }
}

/// The header of the volume listing.
pub open spec fn volumes_header() -> Seq<char> {
    pad_right("DEVICE"@, 20) + " "@ + pad_right("LABEL"@, 20) + " "@ + pad_left("SIZE"@, 10)
        + "  "@ + pad_right("TYPE"@, 10) + "  "@ + "MOUNTPOINTS"@
}

/// The line listing a volume in the volume listing.
pub open spec fn volume_row(p: BlockDeviceView) -> Seq<char> {
    pad_right(p.device, 20) + " "@ + pad_right(or_dash(p.label), 20) + " "@ + pad_left(
        byte_size_text(p.size),
        10,
    ) + "  "@ + pad_right(or_dash(p.fs_type), 10) + "  "@ + mounts_text(p.mount_points)
}

/// The rows of the volume listing, in order.
pub open spec fn volume_rows(ps: Seq<BlockDeviceView>) -> Seq<Seq<char>>
    decreases ps.len(),
{
    if ps.len() == 0 {
        seq![]
    } else {
        volume_rows(ps.drop_last()).push(volume_row(ps.last()))
    }
}

/// The lines of the volume listing: header, a rule of 80 dashes, one row per volume.
pub open spec fn volumes_report(ps: Seq<BlockDeviceView>) -> Seq<Seq<char>> {
    seq![volumes_header(), Seq::new(80, |i: int| '-')] + volume_rows(ps)
}

fn or_dash_string(s: &String) -> (r: String)
    ensures
        r@ == or_dash(s@),
{
    if s.as_str().is_empty() {
        "-".to_owned()
    } else {
        s.clone()
    }
}

fn mounts_string(mps: &Vec<String>) -> (r: String)
    ensures
        r@ == mounts_text(strings_view(mps@)),
{
    if mps.len() == 0 {
        "-".to_owned()
    } else {
        let r = join_strings(mps, ", ");
        assert(mps@.map_values(|s: String| s@) =~= strings_view(mps@));
        r
    }
}

fn drive_volume_text(p: &BlockDevice) -> (s: String)
    ensures
        s@ == drive_volume_line(p@),
{
    let mut s = "  ".to_owned();
    s.append(padded_right(p.device.as_str(), 20).as_str());
    s.append(" ");
    s.append(padded_left(p.display_size().as_str(), 10).as_str());
    s.append("  ");
    s.append(padded_right(or_dash_string(&p.fs_type).as_str(), 8).as_str());
    s.append("  ");
    s.append(mounts_string(&p.mount_points).as_str());
    s
}

/// The lines that `list-disks` prints in text form.
pub fn drives_text(drives: &Vec<Drive>) -> (lines: Vec<String>)
    ensures
        lines@.map_values(|s: String| s@) == drives_report(drives_view(drives@)),
{
    let ghost dv = drives_view(drives@);
    let mut lines: Vec<String> = Vec::new();
    let mut i: usize = 0;
    proof {
        assert(dv.take(0) =~= Seq::<DriveView>::empty());
        assert(lines@.map_values(|s: String| s@) =~= Seq::<Seq<char>>::empty());
    }
    while i < drives.len()
        invariant
            dv == drives_view(drives@),
            i <= drives@.len(),
            lines@.map_values(|s: String| s@) == drives_report(dv.take(i as int)),
        decreases drives.len() - i,
    {
        let d = &drives[i];
        let ghost before = lines@.map_values(|s: String| s@);
        lines.push(d.display_name());
        let ghost pv = blocks_view(d.partitions@);
        proof {
            assert(lines@.map_values(|s: String| s@) =~= before + seq![drive_display_name(d@)]);
            assert(d@.partitions == pv);
        }
        if d.partitions.len() == 0 {
            lines.push("  (no partitions)".to_owned());
            proof {
                assert(lines@.map_values(|s: String| s@) =~= before + seq![drive_display_name(d@)]
                    + seq!["  (no partitions)"@]);
            }
        } else {
            let mut j: usize = 0;
            proof {
                assert(pv.take(0) =~= Seq::<BlockDeviceView>::empty());
                assert(lines@.map_values(|s: String| s@) =~= before + seq![drive_display_name(d@)]
                    + volume_lines(pv.take(0)));
            }
            while j < d.partitions.len()
                invariant
                    pv == blocks_view(d.partitions@),
                    j <= d.partitions@.len(),
                    lines@.map_values(|s: String| s@) == before + seq![drive_display_name(d@)]
                        + volume_lines(pv.take(j as int)),
                decreases d.partitions.len() - j,
            {
                let ghost b2 = lines@.map_values(|s: String| s@);
                lines.push(drive_volume_text(&d.partitions[j]));
                proof {
                    let t = pv.take(j + 1);
                    assert(t.drop_last() =~= pv.take(j as int));
                    assert(t.last() == d.partitions@[j as int]@);
                    assert(lines@.map_values(|s: String| s@) =~= b2.push(
                        drive_volume_line(t.last()),
                    ));
                }
                j = j + 1;
            }
            proof {
                assert(pv.take(j as int) =~= pv);
            }
        }
        let ghost mid = lines@.map_values(|s: String| s@);
        lines.push(String::new());
        proof {
            assert(lines@.map_values(|s: String| s@) =~= mid.push(seq![]));
            let t = dv.take(i + 1);
            assert(t.drop_last() =~= dv.take(i as int));
            assert(t.last() == d@);
            assert(lines@.map_values(|s: String| s@) =~= before + drive_lines(d@));
        }
        i = i + 1;
    }
    proof {
        assert(dv.take(i as int) =~= dv);
    }
    lines
}

fn volume_row_text(p: &BlockDevice) -> (s: String)
    ensures
        s@ == volume_row(p@),
{
    let mut s = padded_right(p.device.as_str(), 20);
    s.append(" ");
    s.append(padded_right(or_dash_string(&p.label).as_str(), 20).as_str());
    s.append(" ");
    s.append(padded_left(p.display_size().as_str(), 10).as_str());
    s.append("  ");
    s.append(padded_right(or_dash_string(&p.fs_type).as_str(), 10).as_str());
    s.append("  ");
    s.append(mounts_string(&p.mount_points).as_str());
    s
}

/// The lines that `list-volumes` prints in text form.
pub fn volumes_text(volumes: &Vec<BlockDevice>) -> (lines: Vec<String>)
    ensures
        lines@.map_values(|s: String| s@) == volumes_report(blocks_view(volumes@)),
{
    let ghost pv = blocks_view(volumes@);
    let mut lines: Vec<String> = Vec::new();
    let mut header = padded_right("DEVICE", 20);
    header.append(" ");
    header.append(padded_right("LABEL", 20).as_str());
    header.append(" ");
    header.append(padded_left("SIZE", 10).as_str());
    header.append("  ");
    header.append(padded_right("TYPE", 10).as_str());
    header.append("  ");
    header.append("MOUNTPOINTS");
    lines.push(header);
    let rule = crate::text::repeated_char('-', 80);
    lines.push(rule);
    let mut i: usize = 0;
    proof {
        assert(pv.take(0) =~= Seq::<BlockDeviceView>::empty());
        assert(lines@.map_values(|s: String| s@) =~= volumes_report(pv.take(0)));
    }
    while i < volumes.len()
        invariant
            pv == blocks_view(volumes@),
            i <= volumes@.len(),
            lines@.map_values(|s: String| s@) == volumes_report(pv.take(i as int)),
        decreases volumes.len() - i,
    {
        let ghost before = lines@.map_values(|s: String| s@);
        lines.push(volume_row_text(&volumes[i]));
        proof {
            let t = pv.take(i + 1);
            assert(t.drop_last() =~= pv.take(i as int));
            assert(t.last() == volumes@[i as int]@);
            assert(lines@.map_values(|s: String| s@) =~= before.push(volume_row(t.last())));
            assert(volumes_report(t) =~= volumes_report(pv.take(i as int)).push(
                volume_row(t.last()),
            ));
        }
        i = i + 1;
    }
    proof {
        assert(pv.take(i as int) =~= pv);
    }
    lines
}

/// All volumes of all drives, drive after drive.
pub open spec fn all_volumes_of(ds: Seq<DriveView>) -> Seq<BlockDeviceView>
    decreases ds.len(),
{
    if ds.len() == 0 {
        seq![]
    } else {
        all_volumes_of(ds.drop_last()) + ds.last().partitions
    }
}

/// The volumes of all drives, drive after drive (what `list-volumes` lists).
pub fn all_volumes(drives: Vec<Drive>) -> (r: Vec<BlockDevice>)
    ensures
        blocks_view(r@) == all_volumes_of(drives_view(drives@)),
{
    let ghost dv = drives_view(drives@);
    let mut r: Vec<BlockDevice> = Vec::new();
    let mut rest = drives;
    let mut i: usize = 0;
    let n = rest.len();
    proof {
        assert(dv.take(0) =~= Seq::<DriveView>::empty());
        assert(blocks_view(r@) =~= Seq::<BlockDeviceView>::empty());
    }
    while rest.len() > 0
        invariant
            i + rest@.len() == n == dv.len(),
            drives_view(rest@) == dv.skip(i as int),
            blocks_view(r@) == all_volumes_of(dv.take(i as int)),
        decreases rest.len(),
    {
        let ghost r0 = rest@;
        proof {
            assert(drives_view(r0)[0] == r0[0]@);
        }
        let d = rest.remove(0);
        proof {
            assert(drives_view(rest@) =~= drives_view(r0).skip(1));
            assert(dv.skip(i as int).skip(1) =~= dv.skip(i + 1));
            let t = dv.take(i + 1);
            assert(t.drop_last() =~= dv.take(i as int));
            assert(t.last() == d@);
        }
        let mut parts = d.partitions;
        let ghost before = blocks_view(r@);
        let ghost pv = blocks_view(parts@);
        r.append(&mut parts);
        proof {
            assert(blocks_view(r@) =~= before + pv);
        }
        i = i + 1;
    }
    proof {
        assert(dv.take(i as int) =~= dv);
    }
    r
}

} // verus!

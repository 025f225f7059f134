//! Building the list of drives and their partitions from the objects that
//! udisks2 manages.

use vstd::prelude::*;

use crate::disks::{
    blocks_view, drives_view, strings_view, BlockDevice, BlockDeviceView, Drive, DriveView,
    PartitionState,
};
use crate::encoding::utf8_text;
use crate::text::chars_of;

verus! {

// ---------------------------------------------------------------------------
// Decoding NUL-terminated byte arrays
// ---------------------------------------------------------------------------

/// The text `String::from_utf8_lossy` decodes a byte string into.
pub uninterp spec fn utf8_lossy_text(bytes: Seq<u8>) -> Seq<char>;

/// Whether every byte is ASCII.
pub open spec fn all_ascii(bytes: Seq<u8>) -> bool {
    forall|i: int| 0 <= i < bytes.len() ==> #[trigger] bytes[i] < 128
}

/// Decodes bytes as UTF-8 with `String::from_utf8_lossy` and takes the text.
/// The text is a function of the bytes alone.  Bytes that are valid UTF-8
/// decode to the characters they encode; in particular ASCII bytes decode to
/// the characters with the same codes, one for one.  Invalid sequences become
/// U+FFFD, which is not spelled out here.
#[verifier::external_body]
fn utf8_lossy(bytes: &Vec<u8>) -> (s: String)
    ensures
        s@ == utf8_lossy_text(bytes@),
        utf8_text(bytes@) matches Some(t) ==> s@ == t,
        all_ascii(bytes@) ==> s@.len() == bytes@.len() && forall|i: int|
            0 <= i < bytes@.len() ==> #[trigger] s@[i] as u32 == bytes@[i] as u32,
{
    String::from_utf8_lossy(bytes).into_owned()
}

/// `s` without its trailing NUL characters.
pub open spec fn trim_nuls(s: Seq<char>) -> Seq<char>
    decreases s.len(),
{
    if s.len() > 0 && s.last() == '\0' {
        trim_nuls(s.drop_last())
    } else {
        s
    }
}

/// The text of a D-Bus `ay` (NUL-terminated byte array) value.
pub open spec fn ay_text(bytes: Seq<u8>) -> Seq<char> {
    trim_nuls(utf8_lossy_text(bytes))
}

proof fn lemma_trim_nuls_cut(s: Seq<char>, j: int)
    requires
        0 <= j <= s.len(),
        forall|k: int| j <= k < s.len() ==> #[trigger] s[k] == '\0',
    ensures
        trim_nuls(s) == trim_nuls(s.subrange(0, j)),
    decreases s.len() - j,
{
    if j < s.len() {
        let t = s.drop_last();
        assert forall|k: int| j <= k < t.len() implies #[trigger] t[k] == '\0' by {
            assert(t[k] == s[k]);
        }
        lemma_trim_nuls_cut(t, j);
        assert(t.subrange(0, j) =~= s.subrange(0, j));
    } else {
        assert(s.subrange(0, j) =~= s);
    }
}

/// The text of a D-Bus `ay` value whose bytes are valid UTF-8; `None` otherwise.
pub open spec fn ay_decoded(bytes: Seq<u8>) -> Option<Seq<char>> {
    match utf8_text(bytes) {
        Some(t) => Some(trim_nuls(t)),
        None => None,
    }
}

/// Decodes a D-Bus `ay` value (its bytes) to a `String`, dropping the trailing NULs.
pub fn ay_to_string(bytes: &Vec<u8>) -> (s: String)
    ensures
        s@ == ay_text(bytes@),
        ay_decoded(bytes@) matches Some(t) ==> s@ == t,
{
    let decoded = utf8_lossy(bytes);
    let v = chars_of(decoded.as_str());
    let mut j: usize = v.len();
    while j > 0 && v[j - 1] == '\0'
        invariant
            j <= v@.len(),
            forall|k: int| j <= k < v@.len() ==> #[trigger] v@[k] == '\0',
        decreases j,
    {
        j = j - 1;
    }
    proof {
        lemma_trim_nuls_cut(v@, j as int);
        let t = v@.subrange(0, j as int);
        if t.len() > 0 {
            assert(t.last() == v@[j - 1]);
        }
    }
    decoded.as_str().substring_char(0, j).to_owned()
}

/// The texts of the non-empty mount points among raw `ay` values.
pub open spec fn mount_point_texts(raw: Seq<Vec<u8>>) -> Seq<Seq<char>>
    decreases raw.len(),
{
    if raw.len() == 0 {
        seq![]
    } else {
        let r = mount_point_texts(raw.drop_last());
        let t = ay_text(raw.last()@);
        if t.len() > 0 {
            r.push(t)
        } else {
            r
        }
    }
}

/// Decodes the `MountPoints` of a filesystem, dropping empty ones.
pub fn mount_points_of(raw: &Vec<Vec<u8>>) -> (r: Vec<String>)
    ensures
        strings_view(r@) == mount_point_texts(raw@),
{
    let mut r: Vec<String> = Vec::new();
    let mut i: usize = 0;
    while i < raw.len()
        invariant
            i <= raw@.len(),
            strings_view(r@) == mount_point_texts(raw@.take(i as int)),
        decreases raw.len() - i,
    {
        let s = ay_to_string(&raw[i]);
        proof {
            assert(raw@.take(i + 1).drop_last() =~= raw@.take(i as int));
        }
        if !s.as_str().is_empty() {
            let ghost before = r@;
            r.push(s);
            assert(strings_view(r@) =~= strings_view(before).push(s@));
        }
        i = i + 1;
    }
    assert(raw@.take(i as int) =~= raw@);
    r
}

} // verus!

verus! {

// ---------------------------------------------------------------------------
// The objects udisks2 manages, as plain values
// ---------------------------------------------------------------------------

/// Properties of the `org.freedesktop.UDisks2.Drive` interface.
pub struct DriveProps {
    pub model: String,
    pub vendor: String,
    pub size: u64,
    pub removable: bool,
}

/// Properties of the `org.freedesktop.UDisks2.Block` interface.
pub struct BlockProps {
    /// The bytes of `Device` (an `ay`), or `None` when absent or not a byte array.
    pub device: Option<Vec<u8>>,
    /// Object path of the drive (`Drive`).
    pub drive: String,
    pub id_type: String,
    pub id_uuid: String,
    pub id_label: String,
    pub size: u64,
}

/// Properties of the `org.freedesktop.UDisks2.Partition` interface.
pub struct PartitionProps {
    pub offset: u64,
    pub uuid: String,
    /// The partition label (`Name`).
    pub name: String,
}

/// One managed object: its path and the interfaces it has.
pub struct UdisksObject {
    pub path: String,
    pub drive: Option<DriveProps>,
    pub block: Option<BlockProps>,
    pub partition: Option<PartitionProps>,
    /// Present when the object has the `Filesystem` interface: the raw
    /// `MountPoints` byte arrays (empty when the property is absent).
    pub filesystem: Option<Vec<Vec<u8>>>,
    /// Whether the object has the `PartitionTable` interface.
    pub partition_table: bool,
}

// ---------------------------------------------------------------------------
// Specification of the assembly
// ---------------------------------------------------------------------------

/// The device path of a block object (empty if it has none).
pub open spec fn device_of(o: UdisksObject) -> Seq<char> {
    match o.block {
        Some(b) => match b.device {
            Some(bytes) => ay_text(bytes@),
            None => seq![],
        },
        None => seq![],
    }
}

/// Whether a device path names a loop device.
pub open spec fn is_loop_device(dev: Seq<char>) -> bool {
    dev.len() >= 9 && dev.take(9) == "/dev/loop"@
}

/// Whether a block object counts at all: it has a device path, not a loop device.
pub open spec fn usable_block(o: UdisksObject) -> bool {
    o.block is Some && device_of(o).len() > 0 && !is_loop_device(device_of(o))
}

/// Whether a usable block object is listed as a volume: it is a partition, or
/// a whole disk with a filesystem directly on it.
pub open spec fn listed_block(o: UdisksObject) -> bool {
    usable_block(o) && (o.partition is Some || o.filesystem is Some)
}

/// Whether a usable block object is a whole disk with a partition table.
pub open spec fn table_block(o: UdisksObject) -> bool {
    usable_block(o) && o.partition_table && o.partition is None
}

/// The mount points of an object's filesystem (none without one).
pub open spec fn mount_points_view(o: UdisksObject) -> Seq<Seq<char>> {
    match o.filesystem {
        Some(raw) => mount_point_texts(raw@),
        None => seq![],
    }
}

/// The lifecycle state of a block object: mounted when it has mount points,
/// unmounted when a filesystem is known, unformatted otherwise.
pub open spec fn state_of(o: UdisksObject) -> PartitionState {
    if mount_points_view(o).len() > 0 {
        PartitionState::Mounted
    } else if o.filesystem is Some || o.block->0.id_type@.len() > 0 {
        PartitionState::Unmounted
    } else {
        PartitionState::Unformatted
    }
}

/// The volume a listed block object stands for.
pub open spec fn block_view_of(o: UdisksObject) -> BlockDeviceView {
    let b = o.block->0;
    BlockDeviceView {
        device: device_of(o),
        uuid: b.id_uuid@,
        label: b.id_label@,
        fs_type: b.id_type@,
        size: b.size,
        offset: match o.partition {
            Some(p) => p.offset,
            None => 0,
        },
        mount_points: mount_points_view(o),
        drive_id: b.drive@,
        state: state_of(o),
        part_uuid: match o.partition {
            Some(p) => p.uuid@,
            None => seq![],
        },
        part_label: match o.partition {
            Some(p) => p.name@,
            None => seq![],
        },
    }
}

/// The drives, one per object with the `Drive` interface, in object order,
/// before any volume is attached.
pub open spec fn initial_drives(objs: Seq<UdisksObject>) -> Seq<DriveView>
    decreases objs.len(),
{
    if objs.len() == 0 {
        seq![]
    } else {
        let r = initial_drives(objs.drop_last());
        let o = objs.last();
        match o.drive {
            Some(d) => r.push(
                DriveView {
                    id: o.path@,
                    model: d.model@,
                    vendor: d.vendor@,
                    size: d.size,
                    removable: d.removable,
                    partitions: seq![],
                    block_device: seq![],
                },
            ),
            None => r,
        }
    }
}

/// Index of the last drive with id `id`.
pub open spec fn last_drive_index(ds: Seq<DriveView>, id: Seq<char>) -> Option<int>
    decreases ds.len(),
{
    if ds.len() == 0 {
        None
    } else if ds.last().id == id {
        Some(ds.len() - 1)
    } else {
        last_drive_index(ds.drop_last(), id)
    }
}

/// The drives after one more object is considered: a whole disk with a
/// partition table records its path on its drive; a listed volume is appended
/// to its drive's partitions (the drive being the last one with that id).
pub open spec fn attach(ds: Seq<DriveView>, o: UdisksObject) -> Seq<DriveView> {
    if !usable_block(o) {
        ds
    } else {
        match last_drive_index(ds, o.block->0.drive@) {
            None => ds,
            Some(k) => {
                let d0 = ds[k];
                let d1 = if table_block(o) {
                    DriveView { block_device: o.path@, ..d0 }
                } else {
                    d0
                };
                let d2 = if listed_block(o) {
                    DriveView { partitions: d1.partitions.push(block_view_of(o)), ..d1 }
                } else {
                    d1
                };
                ds.update(k, d2)
            },
        }
    }
}

/// The drives after all of `objs` have been considered, in order.
pub open spec fn attach_all(ds: Seq<DriveView>, objs: Seq<UdisksObject>) -> Seq<DriveView>
    decreases objs.len(),
{
    if objs.len() == 0 {
        ds
    } else {
        attach(attach_all(ds, objs.drop_last()), objs.last())
    }
}

/// `s` with `x` inserted after every element whose offset is not greater than `x`'s.
pub open spec fn insert_by_offset(s: Seq<BlockDeviceView>, x: BlockDeviceView) -> Seq<
    BlockDeviceView,
>
    decreases s.len(),
{
    if s.len() > 0 && s.last().offset > x.offset {
        insert_by_offset(s.drop_last(), x).push(s.last())
    } else {
        s.push(x)
    }
}

/// The volumes stably sorted by offset.
pub open spec fn sort_by_offset(s: Seq<BlockDeviceView>) -> Seq<BlockDeviceView>
    decreases s.len(),
{
    if s.len() == 0 {
        s
    } else {
        insert_by_offset(sort_by_offset(s.drop_last()), s.last())
    }
}

/// Lexicographic order of character sequences (the order of `str`).
pub open spec fn text_lt(a: Seq<char>, b: Seq<char>) -> bool
    decreases a.len(),
{
    if a.len() == 0 {
        b.len() > 0
    } else if b.len() == 0 {
        false
    } else if a[0] != b[0] {
        a[0] < b[0]
    } else {
        text_lt(a.drop_first(), b.drop_first())
    }
}

/// `s` with `x` inserted after every drive whose model is not greater than `x`'s.
pub open spec fn insert_by_model(s: Seq<DriveView>, x: DriveView) -> Seq<DriveView>
    decreases s.len(),
{
    if s.len() > 0 && text_lt(x.model, s.last().model) {
        insert_by_model(s.drop_last(), x).push(s.last())
    } else {
        s.push(x)
    }
}

/// The drives stably sorted by model.
pub open spec fn sort_by_model(s: Seq<DriveView>) -> Seq<DriveView>
    decreases s.len(),
{
    if s.len() == 0 {
        s
    } else {
        insert_by_model(sort_by_model(s.drop_last()), s.last())
    }
}

/// The drive with its volumes sorted by offset.
pub open spec fn with_sorted_partitions(d: DriveView) -> DriveView {
    DriveView { partitions: sort_by_offset(d.partitions), ..d }
}

/// The drives and volumes that the managed objects describe: each drive with
/// its volumes in order of offset, the drives in order of model.
pub open spec fn assembled_drives(objs: Seq<UdisksObject>) -> Seq<DriveView> {
    sort_by_model(
        attach_all(initial_drives(objs), objs).map_values(|d: DriveView| with_sorted_partitions(d)),
    )
}

} // verus!

verus! {

// ---------------------------------------------------------------------------
// Assembly
// ---------------------------------------------------------------------------

fn initial_drive_list(objs: &Vec<UdisksObject>) -> (r: Vec<Drive>)
    ensures
        drives_view(r@) == initial_drives(objs@),
{
    let mut r: Vec<Drive> = Vec::new();
    let mut i: usize = 0;
    while i < objs.len()
        invariant
            i <= objs@.len(),
            drives_view(r@) == initial_drives(objs@.take(i as int)),
        decreases objs.len() - i,
    {
        let o = &objs[i];
        proof {
            assert(objs@.take(i + 1).drop_last() =~= objs@.take(i as int));
            assert(objs@.take(i + 1).last() == *o);
        }
        match &o.drive {
            Some(d) => {
                let ghost before = drives_view(r@);
                r.push(
                    Drive {
                        id: o.path.clone(),
                        model: d.model.clone(),
                        vendor: d.vendor.clone(),
                        size: d.size,
                        removable: d.removable,
                        partitions: Vec::new(),
                        block_device: String::new(),
                    },
                );
                proof {
                    assert(blocks_view(r@.last().partitions@) =~= Seq::<BlockDeviceView>::empty());
                    assert(drives_view(r@) =~= before.push(r@.last()@));
                }
            },
            None => {},
        }
        i = i + 1;
    }
    assert(objs@.take(i as int) =~= objs@);
    r
}

fn find_last_drive(ds: &Vec<Drive>, id: &String) -> (r: Option<usize>)
    ensures
        match r {
            Some(k) => k < ds@.len() && last_drive_index(drives_view(ds@), id@) == Some(k as int),
            None => last_drive_index(drives_view(ds@), id@) is None,
        },
{
    let ghost dv = drives_view(ds@);
    let mut j: usize = ds.len();
    proof {
        assert(dv.take(j as int) =~= dv);
    }
    while j > 0
        invariant
            j <= ds@.len(),
            dv == drives_view(ds@),
            last_drive_index(dv, id@) == last_drive_index(dv.take(j as int), id@),
        decreases j,
    {
        proof {
            let t = dv.take(j as int);
            assert(t.last() == dv[j - 1]);
            assert(t.drop_last() =~= dv.take(j - 1));
        }
        if ds[j - 1].id == *id {
            return Some(j - 1);
        }
        j = j - 1;
    }
    None
}

/// Whether `dev` starts with `/dev/loop`.
fn loop_device(dev: &String) -> (b: bool)
    ensures
        b == is_loop_device(dev@),
{
    let v = chars_of(dev.as_str());
    let p = chars_of("/dev/loop");
    if v.len() < p.len() {
        proof {
            reveal_strlit("/dev/loop");
        }
        return false;
    }
    let mut k: usize = 0;
    while k < p.len()
        invariant
            v@ == dev@,
            p@ == "/dev/loop"@,
            p@.len() <= v@.len(),
            k <= p@.len(),
            forall|m: int| 0 <= m < k ==> v@[m] == p@[m],
        decreases p.len() - k,
    {
        if v[k] != p[k] {
            proof {
                reveal_strlit("/dev/loop");
                assert(v@.take(9)[k as int] != p@[k as int]);
            }
            return false;
        }
        k = k + 1;
    }
    proof {
        reveal_strlit("/dev/loop");
        assert(v@.take(9) =~= p@);
    }
    true
}

/// The volume a listed block object stands for, given its block properties
/// and its decoded device path.
fn block_from_object(o: &UdisksObject, b: &BlockProps, device: String) -> (r: BlockDevice)
    requires
        o.block == Some(*b),
        device@ == device_of(*o),
    ensures
        r@ == block_view_of(*o),
{
    let mount_points = match &o.filesystem {
        Some(raw) => mount_points_of(raw),
        None => Vec::new(),
    };
    proof {
        if o.filesystem is None {
            assert(strings_view(mount_points@) =~= Seq::<Seq<char>>::empty());
        }
    }
    let (offset, part_uuid, part_label) = match &o.partition {
        Some(p) => (p.offset, p.uuid.clone(), p.name.clone()),
        None => (0u64, String::new(), String::new()),
    };
    let fs_type = b.id_type.clone();
    let state = if !mount_points.is_empty() {
        PartitionState::Mounted
    } else if o.filesystem.is_some() || !fs_type.as_str().is_empty() {
        PartitionState::Unmounted
    } else {
        PartitionState::Unformatted
    };
    let r = BlockDevice {
        device,
        uuid: b.id_uuid.clone(),
        label: b.id_label.clone(),
        fs_type,
        size: b.size,
        offset,
        mount_points,
        drive_id: b.drive.clone(),
        state,
        part_uuid,
        part_label,
    };
    assert(r@ =~= block_view_of(*o));
    r
}

/// The drives with the volumes of `objs` attached.
fn attach_objects(drives: Vec<Drive>, objs: &Vec<UdisksObject>) -> (r: Vec<Drive>)
    ensures
        drives_view(r@) == attach_all(drives_view(drives@), objs@),
{
    let ghost init = drives_view(drives@);
    let mut ds = drives;
    let mut i: usize = 0;
    proof {
        assert(objs@.take(0) =~= Seq::<UdisksObject>::empty());
    }
    while i < objs.len()
        invariant
            i <= objs@.len(),
            drives_view(ds@) == attach_all(init, objs@.take(i as int)),
        decreases objs.len() - i,
    {
        let o = &objs[i];
        proof {
            assert(objs@.take(i + 1).drop_last() =~= objs@.take(i as int));
            assert(objs@.take(i + 1).last() == *o);
        }
        let ghost before = drives_view(ds@);
        match &o.block {
            Some(b) => {
                let device = match &b.device {
                    Some(bytes) => ay_to_string(bytes),
                    None => String::new(),
                };
                if !device.as_str().is_empty() && !loop_device(&device) {
                    match find_last_drive(&ds, &b.drive) {
                        Some(k) => {
                            let mut d = ds.remove(k);
                            let ghost d0 = d@;
                            if o.partition_table && o.partition.is_none() {
                                d.block_device = o.path.clone();
                            }
                            if o.partition.is_some() || o.filesystem.is_some() {
                                let block = block_from_object(o, b, device);
                                let ghost pb = blocks_view(d.partitions@);
                                d.partitions.push(block);
                                assert(blocks_view(d.partitions@) =~= pb.push(block@));
                            }
                            ds.insert(k, d);
                            proof {
                                assert(drives_view(ds@) =~= attach(before, *o));
                            }
                        },
                        None => {},
                    }
                }
            },
            None => {},
        }
        i = i + 1;
    }
    assert(objs@.take(i as int) =~= objs@);
    ds
}

} // verus!

verus! {

// ---------------------------------------------------------------------------
// Stable sorting
// ---------------------------------------------------------------------------

proof fn lemma_insert_by_offset_at(s: Seq<BlockDeviceView>, x: BlockDeviceView, pos: int)
    requires
        0 <= pos <= s.len(),
        forall|k: int| pos <= k < s.len() ==> #[trigger] s[k].offset > x.offset,
        pos > 0 ==> s[pos - 1].offset <= x.offset,
    ensures
        insert_by_offset(s, x) == s.insert(pos, x),
    decreases s.len() - pos,
{
    if pos < s.len() {
        let t = s.drop_last();
        assert forall|k: int| pos <= k < t.len() implies #[trigger] t[k].offset > x.offset by {
            assert(t[k] == s[k]);
        }
        if pos > 0 {
            assert(t[pos - 1] == s[pos - 1]);
        }
        lemma_insert_by_offset_at(t, x, pos);
        assert(t.insert(pos, x).push(s.last()) =~= s.insert(pos, x));
    } else {
        assert(s.push(x) =~= s.insert(pos, x));
    }
}

/// The volumes stably sorted by offset.
fn sort_blocks(v: Vec<BlockDevice>) -> (r: Vec<BlockDevice>)
    ensures
        blocks_view(r@) == sort_by_offset(blocks_view(v@)),
{
    let ghost input = blocks_view(v@);
    let mut out: Vec<BlockDevice> = Vec::new();
    let mut rest = v;
    let mut i: usize = 0;
    let n = rest.len();
    proof {
        assert(input.take(0) =~= Seq::<BlockDeviceView>::empty());
        assert(blocks_view(out@) =~= Seq::<BlockDeviceView>::empty());
    }
    while rest.len() > 0
        invariant
            i + rest@.len() == n == input.len(),
            blocks_view(rest@) == input.skip(i as int),
            blocks_view(out@) == sort_by_offset(input.take(i as int)),
        decreases rest.len(),
    {
        let ghost r0 = rest@;
        proof {
            assert(blocks_view(r0)[0] == r0[0]@);
            assert(blocks_view(r0)[0] == input[i as int]);
        }
        let x = rest.remove(0);
        proof {
            assert(x@ == input[i as int]);
            assert(blocks_view(rest@) =~= blocks_view(r0).skip(1));
            assert(input.skip(i as int).skip(1) =~= input.skip(i + 1));
            let t = input.take(i + 1);
            assert(t.drop_last() =~= input.take(i as int));
            assert(t.last() == x@);
        }
        let ghost sorted = blocks_view(out@);
        let mut pos: usize = out.len();
        while pos > 0 && out[pos - 1].offset > x.offset
            invariant
                pos <= out@.len(),
                sorted == blocks_view(out@),
                forall|k: int| pos <= k < out@.len() ==> #[trigger] sorted[k].offset > x.offset,
            decreases pos,
        {
            pos = pos - 1;
        }
        proof {
            lemma_insert_by_offset_at(sorted, x@, pos as int);
        }
        out.insert(pos, x);
        proof {
            assert(blocks_view(out@) =~= sorted.insert(pos as int, x@));
        }
        i = i + 1;
    }
    proof {
        assert(input.take(i as int) =~= input);
    }
    out
}

proof fn lemma_insert_by_model_at(s: Seq<DriveView>, x: DriveView, pos: int)
    requires
        0 <= pos <= s.len(),
        forall|k: int| pos <= k < s.len() ==> text_lt(x.model, #[trigger] s[k].model),
        pos > 0 ==> !text_lt(x.model, s[pos - 1].model),
    ensures
        insert_by_model(s, x) == s.insert(pos, x),
    decreases s.len() - pos,
{
    if pos < s.len() {
        let t = s.drop_last();
        assert forall|k: int| pos <= k < t.len() implies text_lt(x.model, #[trigger] t[k].model) by {
            assert(t[k] == s[k]);
        }
        if pos > 0 {
            assert(t[pos - 1] == s[pos - 1]);
        }
        lemma_insert_by_model_at(t, x, pos);
        assert(t.insert(pos, x).push(s.last()) =~= s.insert(pos, x));
    } else {
        assert(s.push(x) =~= s.insert(pos, x));
    }
}

/// Whether `a` comes before `b` in the order of `str`.
pub fn text_less(a: &String, b: &String) -> (r: bool)
    ensures
        r == text_lt(a@, b@),
{
    let x = chars_of(a.as_str());
    let y = chars_of(b.as_str());
    let mut i: usize = 0;
    proof {
        assert(x@.skip(0) =~= x@);
        assert(y@.skip(0) =~= y@);
    }
    while i < x.len() && i < y.len() && x[i] == y[i]
        invariant
            x@ == a@,
            y@ == b@,
            i <= x@.len(),
            i <= y@.len(),
            text_lt(a@, b@) == text_lt(x@.skip(i as int), y@.skip(i as int)),
        decreases x.len() - i,
    {
        proof {
            let s = x@.skip(i as int);
            let t = y@.skip(i as int);
            assert(s.drop_first() =~= x@.skip(i + 1));
            assert(t.drop_first() =~= y@.skip(i + 1));
        }
        i = i + 1;
    }
    if i == x.len() {
        proof {
            assert(x@.skip(i as int).len() == 0);
        }
        i < y.len()
    } else if i == y.len() {
        false
    } else {
        proof {
            assert(x@.skip(i as int)[0] == x@[i as int]);
            assert(y@.skip(i as int)[0] == y@[i as int]);
        }
        x[i] < y[i]
    }
}

/// The drives stably sorted by model.
fn sort_drives(v: Vec<Drive>) -> (r: Vec<Drive>)
    ensures
        drives_view(r@) == sort_by_model(drives_view(v@)),
{
    let ghost input = drives_view(v@);
    let mut out: Vec<Drive> = Vec::new();
    let mut rest = v;
    let mut i: usize = 0;
    let n = rest.len();
    proof {
        assert(input.take(0) =~= Seq::<DriveView>::empty());
        assert(drives_view(out@) =~= Seq::<DriveView>::empty());
    }
    while rest.len() > 0
        invariant
            i + rest@.len() == n == input.len(),
            drives_view(rest@) == input.skip(i as int),
            drives_view(out@) == sort_by_model(input.take(i as int)),
        decreases rest.len(),
    {
        let ghost r0 = rest@;
        proof {
            assert(drives_view(r0)[0] == r0[0]@);
            assert(drives_view(r0)[0] == input[i as int]);
        }
        let x = rest.remove(0);
        proof {
            assert(x@ == input[i as int]);
            assert(drives_view(rest@) =~= drives_view(r0).skip(1));
            assert(input.skip(i as int).skip(1) =~= input.skip(i + 1));
            let t = input.take(i + 1);
            assert(t.drop_last() =~= input.take(i as int));
            assert(t.last() == x@);
        }
        let ghost sorted = drives_view(out@);
        let mut pos: usize = out.len();
        while pos > 0 && text_less(&x.model, &out[pos - 1].model)
            invariant
                pos <= out@.len(),
                sorted == drives_view(out@),
                forall|k: int| pos <= k < out@.len() ==> text_lt(x@.model, #[trigger] sorted[k].model),
            decreases pos,
        {
            pos = pos - 1;
        }
        proof {
            lemma_insert_by_model_at(sorted, x@, pos as int);
        }
        out.insert(pos, x);
        proof {
            assert(drives_view(out@) =~= sorted.insert(pos as int, x@));
        }
        i = i + 1;
    }
    proof {
        assert(input.take(i as int) =~= input);
    }
    out
}

/// Builds the drive list from the objects udisks2 manages: one drive per
/// object with the `Drive` interface, each with its volumes (partitions and
/// whole-disk filesystems, loop devices left out) in order of offset, and the
/// drives in order of model.
pub fn assemble_drives(objs: &Vec<UdisksObject>) -> (r: Vec<Drive>)
    ensures
        drives_view(r@) == assembled_drives(objs@),
{
    let initial = initial_drive_list(objs);
    let attached = attach_objects(initial, objs);
    let ghost av = drives_view(attached@);
    let mut sorted_parts: Vec<Drive> = Vec::new();
    let mut rest = attached;
    let mut i: usize = 0;
    let n = rest.len();
    proof {
        assert(drives_view(sorted_parts@) =~= Seq::<DriveView>::empty());
    }
    while rest.len() > 0
        invariant
            i + rest@.len() == n == av.len(),
            drives_view(rest@) == av.skip(i as int),
            drives_view(sorted_parts@) == av.take(i as int).map_values(
                |d: DriveView| with_sorted_partitions(d),
            ),
        decreases rest.len(),
    {
        let ghost r0 = rest@;
        proof {
            assert(drives_view(r0)[0] == r0[0]@);
            assert(drives_view(r0)[0] == av[i as int]);
        }
        let d = rest.remove(0);
        proof {
            assert(d@ == av[i as int]);
            assert(drives_view(rest@) =~= drives_view(r0).skip(1));
            assert(av.skip(i as int).skip(1) =~= av.skip(i + 1));
        }
        let ghost dv = d@;
        let Drive { id, model, vendor, size, removable, partitions, block_device } = d;
        assert(blocks_view(partitions@) == dv.partitions);
        let partitions = sort_blocks(partitions);
        let ghost before = drives_view(sorted_parts@);
        sorted_parts.push(Drive { id, model, vendor, size, removable, partitions, block_device });
        proof {
            assert(sorted_parts@.last()@ =~= with_sorted_partitions(dv));
            assert(drives_view(sorted_parts@) =~= before.push(with_sorted_partitions(dv)));
            assert(av.take(i + 1) =~= av.take(i as int).push(dv));
            assert(drives_view(sorted_parts@) =~= av.take(i + 1).map_values(
                |d: DriveView| with_sorted_partitions(d),
            ));
        }
        i = i + 1;
    }
    proof {
        assert(av.take(i as int) =~= av);
    }
    sort_drives(sorted_parts)
}

} // verus!

verus! {

// ---------------------------------------------------------------------------
// Laws of the sorts
// ---------------------------------------------------------------------------

/// The volumes of `s` whose offset is `k`, in order.
pub open spec fn with_offset(s: Seq<BlockDeviceView>, k: u64) -> Seq<BlockDeviceView>
    decreases s.len(),
{
    if s.len() == 0 {
        seq![]
    } else if s.last().offset == k {
        with_offset(s.drop_last(), k).push(s.last())
    } else {
        with_offset(s.drop_last(), k)
    }
}

/// Whether the volumes are in non-decreasing order of offset.
pub open spec fn offsets_sorted(s: Seq<BlockDeviceView>) -> bool {
    forall|i: int, j: int| 0 <= i < j < s.len() ==> s[i].offset <= s[j].offset
}

proof fn lemma_insert_by_offset_multiset(s: Seq<BlockDeviceView>, x: BlockDeviceView)
    ensures
        insert_by_offset(s, x).to_multiset() == s.to_multiset().insert(x),
    decreases s.len(),
{
    broadcast use vstd::seq_lib::group_to_multiset_ensures;

    if s.len() > 0 && s.last().offset > x.offset {
        lemma_insert_by_offset_multiset(s.drop_last(), x);
        assert(s.drop_last().push(s.last()) =~= s);
        assert(s.to_multiset() =~= s.drop_last().to_multiset().insert(s.last()));
        assert(insert_by_offset(s, x).to_multiset() =~= s.to_multiset().insert(x));
    }
}

proof fn lemma_insert_by_offset_with_offset(s: Seq<BlockDeviceView>, x: BlockDeviceView, k: u64)
    ensures
        with_offset(insert_by_offset(s, x), k) == if x.offset == k {
            with_offset(s, k).push(x)
        } else {
            with_offset(s, k)
        },
    decreases s.len(),
{
    if s.len() > 0 && s.last().offset > x.offset {
        lemma_insert_by_offset_with_offset(s.drop_last(), x, k);
        let t = insert_by_offset(s.drop_last(), x).push(s.last());
        assert(t.drop_last() =~= insert_by_offset(s.drop_last(), x));
    } else {
        assert(s.push(x).drop_last() =~= s);
    }
}

proof fn lemma_insert_by_offset_sorted(s: Seq<BlockDeviceView>, x: BlockDeviceView)
    requires
        offsets_sorted(s),
    ensures
        offsets_sorted(insert_by_offset(s, x)),
        forall|y: BlockDeviceView| #[trigger]
            insert_by_offset(s, x).contains(y) <==> (s.contains(y) || y == x),
    decreases s.len(),
{
    broadcast use vstd::seq_lib::group_to_multiset_ensures;
    broadcast use vstd::multiset::group_multiset_axioms;

    lemma_insert_by_offset_multiset(s, x);
    assert forall|y: BlockDeviceView| #[trigger]
        insert_by_offset(s, x).contains(y) <==> (s.contains(y) || y == x) by {
        assert(insert_by_offset(s, x).to_multiset().count(y) == s.to_multiset().insert(x).count(y));
    }
    if s.len() > 0 && s.last().offset > x.offset {
        let d = s.drop_last();
        lemma_insert_by_offset_sorted(d, x);
        let t = insert_by_offset(d, x);
        assert forall|i: int| 0 <= i < t.len() implies #[trigger] t[i].offset <= s.last().offset by {
            assert(t.contains(t[i]));
            if t[i] != x {
                let j = choose|j: int| 0 <= j < d.len() && d[j] == t[i];
                assert(s[j] == d[j]);
            }
        }
        assert(offsets_sorted(t.push(s.last())));
    } else {
        assert forall|i: int, j: int| 0 <= i < j < s.push(x).len() implies s.push(x)[i].offset
            <= s.push(x)[j].offset by {
            if j == s.len() {
                assert(s[i].offset <= s.last().offset);
            }
        }
    }
}

/// Sorting by offset only reorders: the same volumes, as many times each.
pub proof fn lemma_sort_by_offset_permutes(s: Seq<BlockDeviceView>)
    ensures
        sort_by_offset(s).to_multiset() == s.to_multiset(),
    decreases s.len(),
{
    broadcast use vstd::seq_lib::group_to_multiset_ensures;

    if s.len() > 0 {
        lemma_sort_by_offset_permutes(s.drop_last());
        lemma_insert_by_offset_multiset(sort_by_offset(s.drop_last()), s.last());
        assert(s.drop_last().push(s.last()) =~= s);
    }
}

/// Sorting by offset puts the volumes in non-decreasing order of offset.
pub proof fn lemma_sort_by_offset_sorted(s: Seq<BlockDeviceView>)
    ensures
        offsets_sorted(sort_by_offset(s)),
    decreases s.len(),
{
    if s.len() > 0 {
        lemma_sort_by_offset_sorted(s.drop_last());
        lemma_insert_by_offset_sorted(sort_by_offset(s.drop_last()), s.last());
    }
}

/// Sorting by offset is stable: volumes with the same offset keep their order.
pub proof fn lemma_sort_by_offset_stable(s: Seq<BlockDeviceView>, k: u64)
    ensures
        with_offset(sort_by_offset(s), k) == with_offset(s, k),
    decreases s.len(),
{
    if s.len() > 0 {
        lemma_sort_by_offset_stable(s.drop_last(), k);
        lemma_insert_by_offset_with_offset(sort_by_offset(s.drop_last()), s.last(), k);
    }
}

} // verus!

verus! {

/// The order of texts is irreflexive.
pub proof fn lemma_text_lt_irreflexive(a: Seq<char>)
    ensures
        !text_lt(a, a),
    decreases a.len(),
{
    if a.len() > 0 {
        lemma_text_lt_irreflexive(a.drop_first());
    }
}

/// The order of texts is transitive.
pub proof fn lemma_text_lt_transitive(a: Seq<char>, b: Seq<char>, c: Seq<char>)
    requires
        text_lt(a, b),
        text_lt(b, c),
    ensures
        text_lt(a, c),
    decreases a.len(),
{
    if a.len() > 0 && b.len() > 0 && c.len() > 0 && a[0] == b[0] && b[0] == c[0] {
        lemma_text_lt_transitive(a.drop_first(), b.drop_first(), c.drop_first());
    }
}

/// Two texts are equal or one comes before the other.
pub proof fn lemma_text_lt_total(a: Seq<char>, b: Seq<char>)
    ensures
        text_lt(a, b) || text_lt(b, a) || a == b,
    decreases a.len(),
{
    if a.len() > 0 && b.len() > 0 && a[0] == b[0] {
        lemma_text_lt_total(a.drop_first(), b.drop_first());
        if a.drop_first() == b.drop_first() {
            assert forall|i: int| 0 <= i < a.len() implies a[i] == b[i] by {
                if i > 0 {
                    assert(a[i] == a.drop_first()[i - 1]);
                    assert(b[i] == b.drop_first()[i - 1]);
                }
            }
            assert(a =~= b);
        }
    } else if a.len() == 0 && b.len() == 0 {
        assert(a =~= b);
    }
}

/// The drives of `s` whose model is `m`, in order.
pub open spec fn with_model(s: Seq<DriveView>, m: Seq<char>) -> Seq<DriveView>
    decreases s.len(),
{
    if s.len() == 0 {
        seq![]
    } else if s.last().model == m {
        with_model(s.drop_last(), m).push(s.last())
    } else {
        with_model(s.drop_last(), m)
    }
}

/// Whether the drives are in non-decreasing order of model.
pub open spec fn models_sorted(s: Seq<DriveView>) -> bool {
    forall|i: int, j: int| 0 <= i < j < s.len() ==> !text_lt(s[j].model, s[i].model)
}

proof fn lemma_insert_by_model_multiset(s: Seq<DriveView>, x: DriveView)
    ensures
        insert_by_model(s, x).to_multiset() == s.to_multiset().insert(x),
    decreases s.len(),
{
    broadcast use vstd::seq_lib::group_to_multiset_ensures;

    if s.len() > 0 && text_lt(x.model, s.last().model) {
        lemma_insert_by_model_multiset(s.drop_last(), x);
        assert(s.drop_last().push(s.last()) =~= s);
        assert(s.to_multiset() =~= s.drop_last().to_multiset().insert(s.last()));
        assert(insert_by_model(s, x).to_multiset() =~= s.to_multiset().insert(x));
    }
}

proof fn lemma_insert_by_model_with_model(s: Seq<DriveView>, x: DriveView, m: Seq<char>)
    ensures
        with_model(insert_by_model(s, x), m) == if x.model == m {
            with_model(s, m).push(x)
        } else {
            with_model(s, m)
        },
    decreases s.len(),
{
    if s.len() > 0 && text_lt(x.model, s.last().model) {
        lemma_insert_by_model_with_model(s.drop_last(), x, m);
        let t = insert_by_model(s.drop_last(), x).push(s.last());
        assert(t.drop_last() =~= insert_by_model(s.drop_last(), x));
        lemma_text_lt_irreflexive(x.model);
    } else {
        assert(s.push(x).drop_last() =~= s);
    }
}

proof fn lemma_insert_by_model_sorted(s: Seq<DriveView>, x: DriveView)
    requires
        models_sorted(s),
    ensures
        models_sorted(insert_by_model(s, x)),
        forall|y: DriveView| #[trigger]
            insert_by_model(s, x).contains(y) <==> (s.contains(y) || y == x),
    decreases s.len(),
{
    broadcast use vstd::seq_lib::group_to_multiset_ensures;
    broadcast use vstd::multiset::group_multiset_axioms;

    lemma_insert_by_model_multiset(s, x);
    assert forall|y: DriveView| #[trigger]
        insert_by_model(s, x).contains(y) <==> (s.contains(y) || y == x) by {
        assert(insert_by_model(s, x).to_multiset().count(y) == s.to_multiset().insert(x).count(y));
    }
    if s.len() > 0 && text_lt(x.model, s.last().model) {
        let d = s.drop_last();
        lemma_insert_by_model_sorted(d, x);
        let t = insert_by_model(d, x);
        assert forall|i: int| 0 <= i < t.len() implies !text_lt(
            s.last().model,
            #[trigger] t[i].model,
        ) by {
            assert(t.contains(t[i]));
            if t[i] != x {
                let j = choose|j: int| 0 <= j < d.len() && d[j] == t[i];
                assert(s[j] == d[j]);
            } else {
                if text_lt(s.last().model, x.model) {
                    lemma_text_lt_transitive(x.model, s.last().model, x.model);
                    lemma_text_lt_irreflexive(x.model);
                }
            }
        }
        assert(models_sorted(t.push(s.last())));
    } else {
        assert forall|i: int, j: int| 0 <= i < j < s.push(x).len() implies !text_lt(
            s.push(x)[j].model,
            s.push(x)[i].model,
        ) by {
            if j == s.len() {
                if text_lt(x.model, s[i].model) {
                    if i < s.len() - 1 {
                        assert(!text_lt(s.last().model, s[i].model));
                        lemma_text_lt_total(s.last().model, s[i].model);
                        if text_lt(s[i].model, s.last().model) {
                            lemma_text_lt_transitive(x.model, s[i].model, s.last().model);
                        }
                    }
                }
            }
        }
    }
}

/// Sorting by model only reorders: the same drives, as many times each.
pub proof fn lemma_sort_by_model_permutes(s: Seq<DriveView>)
    ensures
        sort_by_model(s).to_multiset() == s.to_multiset(),
    decreases s.len(),
{
    broadcast use vstd::seq_lib::group_to_multiset_ensures;

    if s.len() > 0 {
        lemma_sort_by_model_permutes(s.drop_last());
        lemma_insert_by_model_multiset(sort_by_model(s.drop_last()), s.last());
        assert(s.drop_last().push(s.last()) =~= s);
    }
}

/// Sorting by model puts the drives in non-decreasing order of model.
pub proof fn lemma_sort_by_model_sorted(s: Seq<DriveView>)
    ensures
        models_sorted(sort_by_model(s)),
    decreases s.len(),
{
    if s.len() > 0 {
        lemma_sort_by_model_sorted(s.drop_last());
        lemma_insert_by_model_sorted(sort_by_model(s.drop_last()), s.last());
    }
}

/// Sorting by model is stable: drives with the same model keep their order.
pub proof fn lemma_sort_by_model_stable(s: Seq<DriveView>, m: Seq<char>)
    ensures
        with_model(sort_by_model(s), m) == with_model(s, m),
    decreases s.len(),
{
    if s.len() > 0 {
        lemma_sort_by_model_stable(s.drop_last(), m);
        lemma_insert_by_model_with_model(sort_by_model(s.drop_last()), s.last(), m);
    }
}

} // verus!

verus! {

/// Whether a volume's state fits what is known of it: mounted exactly when it
/// has mount points, and unmounted when it has none but a known filesystem
/// type (so unformatted only without a type).
pub open spec fn state_fits(p: BlockDeviceView) -> bool {
    &&& (p.state == PartitionState::Mounted <==> p.mount_points.len() > 0)
    &&& (p.mount_points.len() == 0 && p.fs_type.len() > 0 ==> p.state
        == PartitionState::Unmounted)
    &&& (p.state == PartitionState::Unformatted ==> p.fs_type.len() == 0)
}

/// Whether every volume of a drive belongs to it, has a device path that is
/// not a loop device, and has a state that fits it.
pub open spec fn volume_ok(d: DriveView, p: BlockDeviceView) -> bool {
    p.drive_id == d.id && p.device.len() > 0 && !is_loop_device(p.device) && state_fits(p)
}

/// Whether every volume of every drive is [`volume_ok`].
pub open spec fn volumes_belong(ds: Seq<DriveView>) -> bool {
    forall|i: int, j: int|
        0 <= i < ds.len() && 0 <= j < ds[i].partitions.len() ==> volume_ok(
            ds[i],
            #[trigger] ds[i].partitions[j],
        )
}

proof fn lemma_last_drive_index(ds: Seq<DriveView>, id: Seq<char>)
    ensures
        last_drive_index(ds, id) matches Some(k) ==> 0 <= k < ds.len() && ds[k].id == id,
    decreases ds.len(),
{
    if ds.len() > 0 && ds.last().id != id {
        lemma_last_drive_index(ds.drop_last(), id);
    }
}

proof fn lemma_initial_drives_empty(objs: Seq<UdisksObject>)
    ensures
        forall|i: int| 0 <= i < initial_drives(objs).len() ==> #[trigger] initial_drives(
            objs,
        )[i].partitions.len() == 0,
    decreases objs.len(),
{
    if objs.len() > 0 {
        let r = initial_drives(objs.drop_last());
        lemma_initial_drives_empty(objs.drop_last());
        assert forall|i: int| 0 <= i < initial_drives(objs).len() implies #[trigger] initial_drives(
            objs,
        )[i].partitions.len() == 0 by {
            if i < r.len() {
                assert(initial_drives(objs)[i] == r[i]);
            }
        }
    }
}

proof fn lemma_attach_all_belongs(ds: Seq<DriveView>, objs: Seq<UdisksObject>)
    requires
        volumes_belong(ds),
    ensures
        volumes_belong(attach_all(ds, objs)),
    decreases objs.len(),
{
    if objs.len() > 0 {
        lemma_attach_all_belongs(ds, objs.drop_last());
        let before = attach_all(ds, objs.drop_last());
        let o = objs.last();
        if usable_block(o) {
            lemma_last_drive_index(before, o.block->0.drive@);
            let after = attach(before, o);
            assert forall|i: int, j: int|
                0 <= i < after.len() && 0 <= j < after[i].partitions.len() implies volume_ok(
                after[i],
                #[trigger] after[i].partitions[j],
            ) by {
                if let Some(k) = last_drive_index(before, o.block->0.drive@) {
                    if i == k && j == before[k].partitions.len() && listed_block(o) {
                        assert(after[i].partitions[j] == block_view_of(o));
                    } else {
                        assert(after[i].partitions[j] == before[i].partitions[j]);
                    }
                }
            }
        }
    }
}

/// Every volume of the assembled drives belongs to its drive (its drive id is
/// the drive's), has a device path that is not a loop device, and is mounted
/// exactly when it has mount points, unmounted when it has none but a known
/// filesystem type.
pub proof fn lemma_assembled_volumes_belong(objs: Seq<UdisksObject>)
    ensures
        volumes_belong(assembled_drives(objs)),
{
    broadcast use vstd::seq_lib::group_to_multiset_ensures;
    broadcast use vstd::multiset::group_multiset_axioms;

    lemma_initial_drives_empty(objs);
    lemma_attach_all_belongs(initial_drives(objs), objs);
    let a = attach_all(initial_drives(objs), objs);
    let m = a.map_values(|d: DriveView| with_sorted_partitions(d));
    assert forall|i: int, j: int|
        0 <= i < m.len() && 0 <= j < m[i].partitions.len() implies volume_ok(
        m[i],
        #[trigger] m[i].partitions[j],
    ) by {
        let ps = a[i].partitions;
        lemma_sort_by_offset_permutes(ps);
        let p = m[i].partitions[j];
        assert(sort_by_offset(ps).contains(p));
        assert(sort_by_offset(ps).to_multiset().count(p) > 0);
        assert(ps.contains(p));
        let k = choose|k: int| 0 <= k < ps.len() && ps[k] == p;
        assert(volume_ok(a[i], a[i].partitions[k]));
    }
    lemma_sort_by_model_permutes(m);
    let r = sort_by_model(m);
    assert forall|i: int, j: int|
        0 <= i < r.len() && 0 <= j < r[i].partitions.len() implies volume_ok(
        r[i],
        #[trigger] r[i].partitions[j],
    ) by {
        assert(r.contains(r[i]));
        assert(r.to_multiset().count(r[i]) > 0);
        assert(m.contains(r[i]));
        let k = choose|k: int| 0 <= k < m.len() && m[k] == r[i];
        assert(volume_ok(m[k], m[k].partitions[j]));
    }
}

} // verus!

verus! {

/// Whether an object is a block device whose `Device` property is present and
/// decodes to `device`.
pub open spec fn names_device(o: UdisksObject, device: Seq<char>) -> bool {
    o.block matches Some(b) && b.device matches Some(bytes) && ay_text(bytes@) == device
}

/// Finds the object of a block device by its device path (e.g. `/dev/sda1`):
/// its object path and its filesystem UUID (`IdUUID`, possibly empty).
pub fn locate_device(objs: &Vec<UdisksObject>, device: &str) -> (r: Option<(String, String)>)
    ensures
        match r {
            Some((path, uuid)) => exists|i: int|
                0 <= i < objs@.len() && names_device(#[trigger] objs@[i], device@) && path@
                    == objs@[i].path@ && uuid@ == objs@[i].block->0.id_uuid@ && forall|k: int|
                    0 <= k < i ==> !names_device(#[trigger] objs@[k], device@),
            None => forall|i: int| 0 <= i < objs@.len() ==> !names_device(#[trigger] objs@[i], device@),
        },
{
    let mut i: usize = 0;
    while i < objs.len()
        invariant
            i <= objs@.len(),
            forall|k: int| 0 <= k < i ==> !names_device(#[trigger] objs@[k], device@),
        decreases objs.len() - i,
    {
        let o = &objs[i];
        if let Some(b) = &o.block {
            if let Some(bytes) = &b.device {
                let dev = ay_to_string(bytes);
                if crate::text::equals(dev.as_str(), device) {
                    assert(names_device(objs@[i as int], device@));
                    return Some((o.path.clone(), b.id_uuid.clone()));
                }
            }
        }
        i = i + 1;
    }
    None
}

} // verus!

verus! {

/// The assembled drives are in order of model, and each drive's volumes in
/// order of offset.
pub proof fn lemma_assembled_order(objs: Seq<UdisksObject>)
    ensures
        models_sorted(assembled_drives(objs)),
        forall|i: int|
            0 <= i < assembled_drives(objs).len() ==> offsets_sorted(
                #[trigger] assembled_drives(objs)[i].partitions,
            ),
{
    broadcast use vstd::seq_lib::group_to_multiset_ensures;
    broadcast use vstd::multiset::group_multiset_axioms;

    let a = attach_all(initial_drives(objs), objs);
    let m = a.map_values(|d: DriveView| with_sorted_partitions(d));
    lemma_sort_by_model_sorted(m);
    lemma_sort_by_model_permutes(m);
    let r = sort_by_model(m);
    assert forall|i: int| 0 <= i < r.len() implies offsets_sorted(#[trigger] r[i].partitions) by {
        assert(r.contains(r[i]));
        assert(r.to_multiset().count(r[i]) > 0);
        assert(m.contains(r[i]));
        let k = choose|k: int| 0 <= k < m.len() && m[k] == r[i];
        lemma_sort_by_offset_sorted(a[k].partitions);
    }
}

} // verus!

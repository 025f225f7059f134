//! Drives, block devices and `/etc/fstab` entries.

use vstd::prelude::*;

use crate::sizes::{byte_size_string, byte_size_text};
use crate::text::{
    trim, trim_seq,
    chars_equal, chars_of, eq_ignore_ascii_case, eq_ignore_ascii_case_joined, lemma_words_are_words,
    char_lists, string_from_chars, words, words_of,
};

verus! {

/// Coarse lifecycle state of a block device, derived from udisks2 data at scan time.
#[derive(Debug, Clone, Copy, PartialEq, Eq, Structural)]
pub enum PartitionState {
    /// Filesystem is mounted at one or more paths right now.
    Mounted,
    /// Filesystem is recognised but not currently mounted.
    Unmounted,
    /// No recognised filesystem — raw or unformatted block device.
    Unformatted,
}

/// A matching `/etc/fstab` entry, looked up on demand when a partition is selected.
#[derive(Debug)]
pub struct FstabEntry {
    /// The spec field as written in fstab (e.g. `UUID=…`, `LABEL=…`, `/dev/sda1`).
    pub spec: String,
    /// Configured mount point.
    pub mount_point: String,
    /// Configured mount options string.
    pub options: String,
}

#[derive(Debug)]
pub struct BlockDevice {
    pub device: String,
    /// Filesystem UUID from udisks2 (`IdUUID`), used for `UUID=` fstab matching.
    pub uuid: String,
    pub label: String,
    pub fs_type: String,
    pub size: u64,
    pub offset: u64,
    pub mount_points: Vec<String>,
    pub drive_id: String,
    /// Coarse lifecycle state derived at scan time.
    pub state: PartitionState,
    /// GPT partition UUID (`Partition.UUID`), used for `PARTUUID=` fstab matching.
    pub part_uuid: String,
    /// GPT partition label (`Partition.Name`), used for `PARTLABEL=` fstab matching.
    pub part_label: String,
}

#[derive(Debug, Clone)]
pub struct Drive {
    pub id: String,
    pub model: String,
    pub vendor: String,
    pub size: u64,
    pub removable: bool,
    pub partitions: Vec<BlockDevice>,
    /// udisks2 object path of the whole-disk block device (e.g. `.../block_devices/sda`).
    /// Used for `PartitionTable.CreatePartitionAndFormat`. Empty if unavailable.
    pub block_device: String,
}

/// The text of each string in a list.
pub open spec fn strings_view(v: Seq<String>) -> Seq<Seq<char>> {
    v.map_values(|s: String| s@)
}

/// Mathematical model of an [`FstabEntry`].
#[verifier::ext_equal]
pub struct FstabEntryView {
    pub spec: Seq<char>,
    pub mount_point: Seq<char>,
    pub options: Seq<char>,
}

impl View for FstabEntry {
    type V = FstabEntryView;

    open spec fn view(&self) -> FstabEntryView {
        FstabEntryView {
            spec: self.spec@,
            mount_point: self.mount_point@,
            options: self.options@,
        }
    }
}

/// Model of an optional fstab entry.
pub open spec fn fstab_opt_view(e: Option<FstabEntry>) -> Option<FstabEntryView> {
    match e {
        Some(x) => Some(x@),
        None => None,
    }
}

/// Mathematical model of a [`BlockDevice`].
#[verifier::ext_equal]
pub struct BlockDeviceView {
    pub device: Seq<char>,
    pub uuid: Seq<char>,
    pub label: Seq<char>,
    pub fs_type: Seq<char>,
    pub size: u64,
    pub offset: u64,
    pub mount_points: Seq<Seq<char>>,
    pub drive_id: Seq<char>,
    pub state: PartitionState,
    pub part_uuid: Seq<char>,
    pub part_label: Seq<char>,
}

impl View for BlockDevice {
    type V = BlockDeviceView;

    open spec fn view(&self) -> BlockDeviceView {
        BlockDeviceView {
            device: self.device@,
            uuid: self.uuid@,
            label: self.label@,
            fs_type: self.fs_type@,
            size: self.size,
            offset: self.offset,
            mount_points: strings_view(self.mount_points@),
            drive_id: self.drive_id@,
            state: self.state,
            part_uuid: self.part_uuid@,
            part_label: self.part_label@,
        }
    }
}

/// Model of a list of block devices.
pub open spec fn blocks_view(v: Seq<BlockDevice>) -> Seq<BlockDeviceView> {
    v.map_values(|b: BlockDevice| b@)
}

/// Mathematical model of a [`Drive`].
#[verifier::ext_equal]
pub struct DriveView {
    pub id: Seq<char>,
    pub model: Seq<char>,
    pub vendor: Seq<char>,
    pub size: u64,
    pub removable: bool,
    pub partitions: Seq<BlockDeviceView>,
    pub block_device: Seq<char>,
}

impl View for Drive {
    type V = DriveView;

    open spec fn view(&self) -> DriveView {
        DriveView {
            id: self.id@,
            model: self.model@,
            vendor: self.vendor@,
            size: self.size,
            removable: self.removable,
            partitions: blocks_view(self.partitions@),
            block_device: self.block_device@,
        }
    }
}

/// Model of a list of drives.
pub open spec fn drives_view(v: Seq<Drive>) -> Seq<DriveView> {
    v.map_values(|d: Drive| d@)
}

/// The identifiers by which a partition is looked up in `/etc/fstab`.
#[derive(Debug)]
pub struct FstabQuery {
    pub uuid: String,
    pub label: String,
    pub device: String,
    pub part_uuid: String,
    pub part_label: String,
}

#[verifier::ext_equal]
pub struct FstabQueryView {
    pub uuid: Seq<char>,
    pub label: Seq<char>,
    pub device: Seq<char>,
    pub part_uuid: Seq<char>,
    pub part_label: Seq<char>,
}

impl View for FstabQuery {
    type V = FstabQueryView;

    open spec fn view(&self) -> FstabQueryView {
        FstabQueryView {
            uuid: self.uuid@,
            label: self.label@,
            device: self.device@,
            part_uuid: self.part_uuid@,
            part_label: self.part_label@,
        }
    }
}

/// A copy of a list of strings with the same contents.
pub fn clone_strings(v: &Vec<String>) -> (r: Vec<String>)
    ensures
        r@ == v@,
{
    let mut r: Vec<String> = Vec::new();
    let mut i: usize = 0;
    while i < v.len()
        invariant
            i <= v.len(),
            r@ == v@.take(i as int),
        decreases v.len() - i,
    {
        r.push(v[i].clone());
        i = i + 1;
        assert(r@ =~= v@.take(i as int));
    }
    assert(r@ =~= v@);
    r
}

impl Clone for FstabEntry {
    fn clone(&self) -> (r: Self)
        ensures
            r == *self,
    {
        FstabEntry {
            spec: self.spec.clone(),
            mount_point: self.mount_point.clone(),
            options: self.options.clone(),
        }
    }
}

impl Clone for BlockDevice {
    fn clone(&self) -> (r: Self)
        ensures
            r@ == self@,
    {
        BlockDevice {
            device: self.device.clone(),
            uuid: self.uuid.clone(),
            label: self.label.clone(),
            fs_type: self.fs_type.clone(),
            size: self.size,
            offset: self.offset,
            mount_points: clone_strings(&self.mount_points),
            drive_id: self.drive_id.clone(),
            state: self.state,
            part_uuid: self.part_uuid.clone(),
            part_label: self.part_label.clone(),
        }
    }
}

} // verus!

verus! {

// ---------------------------------------------------------------------------
// fstab lookup
// ---------------------------------------------------------------------------

/// Whether an fstab spec field names the device: `UUID=`, `LABEL=`,
/// `PARTUUID=` or `PARTLABEL=` followed by the device's (non-empty) value,
/// ignoring ASCII case, or exactly the device path.
pub open spec fn fstab_spec_matches(field: Seq<char>, q: FstabQueryView) -> bool {
    ||| (q.uuid.len() > 0 && eq_ignore_ascii_case(field, "UUID="@ + q.uuid))
    ||| (q.label.len() > 0 && eq_ignore_ascii_case(field, "LABEL="@ + q.label))
    ||| (q.part_uuid.len() > 0 && eq_ignore_ascii_case(field, "PARTUUID="@ + q.part_uuid))
    ||| (q.part_label.len() > 0 && eq_ignore_ascii_case(field, "PARTLABEL="@ + q.part_label))
    ||| field == q.device
}

/// The entry that one fstab line gives for the device: a line with at least
/// four fields, not a comment (its first field does not start with `#`),
/// whose first field names the device.
pub open spec fn fstab_line_entry(line: Seq<char>, q: FstabQueryView) -> Option<FstabEntryView> {
    let f = words(line);
    if f.len() >= 4 && f[0][0] != '#' && fstab_spec_matches(f[0], q) {
        Some(FstabEntryView { spec: f[0], mount_point: f[1], options: f[3] })
    } else {
        None
    }
}

/// Position of the first newline of `s` at or after `i`, or the length of `s`.
pub open spec fn next_newline(s: Seq<char>, i: int) -> int
    decreases s.len() - i,
{
    if i >= s.len() {
        s.len() as int
    } else if s[i] == '\n' {
        i
    } else {
        next_newline(s, i + 1)
    }
}

/// Where the next newline stands: at or after `i`, with no newline in between.
pub proof fn lemma_next_newline(s: Seq<char>, i: int)
    ensures
        next_newline(s, i) < s.len() ==> i <= next_newline(s, i) && s[next_newline(s, i)]
            == '\n',
        i <= s.len() ==> i <= next_newline(s, i) <= s.len(),
        forall|k: int| i <= k < next_newline(s, i) ==> s[k] != '\n',
    decreases s.len() - i,
{
    if i < s.len() && s[i] != '\n' {
        lemma_next_newline(s, i + 1);
    }
}

/// The first entry for the device among the lines of `s` from position `start` on.
pub open spec fn fstab_lookup_from(s: Seq<char>, start: int, q: FstabQueryView) -> Option<
    FstabEntryView,
>
    decreases s.len() - start,
{
    let e = next_newline(s, start);
    match fstab_line_entry(s.subrange(start, e), q) {
        Some(x) => Some(x),
        None => if e < s.len() {
            proof {
                lemma_next_newline(s, start);
            }
            fstab_lookup_from(s, e + 1, q)
        } else {
            None
        },
    }
}

/// The entry of the first line of an fstab text that names the device.
pub open spec fn fstab_lookup(content: Seq<char>, q: FstabQueryView) -> Option<FstabEntryView> {
    fstab_lookup_from(content, 0, q)
}

/// Returns the first entry of the fstab text `content` that matches this
/// device by UUID, LABEL, PARTUUID, PARTLABEL, or device path, skipping blank
/// lines, comments and lines of fewer than four fields; `None` if no line matches.
pub fn parse_fstab(
    content: &str,
    uuid: &str,
    label: &str,
    device: &str,
    part_uuid: &str,
    part_label: &str,
) -> (r: Option<FstabEntry>)
    ensures
        fstab_opt_view(r) == fstab_lookup(
            content@,
            FstabQueryView {
                uuid: uuid@,
                label: label@,
                device: device@,
                part_uuid: part_uuid@,
                part_label: part_label@,
            },
        ),
{
    let ghost q = FstabQueryView {
        uuid: uuid@,
        label: label@,
        device: device@,
        part_uuid: part_uuid@,
        part_label: part_label@,
    };
    let v = chars_of(content);
    let u = chars_of(uuid);
    let l = chars_of(label);
    let d = chars_of(device);
    let pu = chars_of(part_uuid);
    let pl = chars_of(part_label);
    let uuid_key = chars_of("UUID=");
    let label_key = chars_of("LABEL=");
    let part_uuid_key = chars_of("PARTUUID=");
    let part_label_key = chars_of("PARTLABEL=");
    let n = v.len();
    let mut start: usize = 0;
    loop
        invariant
            q == (FstabQueryView {
                uuid: uuid@,
                label: label@,
                device: device@,
                part_uuid: part_uuid@,
                part_label: part_label@,
            }),
            v@ == content@,
            u@ == q.uuid,
            l@ == q.label,
            d@ == q.device,
            pu@ == q.part_uuid,
            pl@ == q.part_label,
            uuid_key@ == "UUID="@,
            label_key@ == "LABEL="@,
            part_uuid_key@ == "PARTUUID="@,
            part_label_key@ == "PARTLABEL="@,
            n == v@.len(),
            start <= n,
            fstab_lookup(content@, q) == fstab_lookup_from(content@, start as int, q),
        decreases n - start,
    {
        let mut e: usize = start;
        while e < n && v[e] != '\n'
            invariant
                start <= e <= n == v@.len(),
                forall|k: int| start <= k < e ==> v@[k] != '\n',
            decreases n - e,
        {
            e = e + 1;
        }
        proof {
            lemma_next_newline(v@, start as int);
            assert(e == next_newline(v@, start as int)) by {
                let m = next_newline(v@, start as int);
                if m < e {
                    assert(v@[m] == '\n');
                }
                if e < m {
                    assert(v@[e as int] == '\n');
                }
            }
        }
        let w = words_of(&v, start, e);
        let ghost line = v@.subrange(start as int, e as int);
        let ghost f = words(line);
        proof {
            lemma_words_are_words(line);
            assert(char_lists(w@) == f);
            assert(fstab_lookup_from(content@, start as int, q) == match fstab_line_entry(line, q) {
                Some(x) => Some(x),
                None => if e < n {
                    fstab_lookup_from(content@, e + 1, q)
                } else {
                    None
                },
            });
        }
        if w.len() >= 4 {
            proof {
                assert(w@[0]@ == f[0]);
                assert(w@[1]@ == f[1]);
                assert(w@[3]@ == f[3]);
                assert(f[0].len() > 0);
            }
            let first = &w[0];
            if first[0] != '#' {
                let matched = (u.len() > 0 && eq_ignore_ascii_case_joined(first, &uuid_key, &u)) || (
                l.len() > 0 && eq_ignore_ascii_case_joined(first, &label_key, &l)) || (pu.len() > 0
                    && eq_ignore_ascii_case_joined(first, &part_uuid_key, &pu)) || (pl.len() > 0
                    && eq_ignore_ascii_case_joined(first, &part_label_key, &pl)) || chars_equal(
                    first,
                    &d,
                );
                assert(matched == fstab_spec_matches(f[0], q));
                if matched {
                    let entry = FstabEntry {
                        spec: string_from_chars(&w[0]),
                        mount_point: string_from_chars(&w[1]),
                        options: string_from_chars(&w[3]),
                    };
                    assert(fstab_line_entry(line, q) == Some(entry@));
                    assert(fstab_lookup_from(content@, start as int, q) == Some(entry@));
                    return Some(entry);
                }
            }
        }
        assert(fstab_line_entry(line, q) is None);
        if e >= n {
            return None;
        }
        start = e + 1;
    }
}

} // verus!

verus! {

/// The name under which a drive is shown: vendor and model (each trimmed),
/// or the model alone, or "Unknown Drive"; followed by its size in brackets.
pub open spec fn drive_display_name(d: DriveView) -> Seq<char> {
    let name = if d.vendor.len() > 0 && d.model.len() > 0 {
        trim_seq(d.vendor) + " "@ + trim_seq(d.model)
    } else if d.model.len() > 0 {
        trim_seq(d.model)
    } else {
        "Unknown Drive"@
    };
    name + " ("@ + byte_size_text(d.size) + ")"@
}

impl Drive {
    pub fn display_name(&self) -> (s: String)
        ensures
            s@ == drive_display_name(self@),
    {
        let mut name = if !self.vendor.as_str().is_empty() && !self.model.as_str().is_empty() {
            let mut n = trim(self.vendor.as_str());
            n.append(" ");
            let m = trim(self.model.as_str());
            n.append(m.as_str());
            n
        } else if !self.model.as_str().is_empty() {
            trim(self.model.as_str())
        } else {
            "Unknown Drive".to_owned()
        };
        name.append(" (");
        let size = byte_size_string(self.size);
        name.append(size.as_str());
        name.append(")");
        name
    }
}

impl BlockDevice {
    pub fn display_size(&self) -> (s: String)
        ensures
            s@ == byte_size_text(self.size),
    {
        byte_size_string(self.size)
    }
}

} // verus!

verus! {

/// The entry found for a device names it in its spec field, and that field is
/// not a comment.
pub proof fn lemma_fstab_entry_names_device(content: Seq<char>, q: FstabQueryView, start: int)
    ensures
        (fstab_lookup_from(content, start, q) matches Some(e) ==> fstab_spec_matches(e.spec, q)
            && e.spec.len() > 0 && e.spec[0] != '#'),
    decreases content.len() - start,
{
    let e = next_newline(content, start);
    lemma_next_newline(content, start);
    lemma_words_are_words(content.subrange(start, e));
    if fstab_line_entry(content.subrange(start, e), q) is None && e < content.len() {
        lemma_fstab_entry_names_device(content, q, e + 1);
    }
}

/// Newlines found after a prefix are found at the same place, shifted.
proof fn lemma_next_newline_shift(p: Seq<char>, r: Seq<char>, i: int)
    requires
        0 <= i <= r.len(),
    ensures
        next_newline(p + r, p.len() + i) == p.len() + next_newline(r, i),
    decreases r.len() - i,
{
    if i < r.len() {
        assert((p + r)[p.len() + i] == r[i]);
        if r[i] != '\n' {
            lemma_next_newline_shift(p, r, i + 1);
        }
    }
}

/// No newline between `i` and `j`: the next newline from `i` is the one from `j`.
proof fn lemma_next_newline_skip(s: Seq<char>, i: int, j: int)
    requires
        0 <= i <= j <= s.len(),
        forall|k: int| i <= k < j ==> s[k] != '\n',
    ensures
        next_newline(s, i) == next_newline(s, j),
    decreases j - i,
{
    if i < j {
        lemma_next_newline_skip(s, i + 1, j);
    }
}

/// Looking up from a position after a prefix is looking up in the rest.
proof fn lemma_lookup_shift(p: Seq<char>, r: Seq<char>, i: int, q: FstabQueryView)
    requires
        0 <= i <= r.len(),
    ensures
        fstab_lookup_from(p + r, p.len() + i, q) == fstab_lookup_from(r, i, q),
    decreases r.len() - i,
{
    let c = p + r;
    lemma_next_newline_shift(p, r, i);
    lemma_next_newline(r, i);
    let e = next_newline(r, i);
    assert(c.subrange(p.len() + i, p.len() + e) =~= r.subrange(i, e));
    if fstab_line_entry(r.subrange(i, e), q) is None && e < r.len() {
        lemma_lookup_shift(p, r, e + 1, q);
    }
}

/// The fields of an fstab line: its whitespace-separated words.
pub open spec fn fstab_fields(line: Seq<char>) -> Seq<Seq<char>> {
    words(line)
}

/// How the lookup reads an fstab text line by line.  For a first line `l`
/// (without a newline) followed by the rest of the text: when `l` has at least
/// four fields (the dump and pass fields may be left out), does not start with
/// `#`, and its first field names the device, the entry is that line's spec,
/// mount point and options; otherwise the entry is the one the rest of the text
/// gives.  A last line without a newline is read the same way.
pub proof fn lemma_fstab_line_by_line(l: Seq<char>, rest: Seq<char>, q: FstabQueryView)
    requires
        forall|k: int| 0 <= k < l.len() ==> l[k] != '\n',
    ensures
        ({
            let f = fstab_fields(l);
            let found = f.len() >= 4 && f[0][0] != '#' && fstab_spec_matches(f[0], q);
            &&& found ==> fstab_lookup(l + seq!['\n'] + rest, q) == Some(
                FstabEntryView { spec: f[0], mount_point: f[1], options: f[3] },
            )
            &&& !found ==> fstab_lookup(l + seq!['\n'] + rest, q) == fstab_lookup(rest, q)
            &&& found ==> fstab_lookup(l, q) == Some(
                FstabEntryView { spec: f[0], mount_point: f[1], options: f[3] },
            )
            &&& !found ==> fstab_lookup(l, q) is None
        }),
{
    let p = l + seq!['\n'];
    let c = p + rest;
    assert forall|k: int| 0 <= k < l.len() implies c[k] != '\n' by {
        assert(c[k] == l[k]);
    }
    lemma_next_newline_skip(c, 0, l.len() as int);
    lemma_next_newline_skip(l, 0, l.len() as int);
    assert(l + seq!['\n'] + rest == c);
    lemma_next_newline_shift(l, seq!['\n'] + rest, 0);
    assert((seq!['\n'] + rest)[0] == '\n');
    assert(next_newline(seq!['\n'] + rest, 0) == 0);
    assert(l + (seq!['\n'] + rest) =~= c);
    assert(c.subrange(0, l.len() as int) =~= l);
    lemma_lookup_shift(p, rest, 0, q);
    assert(p + rest =~= c);
    assert(p.len() == l.len() + 1);
    // A single line without a newline.
    lemma_next_newline_shift(l, Seq::<char>::empty(), 0);
    assert(l + Seq::<char>::empty() =~= l);
    assert(l.subrange(0, l.len() as int) =~= l);
}

/// How a drive is named: a drive that reports a model is named by it (after
/// its vendor when it reports one too), each trimmed; a drive without a model
/// is "Unknown Drive", whatever its vendor; and the size follows in brackets.
pub proof fn lemma_drive_name_parts(d: DriveView)
    ensures
        d.model.len() > 0 && d.vendor.len() == 0 ==> drive_display_name(d) == trim_seq(d.model)
            + " ("@ + byte_size_text(d.size) + ")"@,
        d.model.len() > 0 && d.vendor.len() > 0 ==> drive_display_name(d) == trim_seq(d.vendor)
            + " "@ + trim_seq(d.model) + " ("@ + byte_size_text(d.size) + ")"@,
        d.model.len() == 0 ==> drive_display_name(d) == "Unknown Drive"@ + " ("@
            + byte_size_text(d.size) + ")"@,
{
}

} // verus!

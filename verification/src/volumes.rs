//! Decisions behind mounting, unmounting, formatting and partitioning:
//! mount-path validation, fstab fields, udisks2 option values and the
//! messages reported on success.

use vstd::prelude::*;

use vstd::string::StringSliceAdditionalSpecFns;

use crate::message::opt_str_view;
use crate::scan::{ay_decoded, trim_nuls};
use crate::sizes::{decimal, digit_char};
use crate::encoding::{lemma_encode_push_nul, lemma_utf8_text_of_encoding};
use vstd::utf8::encode_utf8;
use crate::text::{chars_of, trim, trim_seq};

verus! {

/// Why a mount path was refused.
#[derive(Debug)]
pub enum PathError {
    /// The path is blank.
    MountPathRequired,
    /// The path (after `~` expansion) does not start with `/`.
    PathNotAbsolute { path: String },
    /// The path has a `..` component.
    PathContainsParentDir { path: String },
}

/// The path with a leading `~` expanded: `~` alone becomes the home
/// directory, `~/rest` becomes `home/rest`; without a home directory `~`
/// stays as it is.
pub open spec fn expanded_path(t: Seq<char>, home: Option<Seq<char>>) -> Seq<char> {
    if t == seq!['~'] {
        match home {
            Some(h) => h,
            None => t,
        }
    } else if t.len() >= 2 && t[0] == '~' && t[1] == '/' {
        let h = match home {
            Some(h) => h,
            None => seq!['~'],
        };
        h + seq!['/'] + t.skip(2)
    } else {
        t
    }
}

/// Whether the path has a component `..` (between slashes or at either end).
pub open spec fn has_parent_component(p: Seq<char>) -> bool {
    exists|i: int|
        0 <= i && i + 2 <= p.len() && #[trigger] p[i] == '.' && p[i + 1] == '.' && (i == 0
            || p[i - 1] == '/') && (i + 2 == p.len() || p[i + 2] == '/')
}

/// Whether a component `..` starts at position `i`.
fn parent_component_at(v: &Vec<char>, i: usize) -> (b: bool)
    requires
        i < v@.len(),
    ensures
        b == (i + 2 <= v@.len() && v@[i as int] == '.' && v@[i + 1] == '.' && (i == 0 || v@[i
            - 1] == '/') && (i + 2 == v@.len() || v@[i + 2] == '/')),
{
    if v.len() - i < 2 {
        return false;
    }
    v[i] == '.' && v[i + 1] == '.' && (i == 0 || v[i - 1] == '/') && (i + 2 == v.len() || v[i
        + 2] == '/')
}

/// Whether the path has a component `..`.
pub fn contains_parent_dir(p: &str) -> (b: bool)
    ensures
        b == has_parent_component(p@),
{
    let v = chars_of(p);
    let mut i: usize = 0;
    while i < v.len()
        invariant
            v@ == p@,
            i <= v@.len(),
            forall|k: int|
                0 <= k < i ==> !(k + 2 <= v@.len() && #[trigger] v@[k] == '.' && v@[k + 1] == '.'
                    && (k == 0 || v@[k - 1] == '/') && (k + 2 == v@.len() || v@[k + 2] == '/')),
        decreases v.len() - i,
    {
        if parent_component_at(&v, i) {
            return true;
        }
        i = i + 1;
    }
    false
}

/// Expands a leading `~` (with `home`, the `HOME` environment variable) and
/// checks that the result is a non-empty absolute path without `..` components.
pub fn resolve_path(raw: &str, home: Option<&str>) -> (r: Result<String, PathError>)
    ensures
        ({
            let t = trim_seq(raw@);
            let e = expanded_path(
                t,
                match home {
                    Some(h) => Some(h@),
                    None => None,
                },
            );
            if t.len() == 0 {
                r == Err::<String, PathError>(PathError::MountPathRequired)
            } else if e.len() == 0 || e[0] != '/' {
                r matches Err(PathError::PathNotAbsolute { path }) && path@ == e
            } else if has_parent_component(e) {
                r matches Err(PathError::PathContainsParentDir { path }) && path@ == e
            } else {
                r matches Ok(p) && p@ == e
            }
        }),
{
    let trimmed = trim(raw);
    let t = chars_of(trimmed.as_str());
    if t.len() == 0 {
        return Err(PathError::MountPathRequired);
    }
    let expanded: String = if t.len() == 1 && t[0] == '~' {
        assert(t@ =~= seq!['~']);
        match home {
            Some(h) => h.to_owned(),
            None => trimmed.clone(),
        }
    } else if t.len() >= 2 && t[0] == '~' && t[1] == '/' {
        let mut e = match home {
            Some(h) => h.to_owned(),
            None => {
                let s = "~".to_owned();
                proof {
                    reveal_strlit("~");
                }
                assert(s@ =~= seq!['~']);
                s
            },
        };
        let ghost eh = e@;
        e.append("/");
        let rest = trimmed.as_str().substring_char(2, t.len());
        e.append(rest);
        proof {
            reveal_strlit("/");
            assert(e@ =~= eh + seq!['/'] + t@.skip(2));
        }
        e
    } else {
        proof {
            if t@ == seq!['~'] {
                assert(t@.len() == 1);
            }
        }
        trimmed.clone()
    };
    let ev = chars_of(expanded.as_str());
    if ev.len() == 0 || ev[0] != '/' {
        return Err(PathError::PathNotAbsolute { path: expanded });
    }
    if contains_parent_dir(expanded.as_str()) {
        return Err(PathError::PathContainsParentDir { path: expanded });
    }
    Ok(expanded)
}

} // verus!

verus! {

/// The options field of an fstab entry: the trimmed options, or `defaults` when blank.
pub fn fstab_options(options: &str) -> (s: String)
    ensures
        s@ == if trim_seq(options@).len() == 0 {
            "defaults"@
        } else {
            trim_seq(options@)
        },
{
    let t = trim(options);
    if t.as_str().is_empty() {
        "defaults".to_owned()
    } else {
        t
    }
}

/// The spec field of an fstab entry: `UUID=<uuid>` when the device has a
/// UUID (stable across renames), else the device path.
pub fn fstab_fsname(device: &str, uuid: &str) -> (s: String)
    ensures
        s@ == if uuid@.len() == 0 {
            device@
        } else {
            "UUID="@ + uuid@
        },
{
    if uuid.is_empty() {
        device.to_owned()
    } else {
        let mut s = "UUID=".to_owned();
        s.append(uuid);
        s
    }
}

/// The `options` value of a udisks2 `Mount` call: the trimmed options, if any.
pub fn mount_option_value(options: &str) -> (r: Option<String>)
    ensures
        r matches Some(s) ==> s@ == trim_seq(options@) && s@.len() > 0,
        r is None <==> trim_seq(options@).len() == 0,
{
    let t = trim(options);
    if t.as_str().is_empty() {
        None
    } else {
        Some(t)
    }
}

/// How a mount at an explicit path is carried out.
pub struct MountPlan {
    /// Write an fstab entry for the path before mounting.
    pub write_fstab: bool,
    /// The `options` value of the `Mount` call, if any.
    pub options: Option<String>,
    /// The `mount-point` value of the `Mount` call, if any.
    pub mount_point: Option<String>,
}

/// The plan for mounting at the resolved path `path`: a persistent mount
/// writes the fstab entry first and lets udisks2 mount from it (no
/// `mount-point`); otherwise no entry is written and the path is passed as the
/// `mount-point`.  The options go along, trimmed, when there are any.
pub fn mount_plan(options: &str, path: &str, persistent: bool) -> (p: MountPlan)
    ensures
        p.write_fstab == persistent,
        opt_str_view(p.options) == (if trim_seq(options@).len() == 0 {
            None
        } else {
            Some(trim_seq(options@))
        }),
        opt_str_view(p.mount_point) == (if persistent {
            None
        } else {
            Some(path@)
        }),
{
    let opts = mount_option_value(options);
    let mount_point = if persistent {
        None
    } else {
        Some(path.to_owned())
    };
    MountPlan { write_fstab: persistent, options: opts, mount_point }
}

/// The `label` value of a udisks2 format request: the label, if not empty.
pub fn label_value(label: &str) -> (r: Option<String>)
    ensures
        r matches Some(s) ==> s@ == label@ && s@.len() > 0,
        r is None <==> label@.len() == 0,
{
    if label.is_empty() {
        None
    } else {
        Some(label.to_owned())
    }
}

/// The bytes of a udisks2 `ay` value for a text: its UTF-8 bytes and a NUL terminator.
pub fn ay_bytes(s: &str) -> (b: Vec<u8>)
    ensures
        b@ == s.spec_bytes().push(0u8),
{
    let bytes = s.as_bytes();
    let mut b: Vec<u8> = Vec::new();
    let mut i: usize = 0;
    while i < bytes.len()
        invariant
            bytes@ == s.spec_bytes(),
            i <= bytes@.len(),
            b@ == bytes@.take(i as int),
        decreases bytes.len() - i,
    {
        b.push(bytes[i]);
        i = i + 1;
        assert(b@ =~= bytes@.take(i as int));
    }
    assert(bytes@.take(i as int) =~= bytes@);
    b.push(0u8);
    b
}

/// A text written as a udisks2 `ay` value reads back as the same text, when it
/// does not itself end in NUL characters; an empty byte array reads as the
/// empty text.
pub proof fn lemma_ay_round_trip(s: &str)
    requires
        s@.len() == 0 || s@.last() != '\0',
    ensures
        ay_decoded(s.spec_bytes().push(0u8)) == Some(s@),
        ay_decoded(Seq::<u8>::empty()) == Some(Seq::<char>::empty()),
{
    lemma_encode_push_nul(s@);
    let t = s@.push('\0');
    lemma_utf8_text_of_encoding(t);
    lemma_utf8_text_of_encoding(Seq::<char>::empty());
    assert(t.drop_last() =~= s@);
    assert(trim_nuls(t) == trim_nuls(s@));
    assert(encode_utf8(Seq::<char>::empty()) =~= Seq::<u8>::empty());
}

/// The decimal text of a number.
pub fn decimal_string(n: u64) -> (s: String)
    ensures
        s@ == decimal(n as nat),
    decreases n,
{
    let d = (n % 10) as u8;
    let c = ('0' as u8 + d) as char;
    assert(c == digit_char((n % 10) as nat));
    if n < 10 {
        let mut s = String::new();
        crate::text::push_char(&mut s, c);
        assert(s@ =~= decimal(n as nat));
        s
    } else {
        let mut s = decimal_string(n / 10);
        crate::text::push_char(&mut s, c);
        s
    }
}

/// "Mounted <device> at <mount point>".
pub fn mounted_message(device: &str, mount_point: &str) -> (s: String)
    ensures
        s@ == "Mounted "@ + device@ + " at "@ + mount_point@,
{
    let mut s = "Mounted ".to_owned();
    s.append(device);
    s.append(" at ");
    s.append(mount_point);
    s
}

/// "Unmounted <device>".
pub fn unmounted_message(device: &str) -> (s: String)
    ensures
        s@ == "Unmounted "@ + device@,
{
    let mut s = "Unmounted ".to_owned();
    s.append(device);
    s
}

/// "Formatted <device> as <filesystem>".
pub fn formatted_message(device: &str, fs_type: &str) -> (s: String)
    ensures
        s@ == "Formatted "@ + device@ + " as "@ + fs_type@,
{
    let mut s = "Formatted ".to_owned();
    s.append(device);
    s.append(" as ");
    s.append(fs_type);
    s
}

/// "Created <filesystem> partition (<size> bytes)".
pub fn created_message(fs_type: &str, size_bytes: u64) -> (s: String)
    ensures
        s@ == "Created "@ + fs_type@ + " partition ("@ + decimal(size_bytes as nat) + " bytes)"@,
{
    let mut s = "Created ".to_owned();
    s.append(fs_type);
    s.append(" partition (");
    let n = decimal_string(size_bytes);
    s.append(n.as_str());
    s.append(" bytes)");
    s
}

} // verus!

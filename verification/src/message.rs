//! The application's state types and the messages that drive them.

use vstd::prelude::*;

use crate::config::Config;
use crate::disks::{
    drives_view, fstab_opt_view, strings_view, BlockDevice, BlockDeviceView, Drive, DriveView,
    FstabEntry, FstabEntryView,
};
use crate::text::equals;

verus! {

// ---------------------------------------------------------------------------
// Top-level state machines
// ---------------------------------------------------------------------------

pub enum LoadState {
    Scanning,
    Error(String),
    Ready(Vec<Drive>),
}

pub enum ActiveDialog {
    /// No dialog is open.
    Closed,
    Mount(MountLocationDialog),
    Unmount { device: String, mount_points: Vec<String> },
}

pub struct PartitionContext {
    pub partition: BlockDevice,
    pub fstab_entry: Option<FstabEntry>,
    pub format_panel: Option<FormatPanel>,
    pub operation_in_progress: Option<OperationKind>,
    pub operation_error: Option<String>,
}

pub struct UnallocatedContext {
    pub drive_id: String,
    pub create_panel: Option<CreatePartitionPanel>,
    pub operation_in_progress: Option<OperationKind>,
    pub operation_error: Option<String>,
}

pub enum SelectionState {
    /// Nothing is selected.
    Unselected,
    Partition(PartitionContext),
    Unallocated(UnallocatedContext),
}

impl SelectionState {
    /// Whether the selected partition already has an `/etc/fstab` entry loaded.
    pub open spec fn spec_has_fstab_entry(&self) -> bool {
        match self {
            SelectionState::Partition(ctx) => ctx.fstab_entry is Some,
            _ => false,
        }
    }

    /// Returns `true` when the selected partition already has an `/etc/fstab` entry loaded.
    pub fn has_fstab_entry(&self) -> (b: bool)
        ensures
            b == self.spec_has_fstab_entry(),
    {
        if let SelectionState::Partition(ctx) = self {
            ctx.fstab_entry.is_some()
        } else {
            false
        }
    }
}

#[derive(Debug, Clone, Copy, PartialEq, Eq, Hash, Structural)]
pub enum MountFlag {
    ReadOnly,
    NoExec,
    NoSuid,
    NoAtime,
    NoDiratime,
    Sync,
}

impl MountFlag {
    pub const ALL: [MountFlag; 6] = [
        MountFlag::ReadOnly,
        MountFlag::NoExec,
        MountFlag::NoSuid,
        MountFlag::NoAtime,
        MountFlag::NoDiratime,
        MountFlag::Sync,
    ];

    /// The mount option that the flag stands for.
    pub open spec fn option_name(self) -> Seq<char> {
        match self {
            MountFlag::ReadOnly => "ro"@,
            MountFlag::NoExec => "noexec"@,
            MountFlag::NoSuid => "nosuid"@,
            MountFlag::NoAtime => "noatime"@,
            MountFlag::NoDiratime => "nodiratime"@,
            MountFlag::Sync => "sync"@,
        }
    }

    pub fn as_str(self) -> (s: &'static str)
        ensures
            s@ == self.option_name(),
    {
        match self {
            MountFlag::ReadOnly => "ro",
            MountFlag::NoExec => "noexec",
            MountFlag::NoSuid => "nosuid",
            MountFlag::NoAtime => "noatime",
            MountFlag::NoDiratime => "nodiratime",
            MountFlag::Sync => "sync",
        }
    }

    /// Identifier of the flag's human-readable label in the translation catalogue.
    pub fn label_id(self) -> (s: &'static str)
        ensures
            s@ == "mount-flag-"@ + self.option_name(),
    {
        proof {
            reveal_strlit("mount-flag-");
            reveal_strlit("ro");
            reveal_strlit("noexec");
            reveal_strlit("nosuid");
            reveal_strlit("noatime");
            reveal_strlit("nodiratime");
            reveal_strlit("sync");
            reveal_strlit("mount-flag-ro");
            reveal_strlit("mount-flag-noexec");
            reveal_strlit("mount-flag-nosuid");
            reveal_strlit("mount-flag-noatime");
            reveal_strlit("mount-flag-nodiratime");
            reveal_strlit("mount-flag-sync");
        }
        let s = match self {
            MountFlag::ReadOnly => "mount-flag-ro",
            MountFlag::NoExec => "mount-flag-noexec",
            MountFlag::NoSuid => "mount-flag-nosuid",
            MountFlag::NoAtime => "mount-flag-noatime",
            MountFlag::NoDiratime => "mount-flag-nodiratime",
            MountFlag::Sync => "mount-flag-sync",
        };
        assert(s@ =~= "mount-flag-"@ + self.option_name());
        s
    }
}

#[derive(Copy, Clone, Debug, PartialEq, Eq, Structural)]
pub enum ContextPage {
    About,
}

#[derive(Debug, Clone, Copy, PartialEq, Eq, Hash, Structural)]
pub enum FsType {
    Ext4,
    Btrfs,
    Xfs,
    Vfat,
    Exfat,
    Ntfs,
}

impl Default for FsType {
    fn default() -> (t: Self)
        ensures
            t == FsType::Ext4,
    {
        FsType::Ext4
    }
}

impl FsType {
    pub const ALL: [FsType; 6] = [
        FsType::Ext4,
        FsType::Btrfs,
        FsType::Xfs,
        FsType::Vfat,
        FsType::Exfat,
        FsType::Ntfs,
    ];

    /// The canonical filesystem name, as passed to udisks2.
    pub open spec fn name(self) -> Seq<char> {
        match self {
            FsType::Ext4 => "ext4"@,
            FsType::Btrfs => "btrfs"@,
            FsType::Xfs => "xfs"@,
            FsType::Vfat => "vfat"@,
            FsType::Exfat => "exfat"@,
            FsType::Ntfs => "ntfs"@,
        }
    }

    pub fn as_str(self) -> (s: &'static str)
        ensures
            s@ == self.name(),
    {
        match self {
            FsType::Ext4 => "ext4",
            FsType::Btrfs => "btrfs",
            FsType::Xfs => "xfs",
            FsType::Vfat => "vfat",
            FsType::Exfat => "exfat",
            FsType::Ntfs => "ntfs",
        }
    }

    /// The filesystem type that a udisks2 `IdType` is grouped under for display:
    /// the canonical names, with ext2/ext3 grouped as ext4 and fat16/fat32 as vfat.
    pub open spec fn from_name(s: Seq<char>) -> Option<FsType> {
        if s == "ext4"@ || s == "ext3"@ || s == "ext2"@ {
            Some(FsType::Ext4)
        } else if s == "btrfs"@ {
            Some(FsType::Btrfs)
        } else if s == "xfs"@ {
            Some(FsType::Xfs)
        } else if s == "vfat"@ || s == "fat16"@ || s == "fat32"@ {
            Some(FsType::Vfat)
        } else if s == "exfat"@ {
            Some(FsType::Exfat)
        } else if s == "ntfs"@ {
            Some(FsType::Ntfs)
        } else {
            None
        }
    }

    /// Used for display (colour coding) only.  ext2/ext3 → Ext4 and
    /// fat16/fat32 → Vfat are aliases for visual grouping; this value must
    /// never be round-tripped back into a format or create-partition call.
    pub fn parse_name(s: &str) -> (r: Result<FsType, ()>)
        ensures
            r == (match FsType::from_name(s@) {
                Some(t) => Ok(t),
                None => Err(()),
            }),
    {
        if equals(s, "ext4") || equals(s, "ext3") || equals(s, "ext2") {
            Ok(FsType::Ext4)
        } else if equals(s, "btrfs") {
            Ok(FsType::Btrfs)
        } else if equals(s, "xfs") {
            Ok(FsType::Xfs)
        } else if equals(s, "vfat") || equals(s, "fat16") || equals(s, "fat32") {
            Ok(FsType::Vfat)
        } else if equals(s, "exfat") {
            Ok(FsType::Exfat)
        } else if equals(s, "ntfs") {
            Ok(FsType::Ntfs)
        } else {
            Err(())
        }
    }
}

impl std::str::FromStr for FsType {
    type Err = ();

    fn from_str(s: &str) -> (r: Result<Self, Self::Err>)
        ensures
            r == (match FsType::from_name(s@) {
                Some(t) => Ok(t),
                None => Err(()),
            }),
    {
        FsType::parse_name(s)
    }
}

/// Parsing a canonical filesystem name gives back the same filesystem type.
pub proof fn lemma_fs_type_name_round_trip(t: FsType)
    ensures
        FsType::from_name(t.name()) == Some(t),
{
    reveal_strlit("ext4");
    reveal_strlit("ext3");
    reveal_strlit("ext2");
    reveal_strlit("btrfs");
    reveal_strlit("xfs");
    reveal_strlit("vfat");
    reveal_strlit("fat16");
    reveal_strlit("fat32");
    reveal_strlit("exfat");
    reveal_strlit("ntfs");
    assert("ext4"@[0] == 'e' && "ext4"@.len() == 4);
    assert("ext3"@[0] == 'e' && "ext3"@.len() == 4 && "ext3"@[3] == '3' && "ext4"@[3] == '4');
    assert("ext2"@[0] == 'e' && "ext2"@.len() == 4 && "ext2"@[3] == '2');
    assert("btrfs"@[0] == 'b' && "btrfs"@.len() == 5);
    assert("xfs"@[0] == 'x' && "xfs"@.len() == 3);
    assert("vfat"@[0] == 'v' && "vfat"@.len() == 4);
    assert("fat16"@[0] == 'f' && "fat16"@.len() == 5);
    assert("fat32"@[0] == 'f' && "fat32"@.len() == 5);
    assert("exfat"@[0] == 'e' && "exfat"@.len() == 5);
    assert("ntfs"@[0] == 'n' && "ntfs"@.len() == 4);
}

/// Distinct mount flags stand for distinct mount options.
pub proof fn lemma_mount_flag_names_distinct(a: MountFlag, b: MountFlag)
    ensures
        a.option_name() == b.option_name() ==> a == b,
{
    reveal_strlit("ro");
    reveal_strlit("noexec");
    reveal_strlit("nosuid");
    reveal_strlit("noatime");
    reveal_strlit("nodiratime");
    reveal_strlit("sync");
    if a.option_name() == b.option_name() && a != b {
        let x = a.option_name();
        let y = b.option_name();
        assert(x.len() == y.len());
        assert(x[0] == y[0]);
        assert(x[2] == y[2]);
        assert(x[x.len() - 1] == y[y.len() - 1]);
    }
}

/// Tracks which D-Bus operation is currently in flight so the UI can show a spinner.
#[derive(Debug, Clone)]
pub enum OperationKind {
    Mounting(String),
    Unmounting(String),
    Formatting(String),
    CreatingPartition { drive_id: String },
}

/// State for the "mount at location" modal dialog.
pub struct MountLocationDialog {
    pub device: String,
    pub path: String,
    pub show_advanced: bool,
    /// The selected flags; a flag counts as selected when it occurs in the list.
    pub selected_flags: Vec<MountFlag>,
    /// Whether to write a persistent `/etc/fstab` entry before mounting.
    /// Only relevant when `path` is non-empty; ignored for managed mounts.
    pub add_to_fstab: bool,
    /// Snapshot of whether the partition had an fstab entry at the moment this
    /// dialog was opened.  When true the fstab write is suppressed at confirm
    /// time regardless of `add_to_fstab`.
    pub already_in_fstab: bool,
}

impl MountLocationDialog {
    pub open spec fn spec_effective_add_to_fstab(&self) -> bool {
        self.add_to_fstab && !self.already_in_fstab
    }

    /// The effective value to pass to `mount_at_path`: the write is suppressed
    /// when the partition is already in fstab.
    pub fn effective_add_to_fstab(&self) -> (b: bool)
        ensures
            b == self.spec_effective_add_to_fstab(),
    {
        self.add_to_fstab && !self.already_in_fstab
    }

    /// The set of selected flags.
    pub open spec fn flag_set(&self) -> Set<MountFlag> {
        self.selected_flags@.to_set()
    }
}

/// State for the inline format panel that expands inside the partition detail card.
pub struct FormatPanel {
    pub device: String,
    pub fs_type: FsType,
    pub label: String,
}

/// State for the create-partition panel shown when unallocated space is selected.
pub struct CreatePartitionPanel {
    pub drive_id: String,
    /// udisks2 object path of the whole-disk block device (e.g. `.../block_devices/sda`).
    pub block_device: String,
    /// Maximum bytes available in the unallocated region.
    pub max_bytes: u64,
    /// User-typed size string (e.g. "10 GB").
    pub size_str: String,
    pub fs_type: FsType,
    pub label: String,
}

#[derive(Debug)]
pub enum Message {
    LaunchUrl(String),
    ToggleContextPage(ContextPage),
    RefreshDisks,
    DisksScanned(Result<Vec<Drive>, String>),
    SelectPartition(BlockDevice),
    SelectUnallocated(String),
    /// Async fstab lookup completed after a partition was selected.
    FstabLoaded(Option<FstabEntry>),
    /// Open the "mount at location" dialog for a device.
    /// `prefill_path` pre-populates the path field (e.g. from an existing mount point).
    OpenMountDialog { device: String, prefill_path: Option<String> },
    /// User edited the path text field in the mount dialog.
    MountDialogPathChanged(String),
    /// User toggled the advanced-options section in the mount dialog.
    ToggleMountDialogAdvanced,
    /// User toggled a mount flag in the dialog advanced section.
    ToggleDialogMountFlag(MountFlag),
    /// User toggled the "add to /etc/fstab" checkbox in the mount dialog.
    ToggleFstabCheckbox,
    /// User clicked Browse — open the portal folder picker.
    BrowseMountPath,
    /// Portal folder picker returned (None = cancelled).
    BrowsePathPicked(Option<String>),
    /// Confirmed mount from the dialog.
    ConfirmMountDialog,
    /// Closed / cancelled the mount dialog.
    CloseMountDialog,
    /// Open the unmount confirmation dialog.
    OpenUnmountDialog(String, Vec<String>),
    /// User confirmed the unmount dialog.
    ConfirmUnmount,
    /// User cancelled the unmount dialog.
    CloseUnmountDialog,
    /// Open the inline format panel for a device.
    OpenFormatPanel(String),
    /// User picked a different filesystem in the format panel.
    FormatPanelFsChanged(FsType),
    /// User edited the label field in the format panel.
    FormatPanelLabelChanged(String),
    /// User cancelled the format panel.
    CloseFormatPanel,
    /// User confirmed — execute the format.
    ConfirmFormat,
    /// Open the create-partition panel for the unallocated region of a drive.
    OpenCreatePartitionPanel { drive_id: String, max_bytes: u64 },
    /// User edited the size field in the create-partition panel.
    CreatePartitionSizeChanged(String),
    /// User picked a different filesystem in the create-partition panel.
    CreatePartitionFsChanged(FsType),
    /// User edited the label field in the create-partition panel.
    CreatePartitionLabelChanged(String),
    /// User cancelled the create-partition panel.
    CloseCreatePartitionPanel,
    /// User confirmed — execute the partition creation.
    ConfirmCreatePartition,
    /// An async operation (mount / unmount / format) returned an error.
    OperationFailed(String),
    /// The auto-dismiss timer of the error with this epoch ran out.
    AutoDismissError(u64),
    /// User dismissed the inline error.
    DismissError,
    /// Config changed externally (e.g. another process wrote to cosmic-config).
    ConfigUpdate(Config),
}

impl Clone for Message {
    fn clone(&self) -> Self {
        match self {
            Message::LaunchUrl(u) => Message::LaunchUrl(u.clone()),
            Message::ToggleContextPage(p) => Message::ToggleContextPage(*p),
            Message::RefreshDisks => Message::RefreshDisks,
            Message::DisksScanned(r) => Message::DisksScanned(
                match r {
                    Ok(d) => Ok(d.clone()),
                    Err(e) => Err(e.clone()),
                },
            ),
            Message::SelectPartition(p) => Message::SelectPartition(p.clone()),
            Message::SelectUnallocated(d) => Message::SelectUnallocated(d.clone()),
            Message::FstabLoaded(e) => Message::FstabLoaded(e.clone()),
            Message::OpenMountDialog { device, prefill_path } => Message::OpenMountDialog {
                device: device.clone(),
                prefill_path: prefill_path.clone(),
            },
            Message::MountDialogPathChanged(p) => Message::MountDialogPathChanged(p.clone()),
            Message::ToggleMountDialogAdvanced => Message::ToggleMountDialogAdvanced,
            Message::ToggleDialogMountFlag(f) => Message::ToggleDialogMountFlag(*f),
            Message::ToggleFstabCheckbox => Message::ToggleFstabCheckbox,
            Message::BrowseMountPath => Message::BrowseMountPath,
            Message::BrowsePathPicked(p) => Message::BrowsePathPicked(p.clone()),
            Message::ConfirmMountDialog => Message::ConfirmMountDialog,
            Message::CloseMountDialog => Message::CloseMountDialog,
            Message::OpenUnmountDialog(d, m) => Message::OpenUnmountDialog(d.clone(), m.clone()),
            Message::ConfirmUnmount => Message::ConfirmUnmount,
            Message::CloseUnmountDialog => Message::CloseUnmountDialog,
            Message::OpenFormatPanel(d) => Message::OpenFormatPanel(d.clone()),
            Message::FormatPanelFsChanged(f) => Message::FormatPanelFsChanged(*f),
            Message::FormatPanelLabelChanged(l) => Message::FormatPanelLabelChanged(l.clone()),
            Message::CloseFormatPanel => Message::CloseFormatPanel,
            Message::ConfirmFormat => Message::ConfirmFormat,
            Message::OpenCreatePartitionPanel { drive_id, max_bytes } =>
                Message::OpenCreatePartitionPanel { drive_id: drive_id.clone(), max_bytes: *max_bytes },
            Message::CreatePartitionSizeChanged(s) => Message::CreatePartitionSizeChanged(s.clone()),
            Message::CreatePartitionFsChanged(f) => Message::CreatePartitionFsChanged(*f),
            Message::CreatePartitionLabelChanged(l) => Message::CreatePartitionLabelChanged(
                l.clone(),
            ),
            Message::CloseCreatePartitionPanel => Message::CloseCreatePartitionPanel,
            Message::ConfirmCreatePartition => Message::ConfirmCreatePartition,
            Message::OperationFailed(e) => Message::OperationFailed(e.clone()),
            Message::AutoDismissError(e) => Message::AutoDismissError(*e),
            Message::DismissError => Message::DismissError,
            Message::ConfigUpdate(c) => Message::ConfigUpdate(*c),
        }
    }
}

// ---------------------------------------------------------------------------
// Mathematical models
// ---------------------------------------------------------------------------

/// Model of an optional string.
pub open spec fn opt_str_view(s: Option<String>) -> Option<Seq<char>> {
    match s {
        Some(x) => Some(x@),
        None => None,
    }
}

pub enum OperationView {
    Mounting(Seq<char>),
    Unmounting(Seq<char>),
    Formatting(Seq<char>),
    CreatingPartition { drive_id: Seq<char> },
}

impl View for OperationKind {
    type V = OperationView;

    open spec fn view(&self) -> OperationView {
        match self {
            OperationKind::Mounting(d) => OperationView::Mounting(d@),
            OperationKind::Unmounting(d) => OperationView::Unmounting(d@),
            OperationKind::Formatting(d) => OperationView::Formatting(d@),
            OperationKind::CreatingPartition { drive_id } => OperationView::CreatingPartition {
                drive_id: drive_id@,
            },
        }
    }
}

/// Model of an optional in-flight operation.
pub open spec fn op_opt_view(o: Option<OperationKind>) -> Option<OperationView> {
    match o {
        Some(x) => Some(x@),
        None => None,
    }
}

#[verifier::ext_equal]
pub struct FormatPanelView {
    pub device: Seq<char>,
    pub fs_type: FsType,
    pub label: Seq<char>,
}

impl View for FormatPanel {
    type V = FormatPanelView;

    open spec fn view(&self) -> FormatPanelView {
        FormatPanelView { device: self.device@, fs_type: self.fs_type, label: self.label@ }
    }
}

pub open spec fn format_opt_view(o: Option<FormatPanel>) -> Option<FormatPanelView> {
    match o {
        Some(x) => Some(x@),
        None => None,
    }
}

#[verifier::ext_equal]
pub struct CreatePanelView {
    pub drive_id: Seq<char>,
    pub block_device: Seq<char>,
    pub max_bytes: u64,
    pub size_str: Seq<char>,
    pub fs_type: FsType,
    pub label: Seq<char>,
}

impl View for CreatePartitionPanel {
    type V = CreatePanelView;

    open spec fn view(&self) -> CreatePanelView {
        CreatePanelView {
            drive_id: self.drive_id@,
            block_device: self.block_device@,
            max_bytes: self.max_bytes,
            size_str: self.size_str@,
            fs_type: self.fs_type,
            label: self.label@,
        }
    }
}

pub open spec fn create_opt_view(o: Option<CreatePartitionPanel>) -> Option<CreatePanelView> {
    match o {
        Some(x) => Some(x@),
        None => None,
    }
}

#[verifier::ext_equal]
pub struct PartitionContextView {
    pub partition: BlockDeviceView,
    pub fstab_entry: Option<FstabEntryView>,
    pub format_panel: Option<FormatPanelView>,
    pub operation_in_progress: Option<OperationView>,
    pub operation_error: Option<Seq<char>>,
}

impl View for PartitionContext {
    type V = PartitionContextView;

    open spec fn view(&self) -> PartitionContextView {
        PartitionContextView {
            partition: self.partition@,
            fstab_entry: fstab_opt_view(self.fstab_entry),
            format_panel: format_opt_view(self.format_panel),
            operation_in_progress: op_opt_view(self.operation_in_progress),
            operation_error: opt_str_view(self.operation_error),
        }
    }
}

#[verifier::ext_equal]
pub struct UnallocatedContextView {
    pub drive_id: Seq<char>,
    pub create_panel: Option<CreatePanelView>,
    pub operation_in_progress: Option<OperationView>,
    pub operation_error: Option<Seq<char>>,
}

impl View for UnallocatedContext {
    type V = UnallocatedContextView;

    open spec fn view(&self) -> UnallocatedContextView {
        UnallocatedContextView {
            drive_id: self.drive_id@,
            create_panel: create_opt_view(self.create_panel),
            operation_in_progress: op_opt_view(self.operation_in_progress),
            operation_error: opt_str_view(self.operation_error),
        }
    }
}

#[verifier::ext_equal]
pub enum SelectionView {
    Unselected,
    Partition(PartitionContextView),
    Unallocated(UnallocatedContextView),
}

impl SelectionView {
    /// Whether a partition is selected and its fstab entry is loaded.
    pub open spec fn has_fstab_entry(self) -> bool {
        match self {
            SelectionView::Partition(c) => c.fstab_entry is Some,
            _ => false,
        }
    }
}

impl View for SelectionState {
    type V = SelectionView;

    open spec fn view(&self) -> SelectionView {
        match self {
            SelectionState::Unselected => SelectionView::Unselected,
            SelectionState::Partition(c) => SelectionView::Partition(c@),
            SelectionState::Unallocated(c) => SelectionView::Unallocated(c@),
        }
    }
}

#[verifier::ext_equal]
pub struct MountDialogView {
    pub device: Seq<char>,
    pub path: Seq<char>,
    pub show_advanced: bool,
    pub selected_flags: Set<MountFlag>,
    pub add_to_fstab: bool,
    pub already_in_fstab: bool,
}

impl View for MountLocationDialog {
    type V = MountDialogView;

    open spec fn view(&self) -> MountDialogView {
        MountDialogView {
            device: self.device@,
            path: self.path@,
            show_advanced: self.show_advanced,
            selected_flags: self.flag_set(),
            add_to_fstab: self.add_to_fstab,
            already_in_fstab: self.already_in_fstab,
        }
    }
}

#[verifier::ext_equal]
pub enum DialogView {
    Closed,
    Mount(MountDialogView),
    Unmount { device: Seq<char>, mount_points: Seq<Seq<char>> },
}

impl View for ActiveDialog {
    type V = DialogView;

    open spec fn view(&self) -> DialogView {
        match self {
            ActiveDialog::Closed => DialogView::Closed,
            ActiveDialog::Mount(d) => DialogView::Mount(d@),
            ActiveDialog::Unmount { device, mount_points } => DialogView::Unmount {
                device: device@,
                mount_points: strings_view(mount_points@),
            },
        }
    }
}

#[verifier::ext_equal]
pub enum LoadView {
    Scanning,
    Error(Seq<char>),
    Ready(Seq<DriveView>),
}

impl View for LoadState {
    type V = LoadView;

    open spec fn view(&self) -> LoadView {
        match self {
            LoadState::Scanning => LoadView::Scanning,
            LoadState::Error(e) => LoadView::Error(e@),
            LoadState::Ready(d) => LoadView::Ready(drives_view(d@)),
        }
    }
}

} // verus!

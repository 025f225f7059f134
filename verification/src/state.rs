//! The application's reaction to each [`Message`]: the next state, and the
//! outside work (D-Bus calls, timers, file reads) that the caller must perform.

use vstd::prelude::*;

use crate::config::Config;
use crate::disks::{
    FstabQuery, FstabQueryView, blocks_view, drives_view, fstab_opt_view, BlockDevice, BlockDeviceView, Drive, DriveView,
    FstabEntry,
};
use crate::message::{
    opt_str_view, ActiveDialog, ContextPage, CreatePanelView, CreatePartitionPanel, DialogView,
    FormatPanel, FormatPanelView, FsType, LoadState, LoadView, Message, MountDialogView,
    MountFlag, MountLocationDialog, OperationKind, OperationView, PartitionContext,
    PartitionContextView, SelectionState, SelectionView, UnallocatedContext,
    UnallocatedContextView,
};
use crate::sizes::{byte_size_string, byte_size_text, parse_byte_size, parsed_byte_size};
use crate::text::{join_texts, trim, trim_seq};

verus! {

// ---------------------------------------------------------------------------
// Effects: outside work requested by a state transition
// ---------------------------------------------------------------------------

/// Outside work that the caller performs after a transition.  Each kind of
/// work ends in a further message: `LookupFstab` in `FstabLoaded`,
/// `PickFolder` in `BrowsePathPicked`, the D-Bus operations in `RefreshDisks`
/// or `OperationFailed`, `DismissLater` (after 8 s) in `AutoDismissError`,
/// `ScanDrives` in `DisksScanned`.
#[derive(Debug)]
pub enum Effect {
    /// Nothing to do.
    Nothing,
    /// Open a URL in the desktop's browser (best effort).
    OpenUrl(String),
    /// Read `/etc/fstab` and look up the entry for a partition.
    LookupFstab(FstabQuery),
    /// Open the portal folder picker.
    PickFolder,
    /// Mount through udisks2 at the place it chooses.
    MountDefault { device: String, options: String },
    /// Mount at an explicit path, writing an fstab entry first when `persistent`.
    MountAtPath { device: String, path: String, options: String, persistent: bool },
    /// Unmount a device.
    Unmount { device: String },
    /// Save the configuration, then format a device.
    Format { device: String, fs_type: String, label: String },
    /// Save the configuration, then create and format a partition.
    CreatePartition { block_device: String, size_bytes: u64, fs_type: String, label: String },
    /// The size typed into the create-partition panel was not understood; the
    /// caller shows a translated message for `input` with `set_selection_error`.
    RejectSize { input: String },
    /// Send `AutoDismissError(epoch)` after a delay.
    DismissLater { epoch: u64 },
    /// Scan the drives again.
    ScanDrives,
}

#[verifier::ext_equal]
pub enum EffectView {
    Nothing,
    OpenUrl(Seq<char>),
    LookupFstab(FstabQueryView),
    PickFolder,
    MountDefault { device: Seq<char>, options: Seq<char> },
    MountAtPath { device: Seq<char>, path: Seq<char>, options: Seq<char>, persistent: bool },
    Unmount { device: Seq<char> },
    Format { device: Seq<char>, fs_type: Seq<char>, label: Seq<char> },
    CreatePartition {
        block_device: Seq<char>,
        size_bytes: u64,
        fs_type: Seq<char>,
        label: Seq<char>,
    },
    RejectSize { input: Seq<char> },
    DismissLater { epoch: u64 },
    ScanDrives,
}

impl View for Effect {
    type V = EffectView;

    open spec fn view(&self) -> EffectView {
        match self {
            Effect::Nothing => EffectView::Nothing,
            Effect::OpenUrl(u) => EffectView::OpenUrl(u@),
            Effect::LookupFstab(q) => EffectView::LookupFstab(q@),
            Effect::PickFolder => EffectView::PickFolder,
            Effect::MountDefault { device, options } => EffectView::MountDefault {
                device: device@,
                options: options@,
            },
            Effect::MountAtPath { device, path, options, persistent } => EffectView::MountAtPath {
                device: device@,
                path: path@,
                options: options@,
                persistent: *persistent,
            },
            Effect::Unmount { device } => EffectView::Unmount { device: device@ },
            Effect::Format { device, fs_type, label } => EffectView::Format {
                device: device@,
                fs_type: fs_type@,
                label: label@,
            },
            Effect::CreatePartition { block_device, size_bytes, fs_type, label } =>
                EffectView::CreatePartition {
                block_device: block_device@,
                size_bytes: *size_bytes,
                fs_type: fs_type@,
                label: label@,
            },
            Effect::RejectSize { input } => EffectView::RejectSize { input: input@ },
            Effect::DismissLater { epoch } => EffectView::DismissLater { epoch: *epoch },
            Effect::ScanDrives => EffectView::ScanDrives,
        }
    }
}

// ---------------------------------------------------------------------------
// Application state
// ---------------------------------------------------------------------------

/// Everything the application decides on: what is loaded, selected and open.
pub struct AppState {
    pub context_page: ContextPage,
    /// Whether the context drawer is shown.
    pub show_context: bool,
    pub load_state: LoadState,
    pub selection_state: SelectionState,
    pub active_dialog: ActiveDialog,
    pub config: Config,
    /// Error shown in the top-level banner when nothing is selected.
    pub operation_error: Option<String>,
    /// Incremented on every new error so a stale auto-dismiss timer is ignored.
    pub error_epoch: u64,
}

#[verifier::ext_equal]
pub struct AppStateView {
    pub context_page: ContextPage,
    pub show_context: bool,
    pub load: LoadView,
    pub selection: SelectionView,
    pub dialog: DialogView,
    pub config: Config,
    pub operation_error: Option<Seq<char>>,
    pub error_epoch: u64,
}

impl View for AppState {
    type V = AppStateView;

    open spec fn view(&self) -> AppStateView {
        AppStateView {
            context_page: self.context_page,
            show_context: self.show_context,
            load: self.load_state@,
            selection: self.selection_state@,
            dialog: self.active_dialog@,
            config: self.config,
            operation_error: opt_str_view(self.operation_error),
            error_epoch: self.error_epoch,
        }
    }
}

// ---------------------------------------------------------------------------
// Specification of the transitions
// ---------------------------------------------------------------------------

/// The fstab lookup for a partition.
pub open spec fn query_of(p: BlockDeviceView) -> FstabQueryView {
    FstabQueryView {
        uuid: p.uuid,
        label: p.label,
        device: p.device,
        part_uuid: p.part_uuid,
        part_label: p.part_label,
    }
}

/// The partition context with a new value of its error.
pub open spec fn partition_error_set(s: SelectionView, e: Option<Seq<char>>) -> SelectionView {
    match s {
        SelectionView::Partition(c) => SelectionView::Partition(
            PartitionContextView { operation_error: e, ..c },
        ),
        _ => s,
    }
}

/// The partition context with an operation started: error cleared when `clear`.
pub open spec fn partition_op_started(
    s: SelectionView,
    op: OperationView,
    clear: bool,
) -> SelectionView {
    match s {
        SelectionView::Partition(c) => SelectionView::Partition(
            PartitionContextView {
                operation_in_progress: Some(op),
                operation_error: if clear {
                    None
                } else {
                    c.operation_error
                },
                ..c
            },
        ),
        _ => s,
    }
}

/// The mount options text for a set of flags: the option names of the selected
/// flags, in the order of [`all_flags`], separated by commas.
pub open spec fn mount_options_text(sel: Set<MountFlag>) -> Seq<char> {
    join_texts(selected_names(all_flags(), sel), ","@)
}

/// All mount flags, in display order (`MountFlag::ALL`).
pub open spec fn all_flags() -> Seq<MountFlag> {
    seq![
        MountFlag::ReadOnly,
        MountFlag::NoExec,
        MountFlag::NoSuid,
        MountFlag::NoAtime,
        MountFlag::NoDiratime,
        MountFlag::Sync,
    ]
}

/// The option names of the flags of `fl` that are in `sel`, in order.
pub open spec fn selected_names(fl: Seq<MountFlag>, sel: Set<MountFlag>) -> Seq<Seq<char>>
    decreases fl.len(),
{
    if fl.len() == 0 {
        seq![]
    } else {
        let r = selected_names(fl.drop_last(), sel);
        if sel.contains(fl.last()) {
            r.push(fl.last().option_name())
        } else {
            r
        }
    }
}

/// The first partition, over the drives in order, whose device is `dev`.
pub open spec fn find_partition(drives: Seq<DriveView>, dev: Seq<char>) -> Option<BlockDeviceView>
    decreases drives.len(),
{
    if drives.len() == 0 {
        None
    } else {
        match find_in_partitions(drives[0].partitions, dev) {
            Some(p) => Some(p),
            None => find_partition(drives.drop_first(), dev),
        }
    }
}

/// The first partition of `ps` whose device is `dev`.
pub open spec fn find_in_partitions(ps: Seq<BlockDeviceView>, dev: Seq<char>) -> Option<
    BlockDeviceView,
>
    decreases ps.len(),
{
    if ps.len() == 0 {
        None
    } else if ps[0].device == dev {
        Some(ps[0])
    } else {
        find_in_partitions(ps.drop_first(), dev)
    }
}

/// The whole-disk block device path of the first drive with id `id`; empty if none.
pub open spec fn drive_block_device(drives: Seq<DriveView>, id: Seq<char>) -> Seq<char>
    decreases drives.len(),
{
    if drives.len() == 0 {
        seq![]
    } else if drives[0].id == id {
        drives[0].block_device
    } else {
        drive_block_device(drives.drop_first(), id)
    }
}

/// Whether some drive has id `id`.
pub open spec fn has_drive(drives: Seq<DriveView>, id: Seq<char>) -> bool {
    exists|i: int| 0 <= i < drives.len() && #[trigger] drives[i].id == id
}

/// The selection after a scan: a selected partition is re-pointed at its fresh
/// data with no operation in progress, or cleared if its device disappeared;
/// a selected unallocated region keeps its context with no operation in
/// progress, or is cleared if its drive disappeared.
pub open spec fn rescanned_selection(s: SelectionView, drives: Seq<DriveView>) -> SelectionView {
    match s {
        SelectionView::Partition(c) => match find_partition(drives, c.partition.device) {
            Some(p) => SelectionView::Partition(
                PartitionContextView { partition: p, operation_in_progress: None, ..c },
            ),
            None => SelectionView::Unselected,
        },
        SelectionView::Unallocated(c) => if has_drive(drives, c.drive_id) {
            SelectionView::Unallocated(UnallocatedContextView { operation_in_progress: None, ..c })
        } else {
            SelectionView::Unselected
        },
        SelectionView::Unselected => SelectionView::Unselected,
    }
}

/// The follow-up after a scan: re-read fstab for a still-selected partition.
pub open spec fn rescan_effect(s: SelectionView, drives: Seq<DriveView>) -> EffectView {
    match s {
        SelectionView::Partition(c) => match find_partition(drives, c.partition.device) {
            Some(p) => EffectView::LookupFstab(query_of(p)),
            None => EffectView::Nothing,
        },
        _ => EffectView::Nothing,
    }
}

/// The dialog after a scan: closed if the device it refers to disappeared.
pub open spec fn rescanned_dialog(d: DialogView, drives: Seq<DriveView>) -> DialogView {
    match d {
        DialogView::Mount(m) => if find_partition(drives, m.device) is Some {
            d
        } else {
            DialogView::Closed
        },
        DialogView::Unmount { device, .. } => if find_partition(drives, device) is Some {
            d
        } else {
            DialogView::Closed
        },
        DialogView::Closed => d,
    }
}

/// The state with every shown error cleared.
pub open spec fn errors_cleared(s: AppStateView) -> AppStateView {
    AppStateView {
        operation_error: None,
        selection: match s.selection {
            SelectionView::Partition(c) => SelectionView::Partition(
                PartitionContextView { operation_error: None, ..c },
            ),
            SelectionView::Unallocated(c) => SelectionView::Unallocated(
                UnallocatedContextView { operation_error: None, ..c },
            ),
            SelectionView::Unselected => SelectionView::Unselected,
        },
        ..s
    }
}

/// The size that a create-partition request asks for, given the parsed size:
/// zero (all the free space) when the parsed size is zero or not below the maximum.
pub open spec fn requested_size(parsed: u64, max_bytes: u64) -> u64 {
    if parsed == 0 || parsed >= max_bytes {
        0
    } else {
        parsed
    }
}

/// The next state `post` and the effect `eff` of handling `msg` in state `pre`.
pub open spec fn step(pre: AppStateView, msg: Message, post: AppStateView, eff: EffectView) -> bool {
    match msg {
        Message::LaunchUrl(url) => post == pre && eff == EffectView::OpenUrl(url@),
        Message::ToggleContextPage(page) => eff == EffectView::Nothing && post == AppStateView {
            context_page: page,
            show_context: if pre.context_page == page {
                !pre.show_context
            } else {
                true
            },
            ..pre
        },
        Message::SelectPartition(p) => eff == EffectView::LookupFstab(query_of(p@)) && post
            == AppStateView {
            selection: SelectionView::Partition(
                PartitionContextView {
                    partition: p@,
                    fstab_entry: None,
                    format_panel: None,
                    operation_in_progress: None,
                    operation_error: None,
                },
            ),
            ..pre
        },
        Message::FstabLoaded(entry) => eff == EffectView::Nothing && post == AppStateView {
            selection: match pre.selection {
                SelectionView::Partition(c) => SelectionView::Partition(
                    PartitionContextView { fstab_entry: fstab_opt_view(entry), ..c },
                ),
                s => s,
            },
            ..pre
        },
        Message::SelectUnallocated(id) => eff == EffectView::Nothing && post == AppStateView {
            selection: SelectionView::Unallocated(
                UnallocatedContextView {
                    drive_id: id@,
                    create_panel: None,
                    operation_in_progress: None,
                    operation_error: None,
                },
            ),
            ..pre
        },
        Message::OpenMountDialog { device, prefill_path } => eff == EffectView::Nothing && post
            == AppStateView {
            dialog: DialogView::Mount(
                MountDialogView {
                    device: device@,
                    path: match prefill_path {
                        Some(p) => p@,
                        None => seq![],
                    },
                    show_advanced: false,
                    selected_flags: Set::empty(),
                    add_to_fstab: false,
                    already_in_fstab: pre.selection.has_fstab_entry(),
                },
            ),
            selection: partition_error_set(pre.selection, None),
            ..pre
        },
        Message::MountDialogPathChanged(path) => eff == EffectView::Nothing && post
            == AppStateView {
            dialog: match pre.dialog {
                DialogView::Mount(d) => DialogView::Mount(MountDialogView { path: path@, ..d }),
                d => d,
            },
            ..pre
        },
        Message::ToggleMountDialogAdvanced => eff == EffectView::Nothing && post == AppStateView {
            dialog: match pre.dialog {
                DialogView::Mount(d) => DialogView::Mount(
                    MountDialogView { show_advanced: !d.show_advanced, ..d },
                ),
                d => d,
            },
            ..pre
        },
        Message::ToggleDialogMountFlag(flag) => eff == EffectView::Nothing && post
            == AppStateView {
            dialog: match pre.dialog {
                DialogView::Mount(d) => DialogView::Mount(
                    MountDialogView {
                        selected_flags: if d.selected_flags.contains(flag) {
                            d.selected_flags.remove(flag)
                        } else {
                            d.selected_flags.insert(flag)
                        },
                        ..d
                    },
                ),
                d => d,
            },
            ..pre
        },
        Message::ToggleFstabCheckbox => eff == EffectView::Nothing && post == AppStateView {
            dialog: match pre.dialog {
                DialogView::Mount(d) => if d.already_in_fstab {
                    DialogView::Mount(d)
                } else {
                    DialogView::Mount(MountDialogView { add_to_fstab: !d.add_to_fstab, ..d })
                },
                d => d,
            },
            ..pre
        },
        Message::BrowseMountPath => post == pre && eff == EffectView::PickFolder,
        Message::BrowsePathPicked(path) => eff == EffectView::Nothing && post == AppStateView {
            dialog: match (pre.dialog, path) {
                (DialogView::Mount(d), Some(p)) => DialogView::Mount(
                    MountDialogView { path: p@, ..d },
                ),
                (d, _) => d,
            },
            ..pre
        },
        Message::ConfirmMountDialog => match pre.dialog {
            DialogView::Mount(d) => {
                let path = trim_seq(d.path);
                let options = mount_options_text(d.selected_flags);
                &&& post == AppStateView {
                    dialog: DialogView::Closed,
                    selection: partition_op_started(
                        pre.selection,
                        OperationView::Mounting(d.device),
                        false,
                    ),
                    ..pre
                }
                &&& eff == if path.len() == 0 {
                    EffectView::MountDefault { device: d.device, options }
                } else {
                    EffectView::MountAtPath {
                        device: d.device,
                        path,
                        options,
                        persistent: d.add_to_fstab && !d.already_in_fstab,
                    }
                }
            },
            _ => eff == EffectView::Nothing && post == AppStateView {
                dialog: DialogView::Closed,
                ..pre
            },
        },
        Message::CloseMountDialog => eff == EffectView::Nothing && post == AppStateView {
            dialog: DialogView::Closed,
            ..pre
        },
        Message::OpenUnmountDialog(device, mount_points) => eff == EffectView::Nothing && post
            == AppStateView {
            dialog: DialogView::Unmount {
                device: device@,
                mount_points: crate::disks::strings_view(mount_points@),
            },
            selection: partition_error_set(pre.selection, None),
            ..pre
        },
        Message::ConfirmUnmount => match pre.dialog {
            DialogView::Unmount { device, .. } => eff == EffectView::Unmount { device } && post
                == AppStateView {
                dialog: DialogView::Closed,
                selection: partition_op_started(
                    pre.selection,
                    OperationView::Unmounting(device),
                    true,
                ),
                ..pre
            },
            _ => eff == EffectView::Nothing && post == AppStateView {
                dialog: DialogView::Closed,
                ..pre
            },
        },
        Message::CloseUnmountDialog => eff == EffectView::Nothing && post == AppStateView {
            dialog: DialogView::Closed,
            ..pre
        },
        Message::OpenFormatPanel(device) => eff == EffectView::Nothing && post == AppStateView {
            selection: match pre.selection {
                SelectionView::Partition(c) => SelectionView::Partition(
                    PartitionContextView {
                        format_panel: Some(
                            FormatPanelView {
                                device: device@,
                                fs_type: pre.config.default_fs_type,
                                label: seq![],
                            },
                        ),
                        operation_error: None,
                        ..c
                    },
                ),
                s => s,
            },
            ..pre
        },
        Message::FormatPanelFsChanged(fs) => eff == EffectView::Nothing && post == AppStateView {
            selection: match pre.selection {
                SelectionView::Partition(c) => SelectionView::Partition(
                    PartitionContextView {
                        format_panel: match c.format_panel {
                            Some(f) => Some(FormatPanelView { fs_type: fs, ..f }),
                            None => None,
                        },
                        ..c
                    },
                ),
                s => s,
            },
            ..pre
        },
        Message::FormatPanelLabelChanged(label) => eff == EffectView::Nothing && post
            == AppStateView {
            selection: match pre.selection {
                SelectionView::Partition(c) => SelectionView::Partition(
                    PartitionContextView {
                        format_panel: match c.format_panel {
                            Some(f) => Some(FormatPanelView { label: label@, ..f }),
                            None => None,
                        },
                        ..c
                    },
                ),
                s => s,
            },
            ..pre
        },
        Message::CloseFormatPanel => eff == EffectView::Nothing && post == AppStateView {
            selection: match pre.selection {
                SelectionView::Partition(c) => SelectionView::Partition(
                    PartitionContextView { format_panel: None, ..c },
                ),
                s => s,
            },
            ..pre
        },
        Message::ConfirmFormat => match pre.selection {
            SelectionView::Partition(c) => match c.format_panel {
                Some(f) => {
                    &&& eff == EffectView::Format {
                        device: f.device,
                        fs_type: f.fs_type.name(),
                        label: f.label,
                    }
                    &&& post == AppStateView {
                        selection: SelectionView::Partition(
                            PartitionContextView {
                                format_panel: None,
                                operation_error: None,
                                operation_in_progress: Some(OperationView::Formatting(f.device)),
                                ..c
                            },
                        ),
                        config: Config { default_fs_type: f.fs_type },
                        ..pre
                    }
                },
                None => post == pre && eff == EffectView::Nothing,
            },
            _ => post == pre && eff == EffectView::Nothing,
        },
        Message::OpenCreatePartitionPanel { drive_id, max_bytes } => eff == EffectView::Nothing
            && post == AppStateView {
            selection: match pre.selection {
                SelectionView::Unallocated(c) => SelectionView::Unallocated(
                    UnallocatedContextView {
                        create_panel: Some(
                            CreatePanelView {
                                drive_id: c.drive_id,
                                block_device: match pre.load {
                                    LoadView::Ready(drives) => drive_block_device(
                                        drives,
                                        drive_id@,
                                    ),
                                    _ => seq![],
                                },
                                max_bytes,
                                size_str: byte_size_text(max_bytes),
                                fs_type: pre.config.default_fs_type,
                                label: seq![],
                            },
                        ),
                        operation_error: None,
                        ..c
                    },
                ),
                s => s,
            },
            ..pre
        },
        Message::CreatePartitionSizeChanged(size) => eff == EffectView::Nothing && post
            == AppStateView {
            selection: match pre.selection {
                SelectionView::Unallocated(c) => SelectionView::Unallocated(
                    UnallocatedContextView {
                        create_panel: match c.create_panel {
                            Some(p) => Some(CreatePanelView { size_str: size@, ..p }),
                            None => None,
                        },
                        ..c
                    },
                ),
                s => s,
            },
            ..pre
        },
        Message::CreatePartitionFsChanged(fs) => eff == EffectView::Nothing && post
            == AppStateView {
            selection: match pre.selection {
                SelectionView::Unallocated(c) => SelectionView::Unallocated(
                    UnallocatedContextView {
                        create_panel: match c.create_panel {
                            Some(p) => Some(CreatePanelView { fs_type: fs, ..p }),
                            None => None,
                        },
                        ..c
                    },
                ),
                s => s,
            },
            ..pre
        },
        Message::CreatePartitionLabelChanged(label) => eff == EffectView::Nothing && post
            == AppStateView {
            selection: match pre.selection {
                SelectionView::Unallocated(c) => SelectionView::Unallocated(
                    UnallocatedContextView {
                        create_panel: match c.create_panel {
                            Some(p) => Some(CreatePanelView { label: label@, ..p }),
                            None => None,
                        },
                        ..c
                    },
                ),
                s => s,
            },
            ..pre
        },
        Message::CloseCreatePartitionPanel => eff == EffectView::Nothing && post
            == AppStateView {
            selection: match pre.selection {
                SelectionView::Unallocated(c) => SelectionView::Unallocated(
                    UnallocatedContextView { create_panel: None, ..c },
                ),
                s => s,
            },
            ..pre
        },
        Message::ConfirmCreatePartition => match pre.selection {
            SelectionView::Unallocated(c) => match c.create_panel {
                Some(p) => match parsed_byte_size(trim_seq(p.size_str)) {
                    None => post == pre && eff == EffectView::RejectSize { input: p.size_str },
                    Some(b) => {
                        &&& eff == EffectView::CreatePartition {
                            block_device: p.block_device,
                            size_bytes: requested_size(b, p.max_bytes),
                            fs_type: p.fs_type.name(),
                            label: p.label,
                        }
                        &&& post == AppStateView {
                            selection: SelectionView::Unallocated(
                                UnallocatedContextView {
                                    create_panel: None,
                                    operation_error: None,
                                    operation_in_progress: Some(
                                        OperationView::CreatingPartition { drive_id: p.drive_id },
                                    ),
                                    ..c
                                },
                            ),
                            config: Config { default_fs_type: p.fs_type },
                            ..pre
                        }
                    },
                },
                None => post == pre && eff == EffectView::Nothing,
            },
            _ => post == pre && eff == EffectView::Nothing,
        },
        Message::OperationFailed(e) => {
            &&& eff == EffectView::DismissLater { epoch: (pre.error_epoch + 1) as u64 }
            &&& post == match pre.selection {
                SelectionView::Partition(c) => AppStateView {
                    selection: SelectionView::Partition(
                        PartitionContextView {
                            operation_in_progress: None,
                            operation_error: Some(e@),
                            ..c
                        },
                    ),
                    error_epoch: (pre.error_epoch + 1) as u64,
                    ..pre
                },
                SelectionView::Unallocated(c) => AppStateView {
                    selection: SelectionView::Unallocated(
                        UnallocatedContextView {
                            operation_in_progress: None,
                            operation_error: Some(e@),
                            ..c
                        },
                    ),
                    error_epoch: (pre.error_epoch + 1) as u64,
                    ..pre
                },
                SelectionView::Unselected => AppStateView {
                    operation_error: Some(e@),
                    error_epoch: (pre.error_epoch + 1) as u64,
                    ..pre
                },
            }
        },
        Message::AutoDismissError(epoch) => eff == EffectView::Nothing && post == if epoch
            == pre.error_epoch {
            errors_cleared(pre)
        } else {
            pre
        },
        Message::DismissError => eff == EffectView::Nothing && post == errors_cleared(pre),
        Message::ConfigUpdate(config) => eff == EffectView::Nothing && post == AppStateView {
            config,
            ..pre
        },
        Message::RefreshDisks => post == pre && eff == EffectView::ScanDrives,
        Message::DisksScanned(result) => match result {
            Err(e) => eff == EffectView::Nothing && post == AppStateView {
                load: LoadView::Error(e@),
                ..pre
            },
            Ok(drives) => {
                let d = drives_view(drives@);
                &&& eff == rescan_effect(pre.selection, d)
                &&& post == AppStateView {
                    load: LoadView::Ready(d),
                    selection: rescanned_selection(pre.selection, d),
                    dialog: rescanned_dialog(pre.dialog, d),
                    ..pre
                }
            },
        },
    }
}

} // verus!

verus! {

// ---------------------------------------------------------------------------
// Lookups over scanned drives
// ---------------------------------------------------------------------------

proof fn lemma_find_partition_skip(drives: Seq<DriveView>, dev: Seq<char>, i: int)
    requires
        0 <= i < drives.len(),
    ensures
        find_partition(drives.skip(i), dev) == match find_in_partitions(
            drives[i].partitions,
            dev,
        ) {
            Some(p) => Some(p),
            None => find_partition(drives.skip(i + 1), dev),
        },
{
    let s = drives.skip(i);
    assert(s[0] == drives[i]);
    assert(s.drop_first() =~= drives.skip(i + 1));
}

proof fn lemma_find_in_partitions_skip(ps: Seq<BlockDeviceView>, dev: Seq<char>, j: int)
    requires
        0 <= j < ps.len(),
    ensures
        find_in_partitions(ps.skip(j), dev) == if ps[j].device == dev {
            Some(ps[j])
        } else {
            find_in_partitions(ps.skip(j + 1), dev)
        },
{
    let s = ps.skip(j);
    assert(s[0] == ps[j]);
    assert(s.drop_first() =~= ps.skip(j + 1));
}

/// Position of the first partition over `drives` whose device is `dev`.
fn locate_partition(drives: &Vec<Drive>, dev: &String) -> (r: Option<(usize, usize)>)
    ensures
        match r {
            None => find_partition(drives_view(drives@), dev@) is None,
            Some((i, j)) => {
                &&& i < drives@.len()
                &&& j < drives@[i as int].partitions@.len()
                &&& find_partition(drives_view(drives@), dev@) == Some(
                    drives@[i as int].partitions@[j as int]@,
                )
            },
        },
{
    let ghost dv = drives_view(drives@);
    proof {
        assert(dv.skip(0) =~= dv);
    }
    let mut i: usize = 0;
    while i < drives.len()
        invariant
            i <= drives@.len(),
            dv == drives_view(drives@),
            find_partition(dv, dev@) == find_partition(dv.skip(i as int), dev@),
        decreases drives.len() - i,
    {
        let parts = &drives[i].partitions;
        let ghost pv = blocks_view(parts@);
        proof {
            assert(pv.skip(0) =~= pv);
            assert(dv[i as int].partitions == pv);
        }
        let mut j: usize = 0;
        while j < parts.len()
            invariant
                i < drives@.len(),
                dv == drives_view(drives@),
                find_partition(dv, dev@) == find_partition(dv.skip(i as int), dev@),
                parts@ == drives@[i as int].partitions@,
                dv[i as int].partitions == pv,
                j <= parts@.len(),
                pv == blocks_view(parts@),
                find_in_partitions(pv, dev@) == find_in_partitions(pv.skip(j as int), dev@),
            decreases parts.len() - j,
        {
            proof {
                lemma_find_in_partitions_skip(pv, dev@, j as int);
            }
            if parts[j].device == *dev {
                proof {
                    lemma_find_partition_skip(dv, dev@, i as int);
                }
                return Some((i, j));
            }
            j = j + 1;
        }
        proof {
            assert(pv.skip(j as int) =~= Seq::<BlockDeviceView>::empty());
            lemma_find_partition_skip(dv, dev@, i as int);
        }
        i = i + 1;
    }
    proof {
        assert(dv.skip(i as int) =~= Seq::<DriveView>::empty());
    }
    None
}

/// Whether some drive has id `id`.
fn drive_present(drives: &Vec<Drive>, id: &String) -> (b: bool)
    ensures
        b == has_drive(drives_view(drives@), id@),
{
    let ghost dv = drives_view(drives@);
    let mut i: usize = 0;
    while i < drives.len()
        invariant
            i <= drives@.len(),
            dv == drives_view(drives@),
            forall|k: int| 0 <= k < i ==> dv[k].id != id@,
        decreases drives.len() - i,
    {
        if drives[i].id == *id {
            assert(dv[i as int].id == id@);
            return true;
        }
        i = i + 1;
    }
    false
}

/// The whole-disk block device of the first drive with id `id` (empty if none).
fn block_device_of(drives: &Vec<Drive>, id: &String) -> (s: String)
    ensures
        s@ == drive_block_device(drives_view(drives@), id@),
{
    let ghost dv = drives_view(drives@);
    proof {
        assert(dv.skip(0) =~= dv);
    }
    let mut i: usize = 0;
    while i < drives.len()
        invariant
            i <= drives@.len(),
            dv == drives_view(drives@),
            drive_block_device(dv, id@) == drive_block_device(dv.skip(i as int), id@),
        decreases drives.len() - i,
    {
        proof {
            let s = dv.skip(i as int);
            assert(s[0] == dv[i as int]);
            assert(s.drop_first() =~= dv.skip(i + 1));
        }
        if drives[i].id == *id {
            return drives[i].block_device.clone();
        }
        i = i + 1;
    }
    proof {
        assert(dv.skip(i as int) =~= Seq::<DriveView>::empty());
    }
    String::new()
}

// ---------------------------------------------------------------------------
// Mount flags and options
// ---------------------------------------------------------------------------

proof fn lemma_push_contains<A>(s: Seq<A>, v: A, x: A)
    ensures
        s.push(v).contains(x) <==> (s.contains(x) || x == v),
{
    if s.contains(x) {
        let k = choose|k: int| 0 <= k < s.len() && s[k] == x;
        assert(s.push(v)[k] == x);
    }
    if x == v {
        assert(s.push(v)[s.len() as int] == x);
    }
    if s.push(v).contains(x) {
        let k = choose|k: int| 0 <= k < s.len() + 1 && s.push(v)[k] == x;
        if k < s.len() {
            assert(s[k] == x);
        }
    }
}

/// Whether `flag` occurs in `flags`.
fn has_flag(flags: &Vec<MountFlag>, flag: MountFlag) -> (b: bool)
    ensures
        b == flags@.contains(flag),
{
    let mut i: usize = 0;
    while i < flags.len()
        invariant
            i <= flags@.len(),
            forall|k: int| 0 <= k < i ==> flags@[k] != flag,
        decreases flags.len() - i,
    {
        if flags[i] == flag {
            return true;
        }
        i = i + 1;
    }
    false
}

/// `flags` with `flag` added if it was absent, or removed if it was present.
fn toggled(flags: Vec<MountFlag>, flag: MountFlag) -> (r: Vec<MountFlag>)
    ensures
        r@.to_set() == if flags@.to_set().contains(flag) {
            flags@.to_set().remove(flag)
        } else {
            flags@.to_set().insert(flag)
        },
{
    let mut kept: Vec<MountFlag> = Vec::new();
    let mut found = false;
    let mut i: usize = 0;
    while i < flags.len()
        invariant
            i <= flags@.len(),
            found == flags@.take(i as int).contains(flag),
            forall|x: MountFlag| kept@.contains(x) <==> (flags@.take(i as int).contains(x) && x
                != flag),
        decreases flags.len() - i,
    {
        let f = flags[i];
        proof {
            assert(flags@.take(i + 1) =~= flags@.take(i as int).push(f));
            assert forall|x: MountFlag| #[trigger]
                flags@.take(i + 1).contains(x) <==> (flags@.take(i as int).contains(x) || x
                    == f) by {
                lemma_push_contains(flags@.take(i as int), f, x);
            }
        }
        let ghost old_kept = kept@;
        if f == flag {
            found = true;
        } else {
            kept.push(f);
            proof {
                assert forall|x: MountFlag| #[trigger] kept@.contains(x) <==> (old_kept.contains(x)
                    || x == f) by {
                    lemma_push_contains(old_kept, f, x);
                }
            }
        }
        i = i + 1;
    }
    proof {
        assert(flags@.take(i as int) =~= flags@);
    }
    if found {
        assert(kept@.to_set() =~= flags@.to_set().remove(flag));
        kept
    } else {
        let mut r = flags;
        r.push(flag);
        proof {
            assert forall|x: MountFlag| #[trigger] r@.contains(x) <==> (flags@.contains(x) || x
                == flag) by {
                lemma_push_contains(flags@, flag, x);
            }
        }
        assert(r@.to_set() =~= flags@.to_set().insert(flag));
        r
    }
}

/// The flag at position `i` of [`all_flags`].
fn flag_at(i: usize) -> (f: MountFlag)
    requires
        i < 6,
    ensures
        f == all_flags()[i as int],
{
    if i == 0 {
        MountFlag::ReadOnly
    } else if i == 1 {
        MountFlag::NoExec
    } else if i == 2 {
        MountFlag::NoSuid
    } else if i == 3 {
        MountFlag::NoAtime
    } else if i == 4 {
        MountFlag::NoDiratime
    } else {
        MountFlag::Sync
    }
}

/// The mount options text for the selected flags: their option names in the
/// order of `MountFlag::ALL`, separated by commas.
pub fn mount_options(flags: &Vec<MountFlag>) -> (s: String)
    ensures
        s@ == mount_options_text(flags@.to_set()),
{
    let ghost sel = flags@.to_set();
    let mut s = String::new();
    let mut any = false;
    let mut i: usize = 0;
    proof {
        assert(all_flags().take(0) =~= Seq::<MountFlag>::empty());
        reveal_strlit(",");
    }
    while i < 6
        invariant
            i <= 6,
            sel == flags@.to_set(),
            s@ == join_texts(selected_names(all_flags().take(i as int), sel), ","@),
            any == (selected_names(all_flags().take(i as int), sel).len() > 0),
            ","@ == seq![','],
        decreases 6 - i,
    {
        let f = flag_at(i);
        let ghost before = selected_names(all_flags().take(i as int), sel);
        proof {
            let t = all_flags().take(i + 1);
            assert(t.drop_last() =~= all_flags().take(i as int));
            assert(t.last() == f);
        }
        if has_flag(flags, f) {
            assert(sel.contains(f));
            if any {
                s.append(",");
            }
            s.append(f.as_str());
            any = true;
            proof {
                let after = before.push(f.option_name());
                assert(after.drop_last() =~= before);
                if before.len() == 0 {
                    assert(s@ =~= join_texts(after, ","@));
                }
            }
        }
        i = i + 1;
    }
    proof {
        assert(all_flags().take(6) =~= all_flags());
    }
    s
}

} // verus!

verus! {

impl AppState {
    /// The state at start-up: scanning, nothing selected, no dialog.
    pub fn new(config: Config) -> (s: AppState)
        ensures
            s@ == (AppStateView {
                context_page: ContextPage::About,
                show_context: false,
                load: LoadView::Scanning,
                selection: SelectionView::Unselected,
                dialog: DialogView::Closed,
                config,
                operation_error: None,
                error_epoch: 0,
            }),
    {
        AppState {
            context_page: ContextPage::About,
            show_context: false,
            load_state: LoadState::Scanning,
            selection_state: SelectionState::Unselected,
            active_dialog: ActiveDialog::Closed,
            config,
            operation_error: None,
            error_epoch: 0,
        }
    }

    fn take_selection(&mut self) -> (s: SelectionState)
        ensures
            s == old(self).selection_state,
            final(self)@ == (AppStateView { selection: SelectionView::Unselected, ..old(self)@ }),
    {
        let mut s = SelectionState::Unselected;
        std::mem::swap(&mut s, &mut self.selection_state);
        s
    }

    fn take_dialog(&mut self) -> (d: ActiveDialog)
        ensures
            d == old(self).active_dialog,
            final(self)@ == (AppStateView { dialog: DialogView::Closed, ..old(self)@ }),
    {
        let mut d = ActiveDialog::Closed;
        std::mem::swap(&mut d, &mut self.active_dialog);
        d
    }

    fn toggle_context_page(&mut self, page: ContextPage) -> (e: Effect)
        ensures
            step(old(self)@, Message::ToggleContextPage(page), final(self)@, e@),
    {
        if self.context_page == page {
            self.show_context = !self.show_context;
        } else {
            self.context_page = page;
            self.show_context = true;
        }
        Effect::Nothing
    }

    fn select_partition(&mut self, partition: BlockDevice) -> (e: Effect)
        ensures
            step(old(self)@, Message::SelectPartition(partition), final(self)@, e@),
    {
        let query = FstabQuery {
            uuid: partition.uuid.clone(),
            label: partition.label.clone(),
            device: partition.device.clone(),
            part_uuid: partition.part_uuid.clone(),
            part_label: partition.part_label.clone(),
        };
        self.selection_state = SelectionState::Partition(
            PartitionContext {
                partition,
                fstab_entry: None,
                format_panel: None,
                operation_in_progress: None,
                operation_error: None,
            },
        );
        Effect::LookupFstab(query)
    }

    fn fstab_loaded(&mut self, entry: Option<FstabEntry>) -> (e: Effect)
        ensures
            step(old(self)@, Message::FstabLoaded(entry), final(self)@, e@),
    {
        let sel = self.take_selection();
        match sel {
            SelectionState::Partition(ctx) => {
                self.selection_state = SelectionState::Partition(
                    PartitionContext { fstab_entry: entry, ..ctx },
                );
            },
            other => {
                self.selection_state = other;
            },
        }
        Effect::Nothing
    }

    fn select_unallocated(&mut self, drive_id: String) -> (e: Effect)
        ensures
            step(old(self)@, Message::SelectUnallocated(drive_id), final(self)@, e@),
    {
        self.selection_state = SelectionState::Unallocated(
            UnallocatedContext {
                drive_id,
                create_panel: None,
                operation_in_progress: None,
                operation_error: None,
            },
        );
        Effect::Nothing
    }

    /// Sets the error of the selected partition to `err`.
    fn set_partition_error(&mut self, err: Option<String>)
        ensures
            final(self)@ == (AppStateView {
                selection: partition_error_set(old(self)@.selection, opt_str_view(err)),
                ..old(self)@
            }),
    {
        let sel = self.take_selection();
        match sel {
            SelectionState::Partition(ctx) => {
                self.selection_state = SelectionState::Partition(
                    PartitionContext { operation_error: err, ..ctx },
                );
            },
            other => {
                self.selection_state = other;
            },
        }
    }

    fn open_mount_dialog(&mut self, device: String, prefill_path: Option<String>) -> (e: Effect)
        ensures
            step(
                old(self)@,
                Message::OpenMountDialog { device, prefill_path },
                final(self)@,
                e@,
            ),
    {
        let already_in_fstab = self.selection_state.has_fstab_entry();
        let path = match prefill_path {
            Some(p) => p,
            None => String::new(),
        };
        let dialog = MountLocationDialog {
            device,
            path,
            show_advanced: false,
            selected_flags: Vec::new(),
            add_to_fstab: false,
            already_in_fstab,
        };
        assert(dialog.flag_set() =~= Set::<MountFlag>::empty());
        self.active_dialog = ActiveDialog::Mount(dialog);
        self.set_partition_error(None);
        Effect::Nothing
    }

    fn mount_dialog_path_changed(&mut self, path: String) -> (e: Effect)
        ensures
            step(old(self)@, Message::MountDialogPathChanged(path), final(self)@, e@),
    {
        let d = self.take_dialog();
        match d {
            ActiveDialog::Mount(d) => {
                self.active_dialog = ActiveDialog::Mount(MountLocationDialog { path, ..d });
            },
            other => {
                self.active_dialog = other;
            },
        }
        Effect::Nothing
    }

    fn toggle_mount_dialog_advanced(&mut self) -> (e: Effect)
        ensures
            step(old(self)@, Message::ToggleMountDialogAdvanced, final(self)@, e@),
    {
        let d = self.take_dialog();
        match d {
            ActiveDialog::Mount(d) => {
                let show_advanced = !d.show_advanced;
                self.active_dialog = ActiveDialog::Mount(
                    MountLocationDialog { show_advanced, ..d },
                );
            },
            other => {
                self.active_dialog = other;
            },
        }
        Effect::Nothing
    }

    fn toggle_dialog_mount_flag(&mut self, flag: MountFlag) -> (e: Effect)
        ensures
            step(old(self)@, Message::ToggleDialogMountFlag(flag), final(self)@, e@),
    {
        let d = self.take_dialog();
        match d {
            ActiveDialog::Mount(d) => {
                let MountLocationDialog {
                    device,
                    path,
                    show_advanced,
                    selected_flags,
                    add_to_fstab,
                    already_in_fstab,
                } = d;
                let selected_flags = toggled(selected_flags, flag);
                self.active_dialog = ActiveDialog::Mount(
                    MountLocationDialog {
                        device,
                        path,
                        show_advanced,
                        selected_flags,
                        add_to_fstab,
                        already_in_fstab,
                    },
                );
            },
            other => {
                self.active_dialog = other;
            },
        }
        Effect::Nothing
    }

    fn toggle_fstab_checkbox(&mut self) -> (e: Effect)
        ensures
            step(old(self)@, Message::ToggleFstabCheckbox, final(self)@, e@),
    {
        let d = self.take_dialog();
        match d {
            ActiveDialog::Mount(d) => {
                if !d.already_in_fstab {
                    let add_to_fstab = !d.add_to_fstab;
                    self.active_dialog = ActiveDialog::Mount(
                        MountLocationDialog { add_to_fstab, ..d },
                    );
                } else {
                    self.active_dialog = ActiveDialog::Mount(d);
                }
            },
            other => {
                self.active_dialog = other;
            },
        }
        Effect::Nothing
    }

    fn browse_path_picked(&mut self, path: Option<String>) -> (e: Effect)
        ensures
            step(old(self)@, Message::BrowsePathPicked(path), final(self)@, e@),
    {
        let d = self.take_dialog();
        match (d, path) {
            (ActiveDialog::Mount(d), Some(p)) => {
                self.active_dialog = ActiveDialog::Mount(MountLocationDialog { path: p, ..d });
            },
            (other, _) => {
                self.active_dialog = other;
            },
        }
        Effect::Nothing
    }

    /// Marks the selected partition as busy with `op`; its error is cleared when `clear`.
    fn start_partition_op(&mut self, op: OperationKind, clear: bool)
        ensures
            final(self)@ == (AppStateView {
                selection: partition_op_started(old(self)@.selection, op@, clear),
                ..old(self)@
            }),
    {
        let sel = self.take_selection();
        match sel {
            SelectionState::Partition(ctx) => {
                let operation_error = if clear {
                    None
                } else {
                    ctx.operation_error
                };
                self.selection_state = SelectionState::Partition(
                    PartitionContext {
                        operation_in_progress: Some(op),
                        operation_error,
                        ..ctx
                    },
                );
            },
            other => {
                self.selection_state = other;
            },
        }
    }

    fn confirm_mount_dialog(&mut self) -> (e: Effect)
        ensures
            step(old(self)@, Message::ConfirmMountDialog, final(self)@, e@),
    {
        let d = self.take_dialog();
        match d {
            ActiveDialog::Mount(d) => {
                let mount_path = trim(d.path.as_str());
                let add_to_fstab = d.effective_add_to_fstab();
                let options = mount_options(&d.selected_flags);
                let device = d.device;
                self.start_partition_op(OperationKind::Mounting(device.clone()), false);
                if mount_path.as_str().is_empty() {
                    Effect::MountDefault { device, options }
                } else {
                    Effect::MountAtPath {
                        device,
                        path: mount_path,
                        options,
                        persistent: add_to_fstab,
                    }
                }
            },
            _ => Effect::Nothing,
        }
    }

    fn open_unmount_dialog(&mut self, device: String, mount_points: Vec<String>) -> (e: Effect)
        ensures
            step(old(self)@, Message::OpenUnmountDialog(device, mount_points), final(self)@, e@),
    {
        self.active_dialog = ActiveDialog::Unmount { device, mount_points };
        self.set_partition_error(None);
        Effect::Nothing
    }

    fn confirm_unmount(&mut self) -> (e: Effect)
        ensures
            step(old(self)@, Message::ConfirmUnmount, final(self)@, e@),
    {
        let d = self.take_dialog();
        match d {
            ActiveDialog::Unmount { device, .. } => {
                self.start_partition_op(OperationKind::Unmounting(device.clone()), true);
                Effect::Unmount { device }
            },
            _ => Effect::Nothing,
        }
    }

    fn open_format_panel(&mut self, device: String) -> (e: Effect)
        ensures
            step(old(self)@, Message::OpenFormatPanel(device), final(self)@, e@),
    {
        let fs_type = self.config.default_fs_type;
        let sel = self.take_selection();
        match sel {
            SelectionState::Partition(ctx) => {
                self.selection_state = SelectionState::Partition(
                    PartitionContext {
                        format_panel: Some(FormatPanel { device, fs_type, label: String::new() }),
                        operation_error: None,
                        ..ctx
                    },
                );
            },
            other => {
                self.selection_state = other;
            },
        }
        Effect::Nothing
    }

    fn format_panel_fs_changed(&mut self, fs: FsType) -> (e: Effect)
        ensures
            step(old(self)@, Message::FormatPanelFsChanged(fs), final(self)@, e@),
    {
        let sel = self.take_selection();
        match sel {
            SelectionState::Partition(ctx) => {
                let format_panel = match ctx.format_panel {
                    Some(fp) => Some(FormatPanel { fs_type: fs, ..fp }),
                    None => None,
                };
                self.selection_state = SelectionState::Partition(
                    PartitionContext { format_panel, ..ctx },
                );
            },
            other => {
                self.selection_state = other;
            },
        }
        Effect::Nothing
    }

    fn format_panel_label_changed(&mut self, label: String) -> (e: Effect)
        ensures
            step(old(self)@, Message::FormatPanelLabelChanged(label), final(self)@, e@),
    {
        let sel = self.take_selection();
        match sel {
            SelectionState::Partition(ctx) => {
                let format_panel = match ctx.format_panel {
                    Some(fp) => Some(FormatPanel { label, ..fp }),
                    None => None,
                };
                self.selection_state = SelectionState::Partition(
                    PartitionContext { format_panel, ..ctx },
                );
            },
            other => {
                self.selection_state = other;
            },
        }
        Effect::Nothing
    }

    fn close_format_panel(&mut self) -> (e: Effect)
        ensures
            step(old(self)@, Message::CloseFormatPanel, final(self)@, e@),
    {
        let sel = self.take_selection();
        match sel {
            SelectionState::Partition(ctx) => {
                self.selection_state = SelectionState::Partition(
                    PartitionContext { format_panel: None, ..ctx },
                );
            },
            other => {
                self.selection_state = other;
            },
        }
        Effect::Nothing
    }

    fn confirm_format(&mut self) -> (e: Effect)
        ensures
            step(old(self)@, Message::ConfirmFormat, final(self)@, e@),
    {
        let sel = self.take_selection();
        match sel {
            SelectionState::Partition(ctx) => {
                let PartitionContext {
                    partition,
                    fstab_entry,
                    format_panel,
                    operation_in_progress,
                    operation_error,
                } = ctx;
                match format_panel {
                    Some(fp) => {
                        let FormatPanel { device, fs_type, label } = fp;
                        let fs_type_str = fs_type.as_str().to_owned();
                        self.selection_state = SelectionState::Partition(
                            PartitionContext {
                                partition,
                                fstab_entry,
                                format_panel: None,
                                operation_in_progress: Some(
                                    OperationKind::Formatting(device.clone()),
                                ),
                                operation_error: None,
                            },
                        );
                        self.config.default_fs_type = fs_type;
                        Effect::Format { device, fs_type: fs_type_str, label }
                    },
                    None => {
                        self.selection_state = SelectionState::Partition(
                            PartitionContext {
                                partition,
                                fstab_entry,
                                format_panel: None,
                                operation_in_progress,
                                operation_error,
                            },
                        );
                        Effect::Nothing
                    },
                }
            },
            other => {
                self.selection_state = other;
                Effect::Nothing
            },
        }
    }
}

} // verus!

verus! {

impl AppState {
    fn open_create_partition_panel(&mut self, drive_id: String, max_bytes: u64) -> (e: Effect)
        ensures
            step(
                old(self)@,
                Message::OpenCreatePartitionPanel { drive_id, max_bytes },
                final(self)@,
                e@,
            ),
    {
        let block_device = match &self.load_state {
            LoadState::Ready(drives) => block_device_of(drives, &drive_id),
            _ => String::new(),
        };
        let fs_type = self.config.default_fs_type;
        let sel = self.take_selection();
        match sel {
            SelectionState::Unallocated(ctx) => {
                let panel = CreatePartitionPanel {
                    block_device,
                    size_str: byte_size_string(max_bytes),
                    drive_id: ctx.drive_id.clone(),
                    max_bytes,
                    fs_type,
                    label: String::new(),
                };
                self.selection_state = SelectionState::Unallocated(
                    UnallocatedContext { create_panel: Some(panel), operation_error: None, ..ctx },
                );
            },
            other => {
                self.selection_state = other;
            },
        }
        Effect::Nothing
    }

    fn create_partition_size_changed(&mut self, size: String) -> (e: Effect)
        ensures
            step(old(self)@, Message::CreatePartitionSizeChanged(size), final(self)@, e@),
    {
        let sel = self.take_selection();
        match sel {
            SelectionState::Unallocated(ctx) => {
                let create_panel = match ctx.create_panel {
                    Some(p) => Some(CreatePartitionPanel { size_str: size, ..p }),
                    None => None,
                };
                self.selection_state = SelectionState::Unallocated(
                    UnallocatedContext { create_panel, ..ctx },
                );
            },
            other => {
                self.selection_state = other;
            },
        }
        Effect::Nothing
    }

    fn create_partition_fs_changed(&mut self, fs: FsType) -> (e: Effect)
        ensures
            step(old(self)@, Message::CreatePartitionFsChanged(fs), final(self)@, e@),
    {
        let sel = self.take_selection();
        match sel {
            SelectionState::Unallocated(ctx) => {
                let create_panel = match ctx.create_panel {
                    Some(p) => Some(CreatePartitionPanel { fs_type: fs, ..p }),
                    None => None,
                };
                self.selection_state = SelectionState::Unallocated(
                    UnallocatedContext { create_panel, ..ctx },
                );
            },
            other => {
                self.selection_state = other;
            },
        }
        Effect::Nothing
    }

    fn create_partition_label_changed(&mut self, label: String) -> (e: Effect)
        ensures
            step(old(self)@, Message::CreatePartitionLabelChanged(label), final(self)@, e@),
    {
        let sel = self.take_selection();
        match sel {
            SelectionState::Unallocated(ctx) => {
                let create_panel = match ctx.create_panel {
                    Some(p) => Some(CreatePartitionPanel { label, ..p }),
                    None => None,
                };
                self.selection_state = SelectionState::Unallocated(
                    UnallocatedContext { create_panel, ..ctx },
                );
            },
            other => {
                self.selection_state = other;
            },
        }
        Effect::Nothing
    }

    fn close_create_partition_panel(&mut self) -> (e: Effect)
        ensures
            step(old(self)@, Message::CloseCreatePartitionPanel, final(self)@, e@),
    {
        let sel = self.take_selection();
        match sel {
            SelectionState::Unallocated(ctx) => {
                self.selection_state = SelectionState::Unallocated(
                    UnallocatedContext { create_panel: None, ..ctx },
                );
            },
            other => {
                self.selection_state = other;
            },
        }
        Effect::Nothing
    }

    fn confirm_create_partition(&mut self) -> (e: Effect)
        ensures
            step(old(self)@, Message::ConfirmCreatePartition, final(self)@, e@),
    {
        let sel = self.take_selection();
        match sel {
            SelectionState::Unallocated(ctx) => {
                let UnallocatedContext {
                    drive_id,
                    create_panel,
                    operation_in_progress,
                    operation_error,
                } = ctx;
                match create_panel {
                    Some(panel) => {
                        let trimmed = trim(panel.size_str.as_str());
                        match parse_byte_size(trimmed.as_str()) {
                            None => {
                                let input = panel.size_str.clone();
                                self.selection_state = SelectionState::Unallocated(
                                    UnallocatedContext {
                                        drive_id,
                                        create_panel: Some(panel),
                                        operation_in_progress,
                                        operation_error,
                                    },
                                );
                                Effect::RejectSize { input }
                            },
                            Some(b) => {
                                let size_bytes = if b == 0 || b >= panel.max_bytes {
                                    0u64
                                } else {
                                    b
                                };
                                let CreatePartitionPanel {
                                    drive_id: panel_drive,
                                    block_device,
                                    fs_type,
                                    label,
                                    ..
                                } = panel;
                                let fs_type_str = fs_type.as_str().to_owned();
                                self.selection_state = SelectionState::Unallocated(
                                    UnallocatedContext {
                                        drive_id,
                                        create_panel: None,
                                        operation_in_progress: Some(
                                            OperationKind::CreatingPartition {
                                                drive_id: panel_drive,
                                            },
                                        ),
                                        operation_error: None,
                                    },
                                );
                                self.config.default_fs_type = fs_type;
                                Effect::CreatePartition {
                                    block_device,
                                    size_bytes,
                                    fs_type: fs_type_str,
                                    label,
                                }
                            },
                        }
                    },
                    None => {
                        self.selection_state = SelectionState::Unallocated(
                            UnallocatedContext {
                                drive_id,
                                create_panel: None,
                                operation_in_progress,
                                operation_error,
                            },
                        );
                        Effect::Nothing
                    },
                }
            },
            other => {
                self.selection_state = other;
                Effect::Nothing
            },
        }
    }

    fn operation_failed(&mut self, err: String) -> (e: Effect)
        requires
            old(self).error_epoch < u64::MAX,
        ensures
            step(old(self)@, Message::OperationFailed(err), final(self)@, e@),
    {
        let sel = self.take_selection();
        match sel {
            SelectionState::Partition(ctx) => {
                self.selection_state = SelectionState::Partition(
                    PartitionContext {
                        operation_in_progress: None,
                        operation_error: Some(err),
                        ..ctx
                    },
                );
            },
            SelectionState::Unallocated(ctx) => {
                self.selection_state = SelectionState::Unallocated(
                    UnallocatedContext {
                        operation_in_progress: None,
                        operation_error: Some(err),
                        ..ctx
                    },
                );
            },
            SelectionState::Unselected => {
                self.operation_error = Some(err);
            },
        }
        self.error_epoch = self.error_epoch + 1;
        Effect::DismissLater { epoch: self.error_epoch }
    }

    /// Clears the top-level error and the error of the selected context.
    fn clear_errors(&mut self)
        ensures
            final(self)@ == errors_cleared(old(self)@),
    {
        self.operation_error = None;
        let sel = self.take_selection();
        match sel {
            SelectionState::Partition(ctx) => {
                self.selection_state = SelectionState::Partition(
                    PartitionContext { operation_error: None, ..ctx },
                );
            },
            SelectionState::Unallocated(ctx) => {
                self.selection_state = SelectionState::Unallocated(
                    UnallocatedContext { operation_error: None, ..ctx },
                );
            },
            SelectionState::Unselected => {
                self.selection_state = SelectionState::Unselected;
            },
        }
    }

    /// Re-points the selection at freshly scanned data, or clears it if the
    /// selected partition or drive no longer exists; asks for an fstab
    /// re-check of a still-selected partition.
    fn recompute_selection(&mut self, drives: &Vec<Drive>) -> (e: Effect)
        ensures
            e@ == rescan_effect(old(self)@.selection, drives_view(drives@)),
            final(self)@ == (AppStateView {
                selection: rescanned_selection(old(self)@.selection, drives_view(drives@)),
                ..old(self)@
            }),
    {
        let sel = self.take_selection();
        match sel {
            SelectionState::Partition(ctx) => {
                match locate_partition(drives, &ctx.partition.device) {
                    Some((i, j)) => {
                        let p = drives[i].partitions[j].clone();
                        let query = FstabQuery {
                            uuid: p.uuid.clone(),
                            label: p.label.clone(),
                            device: p.device.clone(),
                            part_uuid: p.part_uuid.clone(),
                            part_label: p.part_label.clone(),
                        };
                        self.selection_state = SelectionState::Partition(
                            PartitionContext {
                                partition: p,
                                operation_in_progress: None,
                                ..ctx
                            },
                        );
                        Effect::LookupFstab(query)
                    },
                    None => Effect::Nothing,
                }
            },
            SelectionState::Unallocated(ctx) => {
                if drive_present(drives, &ctx.drive_id) {
                    self.selection_state = SelectionState::Unallocated(
                        UnallocatedContext { operation_in_progress: None, ..ctx },
                    );
                }
                Effect::Nothing
            },
            SelectionState::Unselected => Effect::Nothing,
        }
    }

    /// Closes an open dialog if the device it refers to disappeared from the scan.
    fn recompute_dialog(&mut self, drives: &Vec<Drive>)
        ensures
            final(self)@ == (AppStateView {
                dialog: rescanned_dialog(old(self)@.dialog, drives_view(drives@)),
                ..old(self)@
            }),
    {
        let still_exists = match &self.active_dialog {
            ActiveDialog::Mount(d) => locate_partition(drives, &d.device).is_some(),
            ActiveDialog::Unmount { device, .. } => locate_partition(drives, device).is_some(),
            ActiveDialog::Closed => true,
        };
        if !still_exists {
            self.active_dialog = ActiveDialog::Closed;
        }
    }

    fn disks_scanned(&mut self, result: Result<Vec<Drive>, String>) -> (e: Effect)
        ensures
            step(old(self)@, Message::DisksScanned(result), final(self)@, e@),
    {
        match result {
            Err(err) => {
                self.load_state = LoadState::Error(err);
                Effect::Nothing
            },
            Ok(drives) => {
                let followup = self.recompute_selection(&drives);
                self.recompute_dialog(&drives);
                self.load_state = LoadState::Ready(drives);
                followup
            },
        }
    }

    /// Shows `err` as the error of the selected partition or unallocated region
    /// (the translated message for an [`Effect::RejectSize`]).
    pub fn set_selection_error(&mut self, err: String)
        ensures
            final(self)@ == (AppStateView {
                selection: match old(self)@.selection {
                    SelectionView::Partition(c) => SelectionView::Partition(
                        PartitionContextView { operation_error: Some(err@), ..c },
                    ),
                    SelectionView::Unallocated(c) => SelectionView::Unallocated(
                        UnallocatedContextView { operation_error: Some(err@), ..c },
                    ),
                    SelectionView::Unselected => SelectionView::Unselected,
                },
                ..old(self)@
            }),
    {
        let sel = self.take_selection();
        match sel {
            SelectionState::Partition(ctx) => {
                self.selection_state = SelectionState::Partition(
                    PartitionContext { operation_error: Some(err), ..ctx },
                );
            },
            SelectionState::Unallocated(ctx) => {
                self.selection_state = SelectionState::Unallocated(
                    UnallocatedContext { operation_error: Some(err), ..ctx },
                );
            },
            SelectionState::Unselected => {},
        }
    }

    /// Handles one message: updates the state and returns the outside work to perform.
    pub fn handle(&mut self, message: Message) -> (e: Effect)
        requires
            message is OperationFailed ==> old(self).error_epoch < u64::MAX,
        ensures
            step(old(self)@, message, final(self)@, e@),
    {
        match message {
            Message::LaunchUrl(url) => Effect::OpenUrl(url),
            Message::ToggleContextPage(page) => self.toggle_context_page(page),
            Message::SelectPartition(partition) => self.select_partition(partition),
            Message::FstabLoaded(entry) => self.fstab_loaded(entry),
            Message::SelectUnallocated(drive_id) => self.select_unallocated(drive_id),
            Message::OpenMountDialog { device, prefill_path } => self.open_mount_dialog(
                device,
                prefill_path,
            ),
            Message::MountDialogPathChanged(path) => self.mount_dialog_path_changed(path),
            Message::ToggleMountDialogAdvanced => self.toggle_mount_dialog_advanced(),
            Message::ToggleDialogMountFlag(flag) => self.toggle_dialog_mount_flag(flag),
            Message::ToggleFstabCheckbox => self.toggle_fstab_checkbox(),
            Message::BrowseMountPath => Effect::PickFolder,
            Message::BrowsePathPicked(path) => self.browse_path_picked(path),
            Message::ConfirmMountDialog => self.confirm_mount_dialog(),
            Message::CloseMountDialog => {
                self.active_dialog = ActiveDialog::Closed;
                Effect::Nothing
            },
            Message::OpenUnmountDialog(device, mount_points) => self.open_unmount_dialog(
                device,
                mount_points,
            ),
            Message::ConfirmUnmount => self.confirm_unmount(),
            Message::CloseUnmountDialog => {
                self.active_dialog = ActiveDialog::Closed;
                Effect::Nothing
            },
            Message::OpenFormatPanel(device) => self.open_format_panel(device),
            Message::FormatPanelFsChanged(fs) => self.format_panel_fs_changed(fs),
            Message::FormatPanelLabelChanged(label) => self.format_panel_label_changed(label),
            Message::CloseFormatPanel => self.close_format_panel(),
            Message::ConfirmFormat => self.confirm_format(),
            Message::OpenCreatePartitionPanel { drive_id, max_bytes } =>
                self.open_create_partition_panel(drive_id, max_bytes),
            Message::CreatePartitionSizeChanged(size) => self.create_partition_size_changed(size),
            Message::CreatePartitionFsChanged(fs) => self.create_partition_fs_changed(fs),
            Message::CreatePartitionLabelChanged(label) => self.create_partition_label_changed(
                label,
            ),
            Message::CloseCreatePartitionPanel => self.close_create_partition_panel(),
            Message::ConfirmCreatePartition => self.confirm_create_partition(),
            Message::OperationFailed(err) => self.operation_failed(err),
            Message::AutoDismissError(epoch) => {
                if epoch == self.error_epoch {
                    self.clear_errors();
                }
                Effect::Nothing
            },
            Message::DismissError => {
                self.clear_errors();
                Effect::Nothing
            },
            Message::ConfigUpdate(config) => {
                self.config = config;
                Effect::Nothing
            },
            Message::RefreshDisks => Effect::ScanDrives,
            Message::DisksScanned(result) => self.disks_scanned(result),
        }
    }
}

} // verus!

verus! {

// ---------------------------------------------------------------------------
// Laws of the state machine
// ---------------------------------------------------------------------------

/// A failure `err` is shown in exactly one place of `post`: in the selected
/// context (with its operation finished, the banner untouched) when there is a
/// selection, otherwise in the banner; the selection itself stays.
pub open spec fn failure_shown(pre: AppStateView, err: Seq<char>, post: AppStateView) -> bool {
    &&& match post.selection {
        SelectionView::Partition(c) => c.operation_error == Some(err)
            && c.operation_in_progress is None && post.operation_error == pre.operation_error,
        SelectionView::Unallocated(c) => c.operation_error == Some(err)
            && c.operation_in_progress is None && post.operation_error == pre.operation_error,
        SelectionView::Unselected => post.operation_error == Some(err),
    }
    &&& (pre.selection is Unselected <==> post.selection is Unselected)
}

/// `err` is shown: in the banner or as the error of the selected context.
pub open spec fn error_shown(s: AppStateView, err: Seq<char>) -> bool {
    ||| s.operation_error == Some(err)
    ||| (s.selection matches SelectionView::Partition(c) && c.operation_error == Some(err))
    ||| (s.selection matches SelectionView::Unallocated(c) && c.operation_error == Some(err))
}

/// An open mount dialog never asks for an fstab entry for a partition that
/// already had one when the dialog opened.
pub open spec fn fstab_choice_consistent(s: AppStateView) -> bool {
    s.dialog matches DialogView::Mount(d) ==> (d.already_in_fstab ==> !d.add_to_fstab)
}

/// No error is shown, neither in the banner nor in the selected context.
pub open spec fn no_error_shown(s: AppStateView) -> bool {
    &&& s.operation_error is None
    &&& match s.selection {
        SelectionView::Partition(c) => c.operation_error is None,
        SelectionView::Unallocated(c) => c.operation_error is None,
        SelectionView::Unselected => true,
    }
}

/// Whether an effect writes an fstab entry.
pub open spec fn writes_fstab(eff: EffectView) -> bool {
    eff matches EffectView::MountAtPath { persistent, .. } && persistent
}

/// A partition-creation effect asks for all the space (zero) or less than `max_bytes`.
pub open spec fn size_fits(eff: EffectView, max_bytes: u64) -> bool {
    eff matches EffectView::CreatePartition { size_bytes, .. } ==> size_bytes == 0 || size_bytes
        < max_bytes
}

/// The selection refers to a partition or drive present in `drives`.
pub open spec fn selection_found_in(s: SelectionView, drives: Seq<DriveView>) -> bool {
    match s {
        SelectionView::Partition(c) => find_partition(drives, c.partition.device) == Some(
            c.partition,
        ) && c.operation_in_progress is None,
        SelectionView::Unallocated(c) => has_drive(drives, c.drive_id),
        SelectionView::Unselected => true,
    }
}

/// An open dialog refers to a device present in `drives`.
pub open spec fn dialog_found_in(d: DialogView, drives: Seq<DriveView>) -> bool {
    match d {
        DialogView::Mount(m) => find_partition(drives, m.device) is Some,
        DialogView::Unmount { device, .. } => find_partition(drives, device) is Some,
        DialogView::Closed => true,
    }
}

/// An auto-dismiss timer from an earlier error changes nothing: a stale timer
/// cannot dismiss a newer error.
pub proof fn lemma_stale_dismiss_is_ignored(
    pre: AppStateView,
    epoch: u64,
    post: AppStateView,
    eff: EffectView,
)
    requires
        step(pre, Message::AutoDismissError(epoch), post, eff),
        epoch != pre.error_epoch,
    ensures
        post == pre,
        eff == EffectView::Nothing,
{
}

/// The error epoch never decreases, and it grows by one exactly on a failed operation.
pub proof fn lemma_error_epoch_monotone(
    pre: AppStateView,
    msg: Message,
    post: AppStateView,
    eff: EffectView,
)
    requires
        step(pre, msg, post, eff),
        (msg is OperationFailed ==> pre.error_epoch < u64::MAX),
    ensures
        post.error_epoch >= pre.error_epoch,
        post.error_epoch == (if msg is OperationFailed {
            pre.error_epoch + 1
        } else {
            pre.error_epoch as int
        }),
{
}

/// A failed operation's error is never discarded, whatever came before it
/// (refreshes, rescans, new selections): it is shown in exactly one place,
/// inside the selected card when a selection exists, otherwise in the
/// top-level banner; and the timer that will dismiss it carries the new epoch.
pub proof fn lemma_failure_shown_once(
    pre: AppStateView,
    err: String,
    post: AppStateView,
    eff: EffectView,
)
    requires
        step(pre, Message::OperationFailed(err), post, eff),
        pre.error_epoch < u64::MAX,
    ensures
        eff == (EffectView::DismissLater { epoch: post.error_epoch }),
        failure_shown(pre, err@, post),
        error_shown(post, err@),
{
}

/// Every transition keeps the mount dialog's fstab choice consistent: once a
/// partition was in fstab when the dialog opened, the dialog never asks for a
/// new entry.  The state at start-up has no dialog, so this holds of every
/// state the application reaches.
pub proof fn lemma_fstab_choice_kept(
    pre: AppStateView,
    msg: Message,
    post: AppStateView,
    eff: EffectView,
)
    requires
        fstab_choice_consistent(pre),
        step(pre, msg, post, eff),
    ensures
        fstab_choice_consistent(post),
        !(pre.dialog matches DialogView::Mount(d) && d.already_in_fstab && writes_fstab(eff)),
{
}

/// Dismissing clears every error shown, and the current epoch's timer does the same.
pub proof fn lemma_dismiss_clears_errors(
    pre: AppStateView,
    msg: Message,
    post: AppStateView,
    eff: EffectView,
)
    requires
        step(pre, msg, post, eff),
        (msg is DismissError || msg == Message::AutoDismissError(pre.error_epoch)),
    ensures
        no_error_shown(post),
{
}

/// A refresh keeps the current view, selection and any open dialog while the scan runs.
pub proof fn lemma_refresh_keeps_state(pre: AppStateView, post: AppStateView, eff: EffectView)
    requires
        step(pre, Message::RefreshDisks, post, eff),
    ensures
        post == pre,
        eff == EffectView::ScanDrives,
{
}

/// When the partition is already in fstab, confirming the mount dialog never
/// writes an fstab entry, and the checkbox cannot be toggled.
pub proof fn lemma_no_second_fstab_entry(
    pre: AppStateView,
    msg: Message,
    post: AppStateView,
    eff: EffectView,
    d: MountDialogView,
)
    requires
        pre.dialog == DialogView::Mount(d),
        d.already_in_fstab,
        (msg is ConfirmMountDialog || msg is ToggleFstabCheckbox),
        step(pre, msg, post, eff),
    ensures
        !writes_fstab(eff),
        (msg is ToggleFstabCheckbox ==> post == pre),
{
}

/// Opening the mount dialog snapshots whether the selected partition has an fstab entry.
pub proof fn lemma_mount_dialog_snapshot(
    pre: AppStateView,
    device: String,
    prefill_path: Option<String>,
    post: AppStateView,
    eff: EffectView,
)
    requires
        step(pre, Message::OpenMountDialog { device, prefill_path }, post, eff),
    ensures
        post.dialog == DialogView::Mount(
            MountDialogView {
                device: device@,
                path: match prefill_path {
                    Some(p) => p@,
                    None => seq![],
                },
                show_advanced: false,
                selected_flags: Set::empty(),
                add_to_fstab: false,
                already_in_fstab: pre.selection.has_fstab_entry(),
            },
        ),
{
}

/// Toggling the same mount flag twice gives back the same dialog.
pub proof fn lemma_toggle_flag_twice(
    s0: AppStateView,
    flag: MountFlag,
    s1: AppStateView,
    e1: EffectView,
    s2: AppStateView,
    e2: EffectView,
)
    requires
        step(s0, Message::ToggleDialogMountFlag(flag), s1, e1),
        step(s1, Message::ToggleDialogMountFlag(flag), s2, e2),
    ensures
        s2 == s0,
{
    if let DialogView::Mount(d) = s0.dialog {
        let once = if d.selected_flags.contains(flag) {
            d.selected_flags.remove(flag)
        } else {
            d.selected_flags.insert(flag)
        };
        let twice = if once.contains(flag) {
            once.remove(flag)
        } else {
            once.insert(flag)
        };
        assert(twice =~= d.selected_flags);
    }
}

/// Confirming either dialog closes it.
pub proof fn lemma_confirm_closes_dialog(
    pre: AppStateView,
    msg: Message,
    post: AppStateView,
    eff: EffectView,
)
    requires
        (msg is ConfirmMountDialog || msg is ConfirmUnmount),
        step(pre, msg, post, eff),
    ensures
        post.dialog == DialogView::Closed,
{
}

/// A partition is created with all the free space (size zero) or with a size
/// strictly below the free space.
pub proof fn lemma_created_size_fits(
    pre: AppStateView,
    post: AppStateView,
    eff: EffectView,
    c: UnallocatedContextView,
    p: CreatePanelView,
)
    requires
        pre.selection == SelectionView::Unallocated(c),
        c.create_panel == Some(p),
        step(pre, Message::ConfirmCreatePartition, post, eff),
    ensures
        size_fits(eff, p.max_bytes),
{
}

/// After a successful scan the selection and the dialog refer only to what the
/// scan found: a selected partition is the first one found with its device, a
/// selected region's drive exists, and an open dialog's device exists.
pub proof fn lemma_scan_reconciles(
    pre: AppStateView,
    drives: Vec<Drive>,
    post: AppStateView,
    eff: EffectView,
)
    requires
        step(pre, Message::DisksScanned(Ok(drives)), post, eff),
    ensures
        post.load == LoadView::Ready(drives_view(drives@)),
        selection_found_in(post.selection, drives_view(drives@)),
        dialog_found_in(post.dialog, drives_view(drives@)),
{
    let d = drives_view(drives@);
    if let SelectionView::Partition(c) = pre.selection {
        if let Some(p) = find_partition(d, c.partition.device) {
            lemma_find_partition_device(d, c.partition.device);
            assert(p.device == c.partition.device);
        }
    }
}

/// The partition found for a device has that device.
pub proof fn lemma_find_partition_device(drives: Seq<DriveView>, dev: Seq<char>)
    ensures
        (find_partition(drives, dev) matches Some(p) ==> p.device == dev),
    decreases drives.len(),
{
    if drives.len() > 0 {
        lemma_find_in_partitions_device(drives[0].partitions, dev);
        lemma_find_partition_device(drives.drop_first(), dev);
    }
}

/// The partition found in a list for a device has that device.
pub proof fn lemma_find_in_partitions_device(ps: Seq<BlockDeviceView>, dev: Seq<char>)
    ensures
        (find_in_partitions(ps, dev) matches Some(p) ==> p.device == dev),
    decreases ps.len(),
{
    if ps.len() > 0 {
        lemma_find_in_partitions_device(ps.drop_first(), dev);
    }
}

} // verus!

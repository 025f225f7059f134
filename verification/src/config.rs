//! Persisted user preferences.

use vstd::prelude::*;

use crate::message::FsType;

verus! {

pub const CONFIG_VERSION: u64 = 1;

/// Persisted user preferences. Fields are stored individually by key name.
#[derive(Clone, Copy, Debug, PartialEq, Eq, Structural)]
pub struct Config {
    pub default_fs_type: FsType,
}

impl Default for Config {
    fn default() -> (c: Self)
        ensures
            c.default_fs_type == FsType::Ext4,
    {
        Config { default_fs_type: FsType::Ext4 }
    }
}

} // verus!

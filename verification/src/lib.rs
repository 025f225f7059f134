//! Disk and partition management logic: drive assembly from udisks2 data,
//! `/etc/fstab` matching, mount-path validation and the application's
//! selection / dialog state machine.

pub mod cli;
pub mod config;
pub mod disks;
pub mod encoding;
pub mod message;
pub mod portal;
pub mod scan;
pub mod sizes;
pub mod state;
pub mod text;
pub mod ui;
pub mod volumes;
pub mod watch;

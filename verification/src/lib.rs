//! Decisions and data of a device manager for handheld gaming hardware.
//!
//! The library decides; it does not read, write or send. Its functions take what was read and
//! give what to write, which program to run or what to answer.

use vstd::prelude::*;

pub mod appid;
pub mod cec;
pub mod ctl;
pub mod daemon;
pub mod ds_inhibit;
pub mod error;
pub mod hardware;
pub mod job;
pub mod manager;
pub mod number;
pub mod platform;
pub mod power;
pub mod process;
pub mod service;
pub mod sls;
pub mod systemd;
pub mod text;
pub mod thread;
pub mod udev;
pub mod wifi;

pub use crate::appid::{get_appid, read_comm};
pub use crate::daemon::config::read_config_directory;

verus! {

/// The version of the interfaces on the bus.
pub const API_VERSION: u32 = 9;

/// The place of a file of the system: the root of the file system is the system's own.
pub fn path(file: &str) -> (r: String)
    ensures
        r@ == file@,
{
    file.to_owned()
}

} // verus!

//! The daemon of a user's session.

use vstd::prelude::*;

verus! {

/// The name of the directory of the user's configuration below that of all programs.
pub const USER_CONFIG_NAME: &'static str = "steamos-manager";

/// The directory of the configuration that comes with the system.
pub const SYSTEM_CONFIG_PATH: &'static str = "/usr/share/steamos-manager/user.d";

} // verus!

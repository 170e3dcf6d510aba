//! What a platform offers, as its configuration says.

use vstd::prelude::*;

use crate::text::texts;

verus! {

/// The configuration of a platform; what is `None` the platform does not offer.
#[derive(Clone, Debug)]
pub struct PlatformConfig {
    pub factory_reset: Option<ResetConfig>,
    pub update_bios: Option<ScriptConfig>,
    pub update_dock: Option<ScriptConfig>,
    pub storage: Option<StorageConfig>,
    pub fan_control: Option<ServiceConfig>,
    pub tdp_limit: Option<RangeConfig<u32>>,
    pub gpu_clocks: Option<RangeConfig<u32>>,
    pub battery_charge_limit: Option<BatteryChargeLimitConfig>,
}

/// The least and the greatest value of a setting.
#[derive(Clone, Copy, Debug)]
pub struct RangeConfig<T: Clone> {
    pub min: T,
    pub max: T,
}

/// A program and its arguments.
#[derive(Clone, Debug)]
pub struct ScriptConfig {
    pub script: String,
    pub script_args: Vec<String>,
}

impl View for ScriptConfig {
    type V = (Seq<char>, Seq<Seq<char>>);

    open spec fn view(&self) -> (Seq<char>, Seq<Seq<char>>) {
        (self.script@, texts(self.script_args@))
    }
}

/// The programs that prepare the factory resets.
#[derive(Clone, Debug)]
pub struct ResetConfig {
    pub all: ScriptConfig,
    pub os: ScriptConfig,
    pub user: ScriptConfig,
}

/// Something that runs in the background: a unit of systemd, or three programs.
#[derive(Clone, Debug)]
pub enum ServiceConfig {
    Systemd(String),
    Script { start: ScriptConfig, stop: ScriptConfig, status: ScriptConfig },
}

/// The programs for storage devices.
#[derive(Clone, Debug)]
pub struct StorageConfig {
    pub trim_devices: ScriptConfig,
    pub format_device: FormatDeviceConfig,
}

/// Where the charge limit of the battery is set.
#[derive(Clone, Debug)]
pub struct BatteryChargeLimitConfig {
    pub suggested_minimum_limit: Option<i32>,
    pub hwmon_name: String,
    pub attribute: String,
}

/// The program that formats a device, and the flags that it takes.
#[derive(Clone, Debug)]
pub struct FormatDeviceConfig {
    pub script: String,
    pub script_args: Vec<String>,
    pub label_flag: String,
    pub device_flag: Option<String>,
    pub validate_flag: Option<String>,
    pub no_validate_flag: Option<String>,
}

impl<T: Clone> RangeConfig<T> {
    /// The range from `min` to `max`.
    pub fn new(min: T, max: T) -> (r: RangeConfig<T>)
        ensures
            r.min == min,
            r.max == max,
    {
        RangeConfig { min, max }
    }
}

impl Default for PlatformConfig {
    /// A platform that offers nothing.
    fn default() -> (r: PlatformConfig)
        ensures
            r.factory_reset is None,
            r.update_bios is None,
            r.update_dock is None,
            r.storage is None,
            r.fan_control is None,
            r.tdp_limit is None,
            r.gpu_clocks is None,
            r.battery_charge_limit is None,
    {
        PlatformConfig {
            factory_reset: None,
            update_bios: None,
            update_dock: None,
            storage: None,
            fan_control: None,
            tdp_limit: None,
            gpu_clocks: None,
            battery_charge_limit: None,
        }
    }
}

impl Default for ScriptConfig {
    /// No program and no arguments.
    fn default() -> (r: ScriptConfig)
        ensures
            r.script@ == Seq::<char>::empty(),
            r.script_args@ == Seq::<String>::empty(),
    {
        ScriptConfig { script: String::new(), script_args: Vec::new() }
    }
}

impl PlatformConfig {
    /// The file that holds the configuration of the platform. Platforms other than the deck
    /// have none yet.
    pub fn load(deck: bool) -> (r: Option<&'static str>)
        ensures
            match r {
                Some(file) => deck && file@
                    == "/usr/share/steamos-manager/platforms/jupiter.toml"@,
                None => !deck,
            },
    {
        if !deck {
            return None;
        }
        Some("/usr/share/steamos-manager/platforms/jupiter.toml")
    }
}

} // verus!

//! The manager of a deck whose programs are fixed: it needs no configuration of the platform.

use vstd::prelude::*;

use crate::error::{
    bus_outcome, bus_view, failed, outcome, BusError, BusErrorView, Failure,
};
use crate::hardware::HardwareVariant;
use crate::manager::root::JobRequest;
use crate::platform::ScriptConfig;
use crate::power::{set_gpu_performance_level, GPUPerformanceLevel};
use crate::text::{joined, texts};
use crate::wifi::{
    set_wifi_backend, set_wifi_power_management_state, WifiBackend, WifiDebugMode,
    WifiPowerManagement,
};

verus! {

/// The file of the integration time of the ambient light sensor.
pub const ALS_INTEGRATION_PATH: &'static str =
    "/sys/devices/platform/AMDI0010:00/i2c-0/i2c-PRP0001:01/iio:device0/in_illuminance_integration_time";

/// The least clock that can be set.
pub const MANUAL_GPU_CLOCK_MIN: u32 = 200;

/// The greatest clock that can be set.
pub const MANUAL_GPU_CLOCK_MAX: u32 = 1600;

/// The least power limit that can be set.
pub const TDP_LIMIT_MIN: u32 = 3;

/// The greatest power limit that can be set.
pub const TDP_LIMIT_MAX: u32 = 15;

/// What the manager remembers.
pub struct SteamOSManager {
    /// The debug mode of wireless networking.
    pub wifi_debug_mode: WifiDebugMode,
    /// Whether debugging uses a trace. True on galileo devices, false otherwise.
    pub should_trace: bool,
}

/// A program with fixed arguments to run in the background.
fn job(script: &str, script_args: Vec<String>, operation: &str) -> (r: JobRequest)
    ensures
        r@ == (script@, texts(script_args@), operation@),
{
    JobRequest { script: script.to_owned(), script_args, operation: operation.to_owned() }
}

impl SteamOSManager {
    /// A manager on hardware of this variant.
    pub fn new(variant: HardwareVariant) -> (r: SteamOSManager)
        ensures
            r.wifi_debug_mode == WifiDebugMode::Off,
            r.should_trace == (variant is Galileo),
    {
        SteamOSManager {
            wifi_debug_mode: WifiDebugMode::Off,
            should_trace: variant == HardwareVariant::Galileo,
        }
    }

    /// The command that prepares a factory reset.
    pub fn prepare_factory_reset() -> (r: ScriptConfig)
        ensures
            r@ == ("/usr/bin/steamos-factory-reset-config"@, seq![""@]),
    {
        let r = ScriptConfig {
            script: "/usr/bin/steamos-factory-reset-config".to_owned(),
            script_args: vec!["".to_owned()],
        };
        assert(r@.1 =~= seq![""@]);
        r
    }

    /// The command that prints the calibration gain of the ambient light sensor.
    pub fn als_calibration_gain() -> (r: ScriptConfig)
        ensures
            r@ == (
                "/usr/bin/steamos-polkit-helpers/jupiter-get-als-gain"@,
                Seq::<Seq<char>>::empty(),
            ),
    {
        let r = ScriptConfig {
            script: "/usr/bin/steamos-polkit-helpers/jupiter-get-als-gain".to_owned(),
            script_args: Vec::new(),
        };
        assert(r@.1 =~= Seq::<Seq<char>>::empty());
        r
    }

    /// The program that updates the BIOS.
    pub fn update_bios() -> (r: JobRequest)
        ensures
            r@ == ("/usr/bin/jupiter-biosupdate"@, seq!["--auto"@], "updating BIOS"@),
    {
        let args = vec!["--auto".to_owned()];
        assert(texts(args@) =~= seq!["--auto"@]);
        job("/usr/bin/jupiter-biosupdate", args, "updating BIOS")
    }

    /// The program that updates the firmware of the dock.
    pub fn update_dock() -> (r: JobRequest)
        ensures
            r@ == (
                "/usr/lib/jupiter-dock-updater/jupiter-dock-updater.sh"@,
                Seq::<Seq<char>>::empty(),
                "updating dock"@,
            ),
    {
        let args: Vec<String> = Vec::new();
        assert(texts(args@) =~= Seq::<Seq<char>>::empty());
        job("/usr/lib/jupiter-dock-updater/jupiter-dock-updater.sh", args, "updating dock")
    }

    /// The program that trims the storage devices.
    pub fn trim_devices() -> (r: JobRequest)
        ensures
            r@ == (
                "/usr/lib/hwsupport/trim-devices.sh"@,
                Seq::<Seq<char>>::empty(),
                "trimming devices"@,
            ),
    {
        let args: Vec<String> = Vec::new();
        assert(texts(args@) =~= Seq::<Seq<char>>::empty());
        job("/usr/lib/hwsupport/trim-devices.sh", args, "trimming devices")
    }

    /// The program that formats `device` and names it `label`.
    pub fn format_device(device: &str, label: &str, validate: bool) -> (r: JobRequest)
        ensures
            r@ == (
                "/usr/lib/hwsupport/format-device.sh"@,
                seq!["--label"@, label@, "--device"@, device@] + if validate {
                    seq![]
                } else {
                    seq!["--skip-validation"@]
                },
                "formatting "@ + device@,
            ),
    {
        let mut args = vec![
            "--label".to_owned(),
            label.to_owned(),
            "--device".to_owned(),
            device.to_owned(),
        ];
        if !validate {
            args.push("--skip-validation".to_owned());
        }
        assert(texts(args@) =~= seq!["--label"@, label@, "--device"@, device@] + if validate {
            seq![]
        } else {
            seq!["--skip-validation"@]
        });
        let operation = joined("formatting ", device);
        job("/usr/lib/hwsupport/format-device.sh", args, operation.as_str())
    }

    /// The command that sets the power management of the wireless device.
    pub fn set_wifi_power_management_state(state: u32) -> (r: Result<ScriptConfig, BusError>)
        ensures
            match (r, WifiPowerManagement::of_number(state as int)) {
                (Ok(command), Ok(s)) => command@ == (
                    "/usr/bin/iwconfig"@,
                    seq![
                        "wlan0"@,
                        "power"@,
                        match s {
                            WifiPowerManagement::Disabled => "off"@,
                            WifiPowerManagement::Enabled => "on"@,
                        },
                    ],
                ),
                (Err(a), Err(b)) => a@ == BusErrorView::InvalidArgs(b),
                _ => false,
            },
    {
        match WifiPowerManagement::try_from(state) {
            Ok(state) => Ok(set_wifi_power_management_state(state)),
            Err(err) => Err(BusError::InvalidArgs(err.message)),
        }
    }

    /// What to write to the attribute of the performance level for the level with number
    /// `level`.
    pub fn set_gpu_performance_level(level: u32) -> (r: Result<String, BusError>)
        ensures
            bus_view(r) == (match GPUPerformanceLevel::of_number(level as int) {
                Ok(l) => Ok(l.text()),
                Err(e) => Err(BusErrorView::Failed(e)),
            }),
    {
        match GPUPerformanceLevel::try_from(level) {
            Ok(l) => Ok(set_gpu_performance_level(l)),
            Err(e) => Err(BusError::Failed(e.message)),
        }
    }

    /// The number of the debug mode of wireless networking.
    pub fn wifi_debug_mode_state(&self) -> (r: u32)
        ensures
            r == self.wifi_debug_mode.number(),
    {
        self.wifi_debug_mode.value()
    }

    /// The debug mode with number `mode`. An int is used for flexibility going forward, but
    /// only 0 and 1 do anything for now.
    pub fn set_wifi_debug_mode(mode: u32) -> (r: Result<WifiDebugMode, BusError>)
        ensures
            bus_outcome(r) == crate::error::invalid_args(WifiDebugMode::of_number(mode as int)),
    {
        crate::error::to_invalid_args(WifiDebugMode::try_from(mode))
    }

    /// Takes note of how switching to `mode` ended: the mode changes only where it succeeded.
    pub fn wifi_debug_mode_set(&mut self, mode: WifiDebugMode, result: Result<(), Failure>) -> (r:
        Result<(), BusError>)
        ensures
            bus_outcome(r) == failed(outcome(result)),
            *final(self) == if result is Ok {
                (SteamOSManager { wifi_debug_mode: mode, ..*old(self) })
            } else {
                *old(self)
            },
    {
        match result {
            Ok(()) => {
                self.wifi_debug_mode = mode;
                Ok(())
            },
            Err(e) => Err(BusError::Failed(e.message)),
        }
    }

    /// The command that sets the backend with number `backend`; not while debugging.
    pub fn set_wifi_backend(&self, backend: u32) -> (r: Result<ScriptConfig, BusError>)
        ensures
            bus_view(r) == if self.wifi_debug_mode is On {
                Err(BusErrorView::Failed("operation not supported when wifi_debug_mode=on"@))
            } else {
                match WifiBackend::of_number(backend as int) {
                    Ok(b) => Ok(("/usr/bin/steamos-wifi-set-backend"@, seq![b.text()])),
                    Err(e) => Err(BusErrorView::InvalidArgs(e)),
                }
            },
    {
        if self.wifi_debug_mode == WifiDebugMode::On {
            return Err(
                BusError::Failed("operation not supported when wifi_debug_mode=on".to_owned()),
            );
        }
        match WifiBackend::try_from(backend) {
            Ok(backend) => Ok(set_wifi_backend(backend)),
            Err(e) => Err(BusError::InvalidArgs(e.message)),
        }
    }
}

} // verus!

//! The manager with the rights of the system: it changes settings and runs programs.

use vstd::prelude::*;

use crate::error::{
    bus_outcome, bus_view, failed, outcome, to_bus_error, BusError, BusErrorView, Failure,
};
use crate::hardware::{
    fan_action, fan_service, FactoryResetKind, FanAction, FanControl, FanControlState,
    HardwareVariant,
};
use crate::number::{decimal, decimal_of};
use crate::platform::{FormatDeviceConfig, PlatformConfig, ResetConfig, ScriptConfig, StorageConfig};
use crate::power::{
    clocks_written, same_writes, set_cpu_scaling_governor, set_gpu_clocks,
    set_gpu_performance_level, set_gpu_power_profile, set_tdp_limit, tdp_writes, AttributeWrite,
    CPUScalingGovernor, GPUPerformanceLevel, GPUPowerProfile,
};
use crate::text::{ascii, ascii_lower, copied, joined, lowercase, texts};
use crate::wifi::{
    set_wifi_backend, set_wifi_power_management_state, WifiBackend, WifiDebugMode,
    WifiPowerManagement,
};

verus! {

/// What the preparation of a factory reset comes to.
#[derive(Clone, Copy, Debug, PartialEq, Eq, Structural)]
pub enum PrepareFactoryResetResult {
    Unknown,
    RebootRequired,
}

impl PrepareFactoryResetResult {
    /// The number of the result.
    pub open spec fn number(self) -> u32 {
        match self {
            PrepareFactoryResetResult::Unknown => 0,
            PrepareFactoryResetResult::RebootRequired => 1,
        }
    }

    /// The number of the result.
    pub fn value(self) -> (r: u32)
        ensures
            r == self.number(),
    {
        match self {
            PrepareFactoryResetResult::Unknown => 0,
            PrepareFactoryResetResult::RebootRequired => 1,
        }
    }
}

/// What to do about a request for a factory reset.
pub enum ResetStep<'a> {
    /// Run this program, and answer by how it ends.
    Run(&'a ScriptConfig),
    /// Answer with this number.
    Answer(u32),
}

/// A program to run in the background.
#[derive(Debug)]
pub struct JobRequest {
    pub script: String,
    pub script_args: Vec<String>,
    /// What the program does, for messages.
    pub operation: String,
}

impl View for JobRequest {
    type V = (Seq<char>, Seq<Seq<char>>, Seq<char>);

    open spec fn view(&self) -> (Seq<char>, Seq<Seq<char>>, Seq<char>) {
        (self.script@, texts(self.script_args@), self.operation@)
    }
}

/// The option for the size of the trace buffer, as a caller gives it.
pub enum BufferSize<'a> {
    /// It is not given.
    Absent,
    /// It is this number.
    Size(u32),
    /// It is not a number, for this reason.
    Invalid(&'a str),
}

/// What to do about a request for a debug mode.
#[derive(Clone, Copy, Debug, PartialEq, Eq, Structural)]
pub enum DebugModeStep {
    /// Nothing: the mode is already set.
    Unchanged,
    /// Switch to this mode with a trace buffer of this size.
    Change(WifiDebugMode, u32),
}

/// The error of a request that the platform does not support.
pub open spec fn not_supported(name: Seq<char>) -> BusErrorView {
    BusErrorView::NotSupported(name + " is not supported on this platform"@)
}

/// The error of a request that the platform does not support.
fn not_supported_error(name: &str) -> (r: BusError)
    ensures
        r@ == not_supported(name@),
{
    BusError::NotSupported(joined(name, " is not supported on this platform"))
}

/// The program for a kind of factory reset.
pub open spec fn reset_script(config: ResetConfig, kind: FactoryResetKind) -> ScriptConfig {
    match kind {
        FactoryResetKind::User => config.user,
        FactoryResetKind::OS => config.os,
        FactoryResetKind::All => config.all,
    }
}

/// What to do about a request for a factory reset of the kind with number `kind`.
pub open spec fn reset_step<'a>(config: Option<ResetConfig>, kind: u32) -> Result<
    ResetStep<'a>,
    BusErrorView,
> {
    match config {
        Some(config) => match FactoryResetKind::of_number(kind as nat) {
            Ok(kind) => Ok(ResetStep::Run(&reset_script(config, kind))),
            Err(_) => Ok(ResetStep::Answer(PrepareFactoryResetResult::Unknown.number())),
        },
        None => Err(not_supported("PrepareFactoryReset"@)),
    }
}

/// The arguments of the program that formats `device`.
pub open spec fn format_args(
    config: FormatDeviceConfig,
    device: Seq<char>,
    label: Seq<char>,
    validate: bool,
) -> Seq<Seq<char>> {
    texts(config.script_args@) + seq![config.label_flag@, label] + (match (
        validate,
        config.validate_flag,
        config.no_validate_flag,
    ) {
        (true, Some(flag), _) => seq![flag@],
        (false, _, Some(flag)) => seq![flag@],
        _ => seq![],
    }) + (match config.device_flag {
        Some(flag) => seq![flag@],
        None => seq![],
    }) + seq![device]
}

/// A part of the platform's configuration, if there is any.
pub open spec fn part<T>(
    config: Option<&PlatformConfig>,
    of: spec_fn(PlatformConfig) -> Option<T>,
) -> Option<T> {
    match config {
        Some(config) => of(*config),
        None => None,
    }
}

/// The indices of the ambient light sensors.
pub open spec fn als_indices(variant: Option<HardwareVariant>) -> Seq<Seq<char>> {
    match variant {
        Some(HardwareVariant::Jupiter) => seq!["2"@],
        Some(HardwareVariant::Galileo) => seq!["2"@, "4"@],
        _ => seq![],
    }
}

/// The file of the integration time of the ambient light sensor `index`.
pub open spec fn als_path(variant: HardwareVariant, index: u32) -> Result<Seq<char>, BusErrorView> {
    let i0: u32 = if variant is Jupiter {
        1
    } else {
        index
    };
    if variant is Unknown {
        Err(BusErrorView::Failed("Unknown model"@))
    } else {
        Ok(
            "/sys/devices/platform/AMDI0010:00/i2c-0/i2c-PRP0001:0"@ + decimal(i0 as nat)
                + "/iio:device"@ + decimal(index as nat) + "/in_illuminance_integration_time"@,
        )
    }
}

/// The program of a request to run in the background, if the platform supports the request
/// `name`.
pub open spec fn script_job(
    script: Option<ScriptConfig>,
    name: Seq<char>,
    operation: Seq<char>,
) -> Result<(Seq<char>, Seq<Seq<char>>, Seq<char>), BusErrorView> {
    match script {
        Some(script) => Ok((script@.0, script@.1, operation)),
        None => Err(not_supported(name)),
    }
}

/// The program that updates the BIOS.
pub open spec fn bios_job(config: Option<&PlatformConfig>) -> Result<
    (Seq<char>, Seq<Seq<char>>, Seq<char>),
    BusErrorView,
> {
    script_job(part(config, |c: PlatformConfig| c.update_bios), "UpdateBios"@, "updating BIOS"@)
}

/// The program that updates the firmware of the dock.
pub open spec fn dock_job(config: Option<&PlatformConfig>) -> Result<
    (Seq<char>, Seq<Seq<char>>, Seq<char>),
    BusErrorView,
> {
    script_job(part(config, |c: PlatformConfig| c.update_dock), "UpdateDock"@, "updating dock"@)
}

/// The program that trims the storage devices.
pub open spec fn trim_job(config: Option<&PlatformConfig>) -> Result<
    (Seq<char>, Seq<Seq<char>>, Seq<char>),
    BusErrorView,
> {
    script_job(
        match part(config, |c: PlatformConfig| c.storage) {
            Some(storage) => Some(storage.trim_devices),
            None => None,
        },
        "TrimDevices"@,
        "trimming devices"@,
    )
}

/// The program that formats `device` and names it `label`.
pub open spec fn format_job(
    config: Option<&PlatformConfig>,
    device: Seq<char>,
    label: Seq<char>,
    validate: bool,
) -> Result<(Seq<char>, Seq<Seq<char>>, Seq<char>), BusErrorView> {
    match part(config, |c: PlatformConfig| c.storage) {
        Some(storage) => Ok(
            (
                storage.format_device.script@,
                format_args(storage.format_device, device, label, validate),
                "formatting "@ + device,
            ),
        ),
        None => Err(not_supported("FormatDevice"@)),
    }
}

/// A script to run in the background.
fn job_request(config: &ScriptConfig, operation: &str) -> (r: JobRequest)
    ensures
        r@ == (config@.0, config@.1, operation@),
{
    JobRequest {
        script: config.script.clone(),
        script_args: copied(&config.script_args),
        operation: operation.to_owned(),
    }
}

/// What the manager remembers.
pub struct SteamOSManager {
    /// The debug mode of wireless networking.
    pub wifi_debug_mode: WifiDebugMode,
    /// Whether debugging uses a trace. True on galileo devices, false otherwise.
    pub should_trace: bool,
}

impl SteamOSManager {
    /// A manager on hardware of this variant.
    pub fn new(variant: HardwareVariant) -> (r: SteamOSManager)
        ensures
            r.wifi_debug_mode == WifiDebugMode::Off,
            r.should_trace == (variant is Galileo),
    {
        SteamOSManager {
            wifi_debug_mode: WifiDebugMode::Off,
            should_trace: variant == HardwareVariant::Galileo,
        }
    }

    /// What to do about a request for a factory reset of the kind with number `kind`.
    pub fn prepare_factory_reset<'a>(config: Option<&'a PlatformConfig>, kind: u32) -> (r: Result<
        ResetStep<'a>,
        BusError,
    >)
        ensures
            bus_outcome(r) == reset_step(part(config, |c: PlatformConfig| c.factory_reset), kind),
    {
        match config {
            Some(config) => match &config.factory_reset {
                Some(reset) => match FactoryResetKind::try_from(kind) {
                    Ok(FactoryResetKind::User) => Ok(ResetStep::Run(&reset.user)),
                    Ok(FactoryResetKind::OS) => Ok(ResetStep::Run(&reset.os)),
                    Ok(FactoryResetKind::All) => Ok(ResetStep::Run(&reset.all)),
                    Err(_) => Ok(ResetStep::Answer(PrepareFactoryResetResult::Unknown.value())),
                },
                None => Err(not_supported_error("PrepareFactoryReset")),
            },
            None => Err(not_supported_error("PrepareFactoryReset")),
        }
    }

    /// The answer once the program of a factory reset has ended.
    pub fn prepare_factory_reset_result(res: Result<(), Failure>) -> (r: u32)
        ensures
            r == if res is Ok {
                PrepareFactoryResetResult::RebootRequired.number()
            } else {
                PrepareFactoryResetResult::Unknown.number()
            },
    {
        match res {
            Ok(()) => PrepareFactoryResetResult::RebootRequired.value(),
            Err(_) => PrepareFactoryResetResult::Unknown.value(),
        }
    }

    /// The command that sets the power management of the wireless device.
    pub fn set_wifi_power_management_state(state: u32) -> (r: Result<ScriptConfig, BusError>)
        ensures
            match (r, failed(WifiPowerManagement::of_number(state as int))) {
                (Ok(command), Ok(s)) => command@ == (
                    "/usr/bin/iwconfig"@,
                    seq![
                        "wlan0"@,
                        "power"@,
                        match s {
                            WifiPowerManagement::Disabled => "off"@,
                            WifiPowerManagement::Enabled => "on"@,
                        },
                    ],
                ),
                (Err(a), Err(b)) => a@ == b,
                _ => false,
            },
    {
        match WifiPowerManagement::try_from(state) {
            Ok(state) => Ok(set_wifi_power_management_state(state)),
            Err(err) => Err(BusError::Failed(err.message)),
        }
    }

    /// How to hand the fan over to the state with number `state`.
    pub fn set_fan_control_state<'a>(config: Option<&'a PlatformConfig>, state: u32) -> (r: Result<
        FanAction<'a>,
        BusError,
    >)
        ensures
            bus_outcome(r) == (match FanControlState::of_number(state as nat) {
                Ok(state) => failed(fan_action(fan_service(config), state)),
                Err(e) => Err(BusErrorView::InvalidArgs(e)),
            }),
    {
        let state = match FanControlState::try_from(state) {
            Ok(state) => state,
            Err(err) => {
                return Err(BusError::InvalidArgs(err.message));
            },
        };
        to_bus_error(FanControl::new(config).set_state(state))
    }

    /// The commands that print the calibration gains of the ambient light sensors, in order.
    /// `None` stands for hardware that cannot be told.
    pub fn als_calibration_gain(variant: Option<HardwareVariant>) -> (r: Vec<ScriptConfig>)
        ensures
            r@.len() == als_indices(variant).len(),
            forall|k: int|
                0 <= k < r@.len() ==> (#[trigger] r@[k])@ == (
                    "/usr/bin/steamos-polkit-helpers/jupiter-get-als-gain"@,
                    seq!["-s"@, als_indices(variant)[k]],
                ),
    {
        let indices: Vec<&str> = match variant {
            Some(HardwareVariant::Jupiter) => vec!["2"],
            Some(HardwareVariant::Galileo) => vec!["2", "4"],
            _ => Vec::new(),
        };
        let mut r: Vec<ScriptConfig> = Vec::new();
        let mut i: usize = 0;
        while i < indices.len()
            invariant
                i <= indices.len(),
                indices@.len() == als_indices(variant).len(),
                forall|k: int|
                    0 <= k < indices@.len() ==> (#[trigger] indices@[k])@ == als_indices(variant)[k],
                r@.len() == i,
                forall|k: int|
                    0 <= k < i ==> (#[trigger] r@[k])@ == (
                        "/usr/bin/steamos-polkit-helpers/jupiter-get-als-gain"@,
                        seq!["-s"@, als_indices(variant)[k]],
                    ),
            decreases indices.len() - i,
        {
            let command = ScriptConfig {
                script: "/usr/bin/steamos-polkit-helpers/jupiter-get-als-gain".to_owned(),
                script_args: vec!["-s".to_owned(), indices[i].to_owned()],
            };
            assert(command@.1 =~= seq!["-s"@, als_indices(variant)[i as int]]);
            r.push(command);
            i += 1;
        }
        r
    }

    /// The file of the integration time of the ambient light sensor `index`.
    pub fn get_als_integration_time_file_descriptor(variant: HardwareVariant, index: u32) -> (r:
        Result<String, BusError>)
        ensures
            bus_view(r) == als_path(variant, index),
    {
        let i0: u32 = match variant {
            HardwareVariant::Jupiter => 1,
            HardwareVariant::Galileo => index,
            HardwareVariant::Unknown => {
                return Err(BusError::Failed("Unknown model".to_owned()));
            },
        };
        let bus = decimal_of(i0 as u64);
        let device = decimal_of(index as u64);
        let a = joined("/sys/devices/platform/AMDI0010:00/i2c-0/i2c-PRP0001:0", bus.as_str());
        let b = joined(a.as_str(), "/iio:device");
        let c = joined(b.as_str(), device.as_str());
        Ok(joined(c.as_str(), "/in_illuminance_integration_time"))
    }

    /// The program that updates the BIOS.
    pub fn update_bios(config: Option<&PlatformConfig>) -> (r: Result<JobRequest, BusError>)
        ensures
            bus_view(r) == bios_job(config),
    {
        match config {
            Some(config) => match &config.update_bios {
                Some(script) => Ok(job_request(script, "updating BIOS")),
                None => Err(not_supported_error("UpdateBios")),
            },
            None => Err(not_supported_error("UpdateBios")),
        }
    }

    /// The program that updates the firmware of the dock.
    pub fn update_dock(config: Option<&PlatformConfig>) -> (r: Result<JobRequest, BusError>)
        ensures
            bus_view(r) == dock_job(config),
    {
        match config {
            Some(config) => match &config.update_dock {
                Some(script) => Ok(job_request(script, "updating dock")),
                None => Err(not_supported_error("UpdateDock")),
            },
            None => Err(not_supported_error("UpdateDock")),
        }
    }

    /// The program that trims the storage devices.
    pub fn trim_devices(config: Option<&PlatformConfig>) -> (r: Result<JobRequest, BusError>)
        ensures
            bus_view(r) == trim_job(config),
    {
        match config {
            Some(config) => match &config.storage {
                Some(storage) => Ok(job_request(&storage.trim_devices, "trimming devices")),
                None => Err(not_supported_error("TrimDevices")),
            },
            None => Err(not_supported_error("TrimDevices")),
        }
    }

    /// The program that formats `device` and names it `label`.
    pub fn format_device(
        config: Option<&PlatformConfig>,
        device: &str,
        label: &str,
        validate: bool,
    ) -> (r: Result<JobRequest, BusError>)
        ensures
            bus_view(r) == format_job(config, device@, label@, validate),
    {
        let storage: &StorageConfig = match config {
            Some(config) => match &config.storage {
                Some(storage) => storage,
                None => {
                    return Err(not_supported_error("FormatDevice"));
                },
            },
            None => {
                return Err(not_supported_error("FormatDevice"));
            },
        };
        let config = &storage.format_device;
        let mut args = copied(&config.script_args);
        let ghost a0 = texts(args@);
        args.push(config.label_flag.clone());
        args.push(label.to_owned());
        let ghost a1 = a0 + seq![config.label_flag@, label@];
        assert(texts(args@) =~= a1);
        let ghost mut a2 = a1 + Seq::<Seq<char>>::empty();
        match (validate, &config.validate_flag, &config.no_validate_flag) {
            (true, Some(validate_flag), _) => {
                args.push(validate_flag.clone());
                proof {
                    a2 = a1 + seq![validate_flag@];
                }
            },
            (false, _, Some(no_validate_flag)) => {
                args.push(no_validate_flag.clone());
                proof {
                    a2 = a1 + seq![no_validate_flag@];
                }
            },
            _ => {},
        }
        assert(texts(args@) =~= a2);
        let ghost mut a3 = a2 + Seq::<Seq<char>>::empty();
        if let Some(device_flag) = &config.device_flag {
            args.push(device_flag.clone());
            proof {
                a3 = a2 + seq![device_flag@];
            }
        }
        assert(texts(args@) =~= a3);
        args.push(device.to_owned());
        assert(texts(args@) =~= a3 + seq![device@]);
        assert(texts(args@) == format_args(*config, device@, label@, validate));
        Ok(
            JobRequest {
                script: config.script.clone(),
                script_args: args,
                operation: joined("formatting ", device),
            },
        )
    }

    /// What to write to the attribute of the power profile for the profile that `value` names.
    pub fn set_gpu_power_profile(value: &str) -> (r: Result<String, BusError>)
        ensures
            bus_view(r) == (match GPUPowerProfile::of_lower(lowercase(value@), value@) {
                Ok(profile) => Ok(decimal(profile.number() as nat)),
                Err(e) => Err(BusErrorView::Failed(e)),
            }),
            ascii(value@) ==> bus_view(r) == (match GPUPowerProfile::of_lower(
                ascii_lower(value@),
                value@,
            ) {
                Ok(profile) => Ok(decimal(profile.number() as nat)),
                Err(e) => Err(BusErrorView::Failed(e)),
            }),
    {
        match GPUPowerProfile::from_str(value) {
            Ok(profile) => Ok(set_gpu_power_profile(profile)),
            Err(e) => Err(BusError::Failed(e.message)),
        }
    }

    /// What to write to the attribute of every policy's governor for the governor `governor`.
    pub fn set_cpu_scaling_governor(governor: &str) -> (r: Result<String, BusError>)
        ensures
            bus_view(r) == (match CPUScalingGovernor::of_text(governor@) {
                Ok(g) => Ok(g.text()),
                Err(e) => Err(BusErrorView::Failed(e)),
            }),
    {
        match CPUScalingGovernor::from_str(governor) {
            Ok(g) => Ok(set_cpu_scaling_governor(g)),
            Err(e) => Err(BusError::Failed(e.message)),
        }
    }

    /// What to write to the attribute of the performance level for the level `level`.
    pub fn set_gpu_performance_level(level: &str) -> (r: Result<String, BusError>)
        ensures
            bus_view(r) == (match GPUPerformanceLevel::of_text(level@) {
                Ok(l) => Ok(l.text()),
                Err(e) => Err(BusErrorView::Failed(e)),
            }),
    {
        match GPUPerformanceLevel::from_str(level) {
            Ok(l) => Ok(set_gpu_performance_level(l)),
            Err(e) => Err(BusError::Failed(e.message)),
        }
    }

    /// What to write, one after the other, to the attribute of the clocks.
    pub fn set_manual_gpu_clock(clocks: u32) -> (r: Result<Vec<String>, BusError>)
        ensures
            match (r, clocks_written(clocks)) {
                (Ok(a), Ok(b)) => texts(a@) == b,
                (Err(a), Err(b)) => a@ == BusErrorView::Failed(b),
                _ => false,
            },
    {
        to_bus_error(set_gpu_clocks(clocks))
    }

    /// The writes that set the power limit, in order.
    pub fn set_tdp_limit(limit: u32) -> (r: Result<Vec<AttributeWrite>, BusError>)
        ensures
            match r {
                Ok(writes) => same_writes(Ok(writes), tdp_writes(limit)),
                Err(e) => tdp_writes(limit) is Err && e@ == BusErrorView::Failed(
                    tdp_writes(limit)->Err_0,
                ),
            },
    {
        to_bus_error(set_tdp_limit(limit))
    }

    /// The number of the debug mode of wireless networking.
    pub fn wifi_debug_mode_state(&self) -> (r: u32)
        ensures
            r == self.wifi_debug_mode.number(),
    {
        self.wifi_debug_mode.value()
    }

    /// What a request for a debug mode comes to, where `current` is the mode that is set.
    pub open spec fn debug_mode_step(current: WifiDebugMode, mode: u32, size: BufferSize) -> Result<
        DebugModeStep,
        BusErrorView,
    > {
        match WifiDebugMode::of_number(mode as int) {
            Err(e) => Err(BusErrorView::InvalidArgs(e)),
            Ok(wanted) => if current == wanted {
                Ok(DebugModeStep::Unchanged)
            } else {
                match size {
                    BufferSize::Absent => Ok(DebugModeStep::Change(wanted, 20000)),
                    BufferSize::Size(size) => Ok(DebugModeStep::Change(wanted, size)),
                    BufferSize::Invalid(reason) => Err(BusErrorView::InvalidArgs(reason@)),
                }
            },
        }
    }

    /// What to do about a request for the debug mode with number `mode`. An int is used for
    /// flexibility going forward, but only 0 and 1 do anything for now.
    pub fn set_wifi_debug_mode(&self, mode: u32, buffer_size: BufferSize) -> (r: Result<
        DebugModeStep,
        BusError,
    >)
        ensures
            bus_outcome(r) == SteamOSManager::debug_mode_step(
                self.wifi_debug_mode,
                mode,
                buffer_size,
            ),
    {
        let wanted_mode = match WifiDebugMode::try_from(mode) {
            Ok(mode) => mode,
            Err(e) => {
                return Err(BusError::InvalidArgs(e.message));
            },
        };
        if self.wifi_debug_mode == wanted_mode {
            return Ok(DebugModeStep::Unchanged);
        }
        match buffer_size {
            BufferSize::Absent => Ok(DebugModeStep::Change(wanted_mode, 20000)),
            BufferSize::Size(size) => Ok(DebugModeStep::Change(wanted_mode, size)),
            BufferSize::Invalid(reason) => Err(BusError::InvalidArgs(reason.to_owned())),
        }
    }

    /// Takes note of how switching to `mode` ended: the mode changes only where it succeeded.
    pub fn wifi_debug_mode_set(&mut self, mode: WifiDebugMode, result: Result<(), Failure>) -> (r:
        Result<(), BusError>)
        ensures
            bus_outcome(r) == failed(outcome(result)),
            *final(self) == if result is Ok {
                (SteamOSManager { wifi_debug_mode: mode, ..*old(self) })
            } else {
                *old(self)
            },
    {
        match result {
            Ok(()) => {
                self.wifi_debug_mode = mode;
                Ok(())
            },
            Err(e) => Err(BusError::Failed(e.message)),
        }
    }

    /// The command that sets the backend with number `backend`; not while debugging.
    pub fn set_wifi_backend(&self, backend: u32) -> (r: Result<ScriptConfig, BusError>)
        ensures
            bus_view(r) == if self.wifi_debug_mode is On {
                Err(BusErrorView::Failed("operation not supported when wifi_debug_mode=tracing"@))
            } else {
                match WifiBackend::of_number(backend as int) {
                    Ok(b) => Ok(("/usr/bin/steamos-wifi-set-backend"@, seq![b.text()])),
                    Err(e) => Err(BusErrorView::InvalidArgs(e)),
                }
            },
    {
        if self.wifi_debug_mode == WifiDebugMode::On {
            return Err(
                BusError::Failed(
                    "operation not supported when wifi_debug_mode=tracing".to_owned(),
                ),
            );
        }
        match WifiBackend::try_from(backend) {
            Ok(backend) => Ok(set_wifi_backend(backend)),
            Err(e) => Err(BusError::InvalidArgs(e.message)),
        }
    }
}

/// Once a debug mode is set, asking for it again changes nothing, whatever the options; and a
/// change that is made is one to a mode that was not set.
pub proof fn law_debug_mode_set_once(current: WifiDebugMode, mode: u32, size: BufferSize)
    ensures
        SteamOSManager::debug_mode_step(current, current.number(), size) == Ok::<
            DebugModeStep,
            BusErrorView,
        >(DebugModeStep::Unchanged),
        match SteamOSManager::debug_mode_step(current, mode, size) {
            Ok(DebugModeStep::Change(wanted, _)) => wanted != current && wanted.number() == mode,
            Ok(DebugModeStep::Unchanged) => current.number() == mode,
            Err(_) => true,
        },
{
}

/// The device is always the last argument of the program that formats it, the label comes
/// right behind the label's flag, and the configured arguments come first.
pub proof fn law_format_args_shape(
    config: FormatDeviceConfig,
    device: Seq<char>,
    label: Seq<char>,
    validate: bool,
)
    ensures
        ({
            let args = format_args(config, device, label, validate);
            let n = config.script_args@.len() as int;
            &&& n + 3 <= args.len() <= n + 5
            &&& args.last() == device
            &&& args.take(n) == texts(config.script_args@)
            &&& args[n] == config.label_flag@
            &&& args[n + 1] == label
        }),
{
    let args = format_args(config, device, label, validate);
    let n = config.script_args@.len() as int;
    assert(args.take(n) =~= texts(config.script_args@));
}

/// Each kind of factory reset runs its own program, and every kind of a platform that has
/// resets runs one; a number that is no kind is answered without running any.
pub proof fn law_reset_programs(config: ResetConfig, kind: u32)
    ensures
        reset_step(Some(config), FactoryResetKind::User.number()) == Ok::<ResetStep, BusErrorView>(
            ResetStep::Run(&config.user),
        ),
        reset_step(Some(config), FactoryResetKind::OS.number()) == Ok::<ResetStep, BusErrorView>(
            ResetStep::Run(&config.os),
        ),
        reset_step(Some(config), FactoryResetKind::All.number()) == Ok::<ResetStep, BusErrorView>(
            ResetStep::Run(&config.all),
        ),
        kind != FactoryResetKind::User.number() && kind != FactoryResetKind::OS.number() && kind
            != FactoryResetKind::All.number() ==> reset_step(Some(config), kind) == Ok::<
            ResetStep,
            BusErrorView,
        >(ResetStep::Answer(0)),
        reset_step(None, kind) is Err,
{
}

/// The program that formats gets the flag for validation if and only if it is wanted and there
/// is one, the flag against it if and only if it is not wanted and there is one, and the flag
/// for the device right before the device if there is one; nothing else is added.
pub proof fn law_format_flags(
    config: FormatDeviceConfig,
    device: Seq<char>,
    label: Seq<char>,
    validate: bool,
)
    ensures
        ({
            let args = format_args(config, device, label, validate);
            let n = config.script_args@.len() as int;
            let flag = if validate {
                config.validate_flag
            } else {
                config.no_validate_flag
            };
            &&& args.len() == n + 3 + (if flag is Some {
                1int
            } else {
                0int
            }) + (if config.device_flag is Some {
                1int
            } else {
                0int
            })
            &&& flag is Some ==> args[n + 2] == flag->0@
            &&& config.device_flag is Some ==> args[args.len() - 2] == config.device_flag->0@
        }),
{
}

/// The programs that run in the background are those of the platform, with their own arguments.
pub proof fn law_jobs_as_configured(config: PlatformConfig)
    ensures
        config.update_bios is Some ==> bios_job(Some(&config)) is Ok && (bios_job(
            Some(&config),
        )->Ok_0.0, bios_job(Some(&config))->Ok_0.1) == config.update_bios->0@,
        config.update_dock is Some ==> dock_job(Some(&config)) is Ok && (dock_job(
            Some(&config),
        )->Ok_0.0, dock_job(Some(&config))->Ok_0.1) == config.update_dock->0@,
        config.storage is Some ==> trim_job(Some(&config)) is Ok && (trim_job(
            Some(&config),
        )->Ok_0.0, trim_job(Some(&config))->Ok_0.1) == config.storage->0.trim_devices@,
        config.update_bios is None ==> bios_job(Some(&config)) is Err,
        config.update_dock is None ==> dock_job(Some(&config)) is Err,
        config.storage is None ==> trim_job(Some(&config)) is Err,
        bios_job(None) is Err,
        dock_job(None) is Err,
        trim_job(None) is Err,
{
}

/// The program that formats is the one of the platform, on the arguments for the device.
pub proof fn law_format_as_configured(
    config: PlatformConfig,
    device: Seq<char>,
    label: Seq<char>,
    validate: bool,
)
    ensures
        config.storage is Some ==> format_job(Some(&config), device, label, validate) == Ok::<
            (Seq<char>, Seq<Seq<char>>, Seq<char>),
            BusErrorView,
        >(
            (
                config.storage->0.format_device.script@,
                format_args(config.storage->0.format_device, device, label, validate),
                "formatting "@ + device,
            ),
        ),
        config.storage is None ==> format_job(Some(&config), device, label, validate) is Err,
        format_job(None, device, label, validate) is Err,
{
}

/// The sensor with a number is the device with that number; on a galileo it is behind the port
/// with that number too, on a jupiter always behind the first.
pub proof fn law_als_path(index: u32)
    ensures
        als_path(HardwareVariant::Galileo, index) == Ok::<Seq<char>, BusErrorView>(
            als_file(index as nat, index as nat),
        ),
        als_path(HardwareVariant::Jupiter, index) == Ok::<Seq<char>, BusErrorView>(
            als_file(1, index as nat),
        ),
        als_path(HardwareVariant::Unknown, index) is Err,
{
}

/// The file of the integration time of a sensor behind a port.
pub open spec fn als_file(port: nat, device: nat) -> Seq<char> {
    "/sys/devices/platform/AMDI0010:00/i2c-0/i2c-PRP0001:0"@ + decimal(port) + "/iio:device"@
        + decimal(device) + "/in_illuminance_integration_time"@
}

/// A change of the debug mode takes just the buffer that was asked for, whatever its size, and
/// 20000 where none was; a buffer that is no number is an error, but only where it would be used.
pub proof fn law_debug_mode_buffer(current: WifiDebugMode, mode: u32, size: u32, reason: &str)
    requires
        mode <= 1,
        mode != current.number(),
    ensures
        SteamOSManager::debug_mode_step(current, mode, BufferSize::Size(size)) is Ok,
        SteamOSManager::debug_mode_step(current, mode, BufferSize::Size(size))->Ok_0 is Change,
        SteamOSManager::debug_mode_step(current, mode, BufferSize::Size(size))->Ok_0->Change_1
            == size,
        SteamOSManager::debug_mode_step(current, mode, BufferSize::Absent)->Ok_0->Change_1
            == 20000,
        SteamOSManager::debug_mode_step(current, mode, BufferSize::Invalid(reason)) == Err::<
            DebugModeStep,
            BusErrorView,
        >(BusErrorView::InvalidArgs(reason@)),
{
}

/// The commands for the light sensors: one on a jupiter, two on a galileo, none elsewhere.
pub proof fn law_als_indices(variant: Option<HardwareVariant>)
    ensures
        als_indices(variant).len() == (match variant {
            Some(HardwareVariant::Jupiter) => 1nat,
            Some(HardwareVariant::Galileo) => 2nat,
            _ => 0nat,
        }),
        als_indices(variant).len() >= 1 ==> als_indices(variant)[0] == "2"@,
        als_indices(variant).len() == 2 ==> als_indices(variant)[1] == "4"@,
{
}

/// The answers to a factory reset are numbered from zero, and what a platform lacks is named in
/// front of the words that it is not supported.
pub proof fn law_answers_named(name: Seq<char>)
    ensures
        PrepareFactoryResetResult::Unknown.number() == 0,
        PrepareFactoryResetResult::RebootRequired.number() == 1,
        not_supported(name) is NotSupported,
        name.is_prefix_of(not_supported(name)->NotSupported_0),
        not_supported(name)->NotSupported_0.skip(name.len() as int)
            == " is not supported on this platform"@,
{
    let words = not_supported(name)->NotSupported_0;
    assert(words.subrange(0, name.len() as int) =~= name);
    assert(words.skip(name.len() as int) =~= " is not supported on this platform"@);
}

} // verus!

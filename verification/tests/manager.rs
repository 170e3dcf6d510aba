use std::collections::HashMap;

use steamos_manager::cec::{CecStep, HdmiCecState};
use steamos_manager::error::{BusError, Failure};
use steamos_manager::hardware::{FactoryResetKind, FanAction, HardwareCurrentlySupported, HardwareVariant};
use steamos_manager::manager::deck;
use steamos_manager::manager::root::{
    BufferSize, DebugModeStep, PrepareFactoryResetResult, ResetStep, SteamOSManager,
};
use steamos_manager::manager::user::{
    available_cpu_scaling_governors, available_gpu_performance_levels, create_interfaces,
    hardware_currently_supported, set_hdmi_cec_state, ManagerInterface, Probes,
};
use steamos_manager::platform::{
    FormatDeviceConfig, PlatformConfig, ResetConfig, ScriptConfig, ServiceConfig, StorageConfig,
};
use steamos_manager::power::{
    get_gpu_clocks, get_gpu_performance_level, set_gpu_performance_level, CPUScalingGovernor,
    GPUPerformanceLevel,
};
use steamos_manager::process::run_script;
use steamos_manager::wifi::WifiDebugMode;
use steamos_manager::API_VERSION;

fn script(name: &str) -> ScriptConfig {
    ScriptConfig {
        script: String::from(name),
        script_args: vec![String::from("-x")],
    }
}

fn format_config() -> FormatDeviceConfig {
    FormatDeviceConfig {
        script: String::from("format"),
        script_args: vec![String::from("--quiet")],
        label_flag: String::from("--label"),
        device_flag: Some(String::from("--device")),
        validate_flag: None,
        no_validate_flag: Some(String::from("--skip-validation")),
    }
}

fn all_config() -> PlatformConfig {
    PlatformConfig {
        factory_reset: Some(ResetConfig {
            all: script("all"),
            os: script("os"),
            user: script("user"),
        }),
        update_bios: Some(script("bios")),
        update_dock: Some(script("dock")),
        storage: Some(StorageConfig {
            trim_devices: script("trim"),
            format_device: format_config(),
        }),
        fan_control: Some(ServiceConfig::Systemd(String::from(
            "jupiter-fan-control.service",
        ))),
        tdp_limit: None,
        gpu_clocks: None,
        battery_charge_limit: None,
    }
}

fn probes() -> Probes {
    Probes {
        deck: Ok(true),
        gpu_performance_levels: Ok(vec![GPUPerformanceLevel::Auto]),
        gpu_power_profiles: Ok(HashMap::from([(8, String::from("CAPPED"))])),
        tdp_limit: Ok(15),
        hdmi_cec: Ok(HdmiCecState::Disabled),
    }
}

fn no_probes() -> Probes {
    Probes {
        deck: Ok(false),
        gpu_performance_levels: Err(Failure::new("oops!")),
        gpu_power_profiles: Ok(HashMap::new()),
        tdp_limit: Err(Failure::new("oops!")),
        hdmi_cec: Err(Failure::new("oops!")),
    }
}

fn matches_all(interface: ManagerInterface) -> bool {
    let config = all_config();
    let plan = create_interfaces(Some(&config), probes());
    plan.end.expect("end");
    plan.interfaces.contains(&interface)
}

fn missing_without_config(interface: ManagerInterface) -> bool {
    let plan = create_interfaces(None, probes());
    plan.end.expect("end");
    !plan.interfaces.contains(&interface)
}

fn bus_words<T>(result: Result<T, BusError>) -> (&'static str, String) {
    match result {
        Ok(_) => panic!("no error"),
        Err(BusError::Failed(words)) => ("Failed", words),
        Err(BusError::InvalidArgs(words)) => ("InvalidArgs", words),
        Err(BusError::NotSupported(words)) => ("NotSupported", words),
    }
}

#[test]
fn prepare_factory_reset() {
    let config = all_config();
    for (kind, name) in [
        (FactoryResetKind::All, "all"),
        (FactoryResetKind::OS, "os"),
        (FactoryResetKind::User, "user"),
    ] {
        match SteamOSManager::prepare_factory_reset(Some(&config), kind.value()) {
            Ok(ResetStep::Run(script)) => assert_eq!(script.script, name),
            _ => panic!("not run"),
        }
        for (code, result) in [
            (Ok(0), PrepareFactoryResetResult::RebootRequired),
            (Ok(1), PrepareFactoryResetResult::Unknown),
            (Err(Failure::new("oops!")), PrepareFactoryResetResult::Unknown),
        ] {
            assert_eq!(
                SteamOSManager::prepare_factory_reset_result(run_script(code)),
                result.value()
            );
        }
    }
    match SteamOSManager::prepare_factory_reset(Some(&config), 4) {
        Ok(ResetStep::Answer(answer)) => {
            assert_eq!(answer, PrepareFactoryResetResult::Unknown.value())
        }
        _ => panic!("no answer"),
    }
    assert_eq!(PrepareFactoryResetResult::Unknown.value(), 0);
    assert_eq!(PrepareFactoryResetResult::RebootRequired.value(), 1);
    assert_eq!(
        bus_words(SteamOSManager::prepare_factory_reset(None, 1)),
        (
            "NotSupported",
            String::from("PrepareFactoryReset is not supported on this platform")
        )
    );
}

#[test]
fn als_calibration_gain() {
    // What the commands print is read as a number, and what is no number as -1.
    let gains = |variant, output: &str| -> Vec<f64> {
        SteamOSManager::als_calibration_gain(variant)
            .iter()
            .map(|_| output.trim().parse().unwrap_or(-1.0))
            .collect()
    };
    assert_eq!(gains(Some(HardwareVariant::Jupiter), "0.0\n"), &[0.0]);
    assert_eq!(gains(Some(HardwareVariant::Galileo), "0.0\n"), &[0.0, 0.0]);
    assert!(gains(Some(HardwareVariant::Unknown), "0.0\n").is_empty());
    assert!(gains(None, "0.0\n").is_empty());
    assert_eq!(gains(Some(HardwareVariant::Jupiter), "1.0\n"), &[1.0]);
    assert_eq!(gains(Some(HardwareVariant::Jupiter), "big\n"), &[-1.0]);

    let commands = SteamOSManager::als_calibration_gain(Some(HardwareVariant::Galileo));
    assert_eq!(
        commands[1].script,
        "/usr/bin/steamos-polkit-helpers/jupiter-get-als-gain"
    );
    assert_eq!(commands[0].script_args, ["-s", "2"]);
    assert_eq!(commands[1].script_args, ["-s", "4"]);
}

#[test]
fn als_integration_time() {
    let file = SteamOSManager::get_als_integration_time_file_descriptor;
    assert_eq!(
        file(HardwareVariant::Jupiter, 0).unwrap(),
        "/sys/devices/platform/AMDI0010:00/i2c-0/i2c-PRP0001:01/iio:device0/in_illuminance_integration_time"
    );
    assert_eq!(file(HardwareVariant::Jupiter, 0).unwrap(), deck::ALS_INTEGRATION_PATH);
    assert_eq!(
        file(HardwareVariant::Galileo, 2).unwrap(),
        "/sys/devices/platform/AMDI0010:00/i2c-0/i2c-PRP0001:02/iio:device2/in_illuminance_integration_time"
    );
    assert_eq!(
        bus_words(file(HardwareVariant::Unknown, 0)),
        ("Failed", String::from("Unknown model"))
    );
}

#[test]
fn root_gpu_performance_level() {
    let written =
        SteamOSManager::set_gpu_performance_level(&GPUPerformanceLevel::Low.to_string()).unwrap();
    assert_eq!(
        get_gpu_performance_level(&written).unwrap(),
        GPUPerformanceLevel::Low
    );
    assert_eq!(
        bus_words(SteamOSManager::set_gpu_performance_level("Low")),
        ("Failed", String::from("Matching variant not found"))
    );
}

#[test]
fn manager_gpu_performance_level() {
    assert_eq!(
        get_gpu_performance_level(&set_gpu_performance_level(GPUPerformanceLevel::Auto))
            .unwrap()
            .value(),
        GPUPerformanceLevel::Auto.value()
    );
    let written =
        deck::SteamOSManager::set_gpu_performance_level(GPUPerformanceLevel::Low.value()).unwrap();
    assert_eq!(
        get_gpu_performance_level(&written).unwrap(),
        GPUPerformanceLevel::Low
    );
    assert_eq!(
        bus_words(deck::SteamOSManager::set_gpu_performance_level(9)),
        ("Failed", String::from("No enum match for value {v}"))
    );
}

#[test]
fn root_manual_gpu_clock() {
    assert_eq!(
        SteamOSManager::set_manual_gpu_clock(200).unwrap().concat(),
        "s 0 200\ns 1 200\nc\n"
    );
}

#[test]
fn manager_manual_gpu_clock() {
    assert_eq!(get_gpu_clocks("OD_SCLK:\n0:       1600Mhz\n").unwrap(), 1600);
    assert_eq!(
        SteamOSManager::set_manual_gpu_clock(200).unwrap().concat(),
        "s 0 200\ns 1 200\nc\n"
    );
    assert_eq!(
        bus_words(SteamOSManager::set_manual_gpu_clock(100)),
        ("Failed", String::from("Invalid clocks"))
    );
    for clocks in [deck::MANUAL_GPU_CLOCK_MIN, deck::MANUAL_GPU_CLOCK_MAX] {
        assert!(SteamOSManager::set_manual_gpu_clock(clocks).is_ok());
    }
    assert!(SteamOSManager::set_manual_gpu_clock(deck::MANUAL_GPU_CLOCK_MIN - 1).is_err());
    assert!(SteamOSManager::set_manual_gpu_clock(deck::MANUAL_GPU_CLOCK_MAX + 1).is_err());
}

#[test]
fn manager_tdp_limit() {
    assert_eq!(
        SteamOSManager::set_tdp_limit(deck::TDP_LIMIT_MIN).unwrap()[0].data,
        "3000000"
    );
    assert_eq!(
        SteamOSManager::set_tdp_limit(deck::TDP_LIMIT_MAX).unwrap()[1].data,
        "15000000"
    );
    assert_eq!(
        bus_words(SteamOSManager::set_tdp_limit(2)),
        ("Failed", String::from("Invalid limit"))
    );
}

#[test]
fn root_version() {
    assert_eq!(API_VERSION, 9);
}

#[test]
fn manager_version() {
    assert_eq!(API_VERSION, 9);
}

#[test]
fn root_settings() {
    assert_eq!(SteamOSManager::set_gpu_power_profile("CAPPED").unwrap(), "8");
    assert_eq!(
        bus_words(SteamOSManager::set_gpu_power_profile("Turbo")),
        ("Failed", String::from("No match for value Turbo"))
    );
    assert_eq!(
        SteamOSManager::set_cpu_scaling_governor("schedutil").unwrap(),
        "schedutil"
    );
    assert!(SteamOSManager::set_cpu_scaling_governor("Schedutil").is_err());
    assert_eq!(
        SteamOSManager::set_wifi_power_management_state(1).unwrap().script_args,
        ["wlan0", "power", "on"]
    );
    assert_eq!(
        bus_words(SteamOSManager::set_wifi_power_management_state(2)),
        ("Failed", String::from("No enum match for value {v}"))
    );
    assert_eq!(
        bus_words(deck::SteamOSManager::set_wifi_power_management_state(2)),
        ("InvalidArgs", String::from("No enum match for value {v}"))
    );
    assert_eq!(
        deck::SteamOSManager::set_wifi_power_management_state(0).unwrap().script_args,
        ["wlan0", "power", "off"]
    );
}

#[test]
fn root_fan_control() {
    let config = all_config();
    assert!(matches!(
        SteamOSManager::set_fan_control_state(Some(&config), 1),
        Ok(FanAction::StartUnit(_))
    ));
    assert_eq!(
        bus_words(SteamOSManager::set_fan_control_state(Some(&config), 2)).0,
        "InvalidArgs"
    );
    assert_eq!(
        bus_words(SteamOSManager::set_fan_control_state(None, 1)),
        ("Failed", String::from("Fan control not configured"))
    );
}

#[test]
fn root_jobs() {
    let config = all_config();
    let bios = SteamOSManager::update_bios(Some(&config)).unwrap();
    assert_eq!(bios.script, "bios");
    assert_eq!(bios.script_args, ["-x"]);
    assert_eq!(bios.operation, "updating BIOS");
    let dock = SteamOSManager::update_dock(Some(&config)).unwrap();
    assert_eq!((dock.script.as_str(), dock.operation.as_str()), ("dock", "updating dock"));
    let trim = SteamOSManager::trim_devices(Some(&config)).unwrap();
    assert_eq!((trim.script.as_str(), trim.operation.as_str()), ("trim", "trimming devices"));
    let none = PlatformConfig::default();
    for (result, name) in [
        (SteamOSManager::update_bios(Some(&none)), "UpdateBios"),
        (SteamOSManager::update_dock(None), "UpdateDock"),
        (SteamOSManager::trim_devices(Some(&none)), "TrimDevices"),
        (SteamOSManager::format_device(None, "", "", true), "FormatDevice"),
    ] {
        assert_eq!(
            bus_words(result),
            ("NotSupported", format!("{name} is not supported on this platform"))
        );
    }
}

#[test]
fn root_format_device() {
    let mut config = all_config();
    let args = |config: &PlatformConfig, validate| {
        SteamOSManager::format_device(Some(config), "/dev/sda", "Deck", validate)
            .unwrap()
            .script_args
    };
    assert_eq!(
        args(&config, true),
        ["--quiet", "--label", "Deck", "--device", "/dev/sda"]
    );
    assert_eq!(
        args(&config, false),
        ["--quiet", "--label", "Deck", "--skip-validation", "--device", "/dev/sda"]
    );
    let mut format = format_config();
    format.device_flag = None;
    format.validate_flag = Some(String::from("--validate"));
    format.no_validate_flag = None;
    config.storage = Some(StorageConfig {
        trim_devices: script("trim"),
        format_device: format,
    });
    assert_eq!(
        args(&config, true),
        ["--quiet", "--label", "Deck", "--validate", "/dev/sda"]
    );
    assert_eq!(args(&config, false), ["--quiet", "--label", "Deck", "/dev/sda"]);
    let job = SteamOSManager::format_device(Some(&config), "/dev/sda", "Deck", true).unwrap();
    assert_eq!(job.operation, "formatting /dev/sda");
}

#[test]
fn root_wifi_debug_mode() {
    let mut manager = SteamOSManager::new(HardwareVariant::Galileo);
    assert!(manager.should_trace);
    assert!(!SteamOSManager::new(HardwareVariant::Jupiter).should_trace);
    assert_eq!(manager.wifi_debug_mode_state(), 0);
    assert_eq!(
        manager.set_wifi_debug_mode(0, BufferSize::Invalid("no number")).unwrap(),
        DebugModeStep::Unchanged
    );
    assert_eq!(
        manager.set_wifi_debug_mode(1, BufferSize::Absent).unwrap(),
        DebugModeStep::Change(WifiDebugMode::On, 20000)
    );
    assert_eq!(
        manager.set_wifi_debug_mode(1, BufferSize::Size(7)).unwrap(),
        DebugModeStep::Change(WifiDebugMode::On, 7)
    );
    assert_eq!(
        bus_words(manager.set_wifi_debug_mode(1, BufferSize::Invalid("no number"))),
        ("InvalidArgs", String::from("no number"))
    );
    assert_eq!(
        bus_words(manager.set_wifi_debug_mode(2, BufferSize::Absent)),
        ("InvalidArgs", String::from("No enum match for value {v}"))
    );

    let failed = manager.wifi_debug_mode_set(WifiDebugMode::On, Err(Failure::new("oops!")));
    assert_eq!(bus_words(failed), ("Failed", String::from("oops!")));
    assert_eq!(manager.wifi_debug_mode_state(), 0);
    assert_eq!(
        manager.set_wifi_backend(0).unwrap().script_args,
        ["iwd"]
    );

    assert!(manager.wifi_debug_mode_set(WifiDebugMode::On, Ok(())).is_ok());
    assert_eq!(manager.wifi_debug_mode_state(), 1);
    assert_eq!(
        manager.set_wifi_debug_mode(1, BufferSize::Absent).unwrap(),
        DebugModeStep::Unchanged
    );
    assert_eq!(
        bus_words(manager.set_wifi_backend(0)),
        (
            "Failed",
            String::from("operation not supported when wifi_debug_mode=tracing")
        )
    );
    assert!(manager.wifi_debug_mode_set(WifiDebugMode::Off, Ok(())).is_ok());
    assert_eq!(
        bus_words(manager.set_wifi_backend(2)),
        (
            "InvalidArgs",
            String::from("No enum match for WifiBackend value {v}")
        )
    );
}

#[test]
fn deck_programs() {
    let reset = deck::SteamOSManager::prepare_factory_reset();
    assert_eq!(reset.script, "/usr/bin/steamos-factory-reset-config");
    assert_eq!(reset.script_args, [""]);
    assert!(deck::SteamOSManager::als_calibration_gain().script_args.is_empty());
    let bios = deck::SteamOSManager::update_bios();
    assert_eq!(bios.script, "/usr/bin/jupiter-biosupdate");
    assert_eq!(bios.script_args, ["--auto"]);
    assert_eq!(
        deck::SteamOSManager::update_dock().script,
        "/usr/lib/jupiter-dock-updater/jupiter-dock-updater.sh"
    );
    assert_eq!(
        deck::SteamOSManager::trim_devices().script,
        "/usr/lib/hwsupport/trim-devices.sh"
    );
    assert_eq!(
        deck::SteamOSManager::format_device("/dev/sda", "Deck", true).script_args,
        ["--label", "Deck", "--device", "/dev/sda"]
    );
    let format = deck::SteamOSManager::format_device("/dev/sda", "Deck", false);
    assert_eq!(
        format.script_args,
        ["--label", "Deck", "--device", "/dev/sda", "--skip-validation"]
    );
    assert_eq!(format.operation, "formatting /dev/sda");
}

#[test]
fn deck_wifi_debug_mode() {
    let mut manager = deck::SteamOSManager::new(HardwareVariant::Jupiter);
    assert!(!manager.should_trace);
    assert_eq!(
        deck::SteamOSManager::set_wifi_debug_mode(1).unwrap(),
        WifiDebugMode::On
    );
    assert_eq!(
        bus_words(deck::SteamOSManager::set_wifi_debug_mode(2)).0,
        "InvalidArgs"
    );
    assert!(manager.wifi_debug_mode_set(WifiDebugMode::On, Ok(())).is_ok());
    assert_eq!(manager.wifi_debug_mode_state(), 1);
    assert_eq!(
        bus_words(manager.set_wifi_backend(0)),
        (
            "Failed",
            String::from("operation not supported when wifi_debug_mode=on")
        )
    );
}

#[test]
fn user_interface_matches() {
    let plan = create_interfaces(None, probes());
    assert!(plan.end.is_ok());
    assert_eq!(plan.interfaces[0], ManagerInterface::Manager);
    assert_eq!(plan.interfaces[0].suffix(), "Manager");
}

#[test]
fn interface_matches_ambient_light_sensor1() {
    assert!(matches_all(ManagerInterface::AmbientLightSensor1));
}

#[test]
fn interface_matches_cpu_scaling1() {
    assert!(matches_all(ManagerInterface::CpuScaling1));
}

#[test]
fn interface_matches_factory_reset1() {
    assert!(matches_all(ManagerInterface::FactoryReset1));
}

#[test]
fn interface_missing_factory_reset1() {
    assert!(missing_without_config(ManagerInterface::FactoryReset1));
}

#[test]
fn interface_matches_fan_control1() {
    assert!(matches_all(ManagerInterface::FanControl1));
}

#[test]
fn interface_missing_fan_control1() {
    assert!(missing_without_config(ManagerInterface::FanControl1));
}

#[test]
fn interface_matches_gpu_performance_level1() {
    assert!(matches_all(ManagerInterface::GpuPerformanceLevel1));
}

#[test]
fn interface_matches_gpu_power_profile1() {
    assert!(matches_all(ManagerInterface::GpuPowerProfile1));
}

#[test]
fn interface_matches_gpu_tdp_limit1() {
    assert!(matches_all(ManagerInterface::GpuTdpLimit1));
}

#[test]
fn interface_matches_hdmi_cec1() {
    assert!(matches_all(ManagerInterface::HdmiCec1));
}

#[test]
fn interface_matches_manager2() {
    assert!(matches_all(ManagerInterface::Manager2));
}

#[test]
fn interface_matches_storage1() {
    assert!(matches_all(ManagerInterface::Storage1));
}

#[test]
fn interface_missing_storage1() {
    assert!(missing_without_config(ManagerInterface::Storage1));
}

#[test]
fn interface_matches_update_bios1() {
    assert!(matches_all(ManagerInterface::UpdateBios1));
}

#[test]
fn interface_missing_update_bios1() {
    assert!(missing_without_config(ManagerInterface::UpdateBios1));
}

#[test]
fn interface_matches_update_dock1() {
    assert!(matches_all(ManagerInterface::UpdateDock1));
}

#[test]
fn interface_missing_update_dock1() {
    assert!(missing_without_config(ManagerInterface::UpdateDock1));
}

#[test]
fn interface_matches_wifi_power_management1() {
    assert!(matches_all(ManagerInterface::WifiPowerManagement1));
}

#[test]
fn interface_matches_wifi_debug() {
    assert!(matches_all(ManagerInterface::WifiDebug1));
}

#[test]
fn interfaces_of_bare_machine() {
    let config = PlatformConfig::default();
    let plan = create_interfaces(Some(&config), no_probes());
    assert!(plan.end.is_ok());
    assert_eq!(
        plan.interfaces,
        vec![
            ManagerInterface::Manager,
            ManagerInterface::CpuScaling1,
            ManagerInterface::Manager2,
            ManagerInterface::WifiDebug1,
            ManagerInterface::WifiPowerManagement1,
        ]
    );
}

#[test]
fn interfaces_of_unknown_machine() {
    let mut probes = probes();
    probes.deck = Err(Failure::new("no board"));
    let plan = create_interfaces(None, probes);
    assert_eq!(plan.interfaces, vec![ManagerInterface::Manager]);
    assert_eq!(plan.end.unwrap_err().to_string(), "no board");
}

#[test]
fn user_answers() {
    assert_eq!(
        available_cpu_scaling_governors(&vec![
            CPUScalingGovernor::SchedUtil,
            CPUScalingGovernor::OnDemand
        ]),
        ["schedutil", "ondemand"]
    );
    assert_eq!(
        available_gpu_performance_levels(&vec![GPUPerformanceLevel::ProfilePeak]),
        ["profile_peak"]
    );
    assert_eq!(
        hardware_currently_supported(Ok(HardwareCurrentlySupported::Supported)),
        2
    );
    assert_eq!(hardware_currently_supported(Err(Failure::new("oops!"))), 0);
    assert_eq!(set_hdmi_cec_state(0).unwrap().last(), Some(&CecStep::DaemonReload));
    assert_eq!(
        bus_words(set_hdmi_cec_state(3)),
        ("InvalidArgs", String::from("No enum match for value {v}"))
    );
}

#[test]
fn features_can_be_discovered() {
    for config in [None, Some(PlatformConfig::default()), Some(all_config())] {
        let config = config.as_ref();
        let offered = create_interfaces(config, probes()).interfaces;
        let discover = |interface| offered.contains(&interface);
        assert_eq!(
            discover(ManagerInterface::FactoryReset1),
            SteamOSManager::prepare_factory_reset(config, 1).is_ok()
        );
        assert_eq!(
            discover(ManagerInterface::UpdateBios1),
            SteamOSManager::update_bios(config).is_ok()
        );
        assert_eq!(
            discover(ManagerInterface::UpdateDock1),
            SteamOSManager::update_dock(config).is_ok()
        );
        assert_eq!(
            discover(ManagerInterface::Storage1),
            SteamOSManager::trim_devices(config).is_ok()
        );
        assert_eq!(
            discover(ManagerInterface::Storage1),
            SteamOSManager::format_device(config, "/dev/sda", "Deck", true).is_ok()
        );
        assert_eq!(
            discover(ManagerInterface::FanControl1),
            SteamOSManager::set_fan_control_state(config, 0).is_ok()
        );
    }
}

use steamos_manager::error::Failure;
use steamos_manager::systemd::SystemdUnit;
use steamos_manager::wifi::{
    from_on_off, get_wifi_backend, get_wifi_power_management_state,
    query_wifi_power_management_state, restart_iwd, set_wifi_backend, set_wifi_debug_mode,
    set_wifi_power_management_state, setup_iwd_config, start_tracing, stop_tracing, FileStep, RestartStep,
    WifiBackend, WifiDebugMode, WifiDebugStep, WifiPowerManagement, OVERRIDE_CONTENTS,
    OVERRIDE_FOLDER, OVERRIDE_PATH,
};

#[test]
fn wifi_backend_to_string() {
    assert_eq!(WifiBackend::Iwd.to_string(), "iwd");
    assert_eq!(WifiBackend::WPASupplicant.to_string(), "wpa_supplicant");
}

#[test]
fn test_setup_iwd_config() {
    // A file system of one file, which may or may not have its folder.
    let mut folder = false;
    let mut file: Option<String> = None;
    for want in [false, false, true, false, false, true, true] {
        for step in setup_iwd_config(want) {
            match step {
                FileStep::CreateDir(path) => {
                    assert_eq!(path, OVERRIDE_FOLDER);
                    folder = true;
                }
                FileStep::Write(path, contents) => {
                    assert_eq!(path, OVERRIDE_PATH);
                    assert!(folder);
                    file = Some(String::from(contents));
                }
                FileStep::Remove(path) => {
                    assert_eq!(path, OVERRIDE_PATH);
                    file = None;
                }
            }
        }
        assert_eq!(file.is_some(), want);
    }
    assert_eq!(file.unwrap(), OVERRIDE_CONTENTS);
    assert_eq!(
        OVERRIDE_CONTENTS,
        "[Service]\nExecStart=\nExecStart=/usr/lib/iwd/iwd -d\n"
    );
}

#[test]
fn test_get_wifi_backend() {
    assert!(get_wifi_backend("").is_err());
    assert!(get_wifi_backend("[device]").is_err());
    assert!(get_wifi_backend("[device]\nwifi.backend=fake\n").is_err());
    assert_eq!(
        get_wifi_backend("[device]\nwifi.backend=iwd\n").unwrap(),
        WifiBackend::Iwd
    );
    assert_eq!(
        get_wifi_backend("[device]\nwifi.backend=wpa_supplicant\n").unwrap(),
        WifiBackend::WPASupplicant
    );
    assert_eq!(
        get_wifi_backend("[device]").unwrap_err().to_string(),
        "WiFi backend not found in config"
    );
    assert_eq!(
        get_wifi_backend("wifi.backend=fake").unwrap_err().to_string(),
        "Unknown backend"
    );
    assert_eq!(
        get_wifi_backend("wifi.backend=wifi.backend= iwd \r\nwifi.backend=fake").unwrap(),
        WifiBackend::Iwd
    );
}

#[test]
fn wifi_enums_round_trip() {
    for mode in [WifiDebugMode::Off, WifiDebugMode::On] {
        assert_eq!(WifiDebugMode::try_from(mode.value()).unwrap(), mode);
        assert_eq!(WifiDebugMode::from_str(&mode.to_string()).unwrap(), mode);
    }
    for state in [WifiPowerManagement::Disabled, WifiPowerManagement::Enabled] {
        assert_eq!(WifiPowerManagement::try_from(state.value()).unwrap(), state);
        assert_eq!(WifiPowerManagement::from_str(&state.to_string()).unwrap(), state);
    }
    for backend in [WifiBackend::Iwd, WifiBackend::WPASupplicant] {
        assert_eq!(WifiBackend::try_from(backend.value()).unwrap(), backend);
        assert_eq!(WifiBackend::from_str(&backend.to_string()).unwrap(), backend);
    }
    assert_eq!(
        WifiDebugMode::try_from(2).unwrap_err().to_string(),
        "No enum match for value {v}"
    );
    assert_eq!(
        WifiPowerManagement::try_from(2).unwrap_err().to_string(),
        "No enum match for value {v}"
    );
    assert_eq!(
        WifiBackend::try_from(2).unwrap_err().to_string(),
        "No enum match for WifiBackend value {v}"
    );
}

#[test]
fn wifi_on_off() {
    for on in ["on", "On", "enable", "enabled", "1"] {
        assert_eq!(WifiDebugMode::from_str(on).unwrap(), WifiDebugMode::On);
        assert_eq!(
            WifiPowerManagement::from_str(on).unwrap(),
            WifiPowerManagement::Enabled
        );
    }
    for off in ["off", "Off", "disable", "disabled", "0"] {
        assert_eq!(WifiDebugMode::from_str(off).unwrap(), WifiDebugMode::Off);
        assert_eq!(
            WifiPowerManagement::from_str(off).unwrap(),
            WifiPowerManagement::Disabled
        );
    }
    assert_eq!(
        WifiDebugMode::from_str("MAYBE").unwrap_err().to_string(),
        "No enum match for value maybe"
    );
    assert!(from_on_off("enabled").unwrap());
    assert!(from_on_off("On").is_err());
}

#[test]
fn debug_mode_steps() {
    assert_eq!(
        set_wifi_debug_mode(WifiDebugMode::Off, 0, true, Ok(WifiBackend::Iwd)).unwrap(),
        vec![
            WifiDebugStep::StopTracing,
            WifiDebugStep::SetupIwdConfig(false),
            WifiDebugStep::RestartIwd,
        ]
    );
    assert_eq!(
        set_wifi_debug_mode(WifiDebugMode::On, 101, true, Ok(WifiBackend::Iwd)).unwrap(),
        vec![
            WifiDebugStep::SetupIwdConfig(true),
            WifiDebugStep::RestartIwd,
            WifiDebugStep::StartTracing(101),
        ]
    );
    assert_eq!(
        set_wifi_debug_mode(WifiDebugMode::On, 101, false, Ok(WifiBackend::Iwd)).unwrap(),
        vec![
            WifiDebugStep::SetupIwdConfig(true),
            WifiDebugStep::RestartIwd,
        ]
    );
    let failed = |mode, backend| {
        set_wifi_debug_mode(mode, 100, true, backend).unwrap_err().to_string()
    };
    assert_eq!(
        failed(WifiDebugMode::On, Ok(WifiBackend::Iwd)),
        "Buffer size too small"
    );
    assert_eq!(
        failed(WifiDebugMode::On, Ok(WifiBackend::WPASupplicant)),
        "Setting wifi debug mode not supported when backend is wpa_supplicant"
    );
    assert_eq!(failed(WifiDebugMode::Off, Err(Failure::new("oops!"))), "oops!");
}

#[test]
fn debug_mode_step_failures() {
    let failed = |step: WifiDebugStep| step.failed("oops!").to_string();
    assert_eq!(
        failed(WifiDebugStep::StopTracing),
        "stop_tracing command got an error: oops!"
    );
    assert_eq!(
        failed(WifiDebugStep::SetupIwdConfig(false)),
        "setup_iwd_config false got an error: oops!"
    );
    assert_eq!(
        failed(WifiDebugStep::SetupIwdConfig(true)),
        "setup_iwd_config true got an error: oops!"
    );
    assert_eq!(
        failed(WifiDebugStep::RestartIwd),
        "restart_iwd got an error: oops!"
    );
    assert_eq!(
        failed(WifiDebugStep::StartTracing(1)),
        "start_tracing got an error: oops!"
    );
}

#[test]
fn wifi_commands() {
    let commands = stop_tracing();
    assert_eq!(commands.len(), 2);
    assert_eq!(commands[0].script, "/usr/bin/trace-cmd");
    assert_eq!(commands[0].script_args, ["stop"]);
    assert_eq!(commands[1].script_args, ["extract", "-o", "/var/log/wifitrace.dat"]);
    assert_eq!(
        start_tracing(20000).script_args,
        ["start", "-e", "ath11k_wmi_diag", "-b", "20000"]
    );
    let command = set_wifi_backend(WifiBackend::WPASupplicant);
    assert_eq!(command.script, "/usr/bin/steamos-wifi-set-backend");
    assert_eq!(command.script_args, ["wpa_supplicant"]);
    assert_eq!(query_wifi_power_management_state().script_args, ["wlan0"]);
    assert_eq!(
        set_wifi_power_management_state(WifiPowerManagement::Enabled).script_args,
        ["wlan0", "power", "on"]
    );
    assert_eq!(
        set_wifi_power_management_state(WifiPowerManagement::Disabled).script_args,
        ["wlan0", "power", "off"]
    );
}

#[test]
fn power_management_by_output() {
    assert_eq!(
        get_wifi_power_management_state("wlan0  IEEE 802.11\n   Power Management:on\n").unwrap(),
        WifiPowerManagement::Enabled
    );
    assert_eq!(
        get_wifi_power_management_state("Power Management:off\nPower Management:on").unwrap(),
        WifiPowerManagement::Disabled
    );
    assert_eq!(
        get_wifi_power_management_state("wlan0\n").unwrap_err().to_string(),
        "Failed to query power management state"
    );
}

#[test]
fn debug_mode_off_undoes_on() {
    for should_trace in [false, true] {
        let mut state = (false, false);
        for mode in [WifiDebugMode::On, WifiDebugMode::Off, WifiDebugMode::On] {
            let steps = set_wifi_debug_mode(mode, 101, should_trace, Ok(WifiBackend::Iwd));
            for step in steps.unwrap() {
                match step {
                    WifiDebugStep::SetupIwdConfig(want) => state.0 = want,
                    WifiDebugStep::StopTracing => state.1 = false,
                    WifiDebugStep::StartTracing(_) => state.1 = true,
                    WifiDebugStep::RestartIwd => (),
                }
            }
            let on = mode == WifiDebugMode::On;
            assert_eq!(state, (on, on && should_trace));
        }
    }
}

#[test]
fn iwd_restarted_after_reload() {
    let steps = restart_iwd();
    assert_eq!(steps.len(), 2);
    assert!(matches!(steps[0], RestartStep::DaemonReload));
    match steps[1] {
        RestartStep::Restart(unit) => assert_eq!(
            SystemdUnit::new(unit).unwrap().path,
            "/org/freedesktop/systemd1/unit/iwd_2eservice"
        ),
        RestartStep::DaemonReload => panic!("not restarted"),
    }
}

use steamos_manager::hardware::{
    check_support, is_deck, variant, FactoryResetKind, FanAction, FanControl, FanControlState,
    FanQuery, HardwareCurrentlySupported, HardwareVariant,
};
use steamos_manager::platform::{PlatformConfig, RangeConfig, ScriptConfig, ServiceConfig};

#[test]
fn board_lookup() {
    assert_eq!(variant("LENOVO\n", None), Some(HardwareVariant::Unknown));
    assert_eq!(variant("Valve\n", None), None);
    assert_eq!(
        variant("Valve\n", Some("Jupiter\n")),
        Some(HardwareVariant::Jupiter)
    );
    assert_eq!(
        variant("Valve\n", Some("Galileo\n")),
        Some(HardwareVariant::Galileo)
    );
    assert_eq!(
        variant("Valve\n", Some("Neptune\n")),
        Some(HardwareVariant::Unknown)
    );
    assert_eq!(HardwareVariant::default(), HardwareVariant::Unknown);
}

#[test]
fn decks() {
    assert!(!is_deck(HardwareVariant::Unknown));
    assert!(is_deck(HardwareVariant::Jupiter));
    assert!(is_deck(HardwareVariant::Galileo));
    assert_eq!(
        PlatformConfig::load(true),
        Some("/usr/share/steamos-manager/platforms/jupiter.toml")
    );
    assert_eq!(PlatformConfig::load(false), None);
    let range = RangeConfig::new(3u32, 15u32);
    assert_eq!((range.min, range.max), (3, 15));
}

#[test]
fn support_by_exit_code() {
    assert_eq!(check_support(0), HardwareCurrentlySupported::Supported);
    assert_eq!(check_support(1), HardwareCurrentlySupported::UnsupportedPrototype);
    assert_eq!(check_support(-1), HardwareCurrentlySupported::UnsupportedPrototype);
}

#[test]
fn hardware_currently_supported_roundtrip() {
    let all = [
        (0, HardwareCurrentlySupported::Unknown),
        (1, HardwareCurrentlySupported::UnsupportedPrototype),
        (2, HardwareCurrentlySupported::Supported),
    ];
    for (number, support) in all {
        assert_eq!(support.value(), number);
        assert_eq!(HardwareCurrentlySupported::try_from(number).unwrap(), support);
    }
    assert!(HardwareCurrentlySupported::try_from(3).is_err());
    assert_eq!(HardwareCurrentlySupported::Unknown.to_string(), "Unknown");
    assert_eq!(
        HardwareCurrentlySupported::UnsupportedPrototype.to_string(),
        "Unsupported Prototype"
    );
    assert_eq!(
        HardwareCurrentlySupported::Supported.to_string(),
        "Supported"
    );
    assert_eq!(
        HardwareCurrentlySupported::try_from(3).unwrap_err().to_string(),
        "No discriminant in enum `HardwareCurrentlySupported` matches the value `3`"
    );
}

#[test]
fn fan_control_state_roundtrip() {
    let all = [
        (0, "BIOS", FanControlState::Bios),
        (1, "OS", FanControlState::Os),
    ];
    for (number, name, state) in all {
        assert_eq!(state.value(), number);
        assert_eq!(FanControlState::try_from(number).unwrap(), state);
        assert_eq!(state.to_string(), name);
        assert_eq!(FanControlState::from_str(name).unwrap(), state);
    }
    assert_eq!(
        FanControlState::from_str("os").unwrap(),
        FanControlState::Os
    );
    assert_eq!(
        FanControlState::from_str("bios").unwrap(),
        FanControlState::Bios
    );
    assert!(FanControlState::try_from(2).is_err());
    assert!(FanControlState::from_str("on").is_err());
    assert_eq!(
        FanControlState::from_str("ON").unwrap_err().to_string(),
        "No enum match for value on"
    );
    assert_eq!(
        FanControlState::from_lower("bios").unwrap(),
        FanControlState::Bios
    );
    assert!(FanControlState::from_lower("BIOS").is_err());
}

#[test]
fn factory_reset_kinds() {
    for kind in [FactoryResetKind::User, FactoryResetKind::OS, FactoryResetKind::All] {
        assert_eq!(FactoryResetKind::try_from(kind.value()).unwrap(), kind);
    }
    assert_eq!(FactoryResetKind::OS.value(), 2);
    assert_eq!(
        FactoryResetKind::try_from(0).unwrap_err().to_string(),
        "No discriminant in enum `FactoryResetKind` matches the value `0`"
    );
}

#[test]
fn test_fan_control() {
    let mut config = PlatformConfig::default();
    config.fan_control = Some(ServiceConfig::Systemd(String::from(
        "jupiter-fan-control.service",
    )));
    let fan_control = FanControl::new(Some(&config));
    let mut active = false;

    match fan_control.get_state().unwrap() {
        FanQuery::Unit(unit) => assert_eq!(unit, "jupiter-fan-control.service"),
        FanQuery::Script(_) => panic!("not a script"),
    }
    assert_eq!(FanControl::unit_state(active), FanControlState::Bios);
    match fan_control.set_state(FanControlState::Os).unwrap() {
        FanAction::StartUnit(unit) => {
            assert_eq!(unit, "jupiter-fan-control.service");
            active = true;
        }
        _ => panic!("not started"),
    }
    assert_eq!(FanControl::unit_state(active), FanControlState::Os);
    match fan_control.set_state(FanControlState::Bios).unwrap() {
        FanAction::StopUnit(unit) => {
            assert_eq!(unit, "jupiter-fan-control.service");
            active = false;
        }
        _ => panic!("not stopped"),
    }
    assert_eq!(FanControl::unit_state(active), FanControlState::Bios);
}

#[test]
fn fan_control_scripts() {
    let script = |name: &str| ScriptConfig {
        script: String::from(name),
        script_args: Vec::new(),
    };
    let mut config = PlatformConfig::default();
    config.fan_control = Some(ServiceConfig::Script {
        start: script("start"),
        stop: script("stop"),
        status: script("status"),
    });
    let fan_control = FanControl::new(Some(&config));
    match fan_control.get_state().unwrap() {
        FanQuery::Script(config) => assert_eq!(config.script, "status"),
        FanQuery::Unit(_) => panic!("not a unit"),
    }
    match fan_control.set_state(FanControlState::Os).unwrap() {
        FanAction::Script(config) => assert_eq!(config.script, "start"),
        _ => panic!("not a unit"),
    }
    match fan_control.set_state(FanControlState::Bios).unwrap() {
        FanAction::Script(config) => assert_eq!(config.script, "stop"),
        _ => panic!("not a unit"),
    }
    assert_eq!(FanControl::script_state(0).unwrap(), FanControlState::Bios);
    assert_eq!(FanControl::script_state(1).unwrap(), FanControlState::Os);
    assert_eq!(
        FanControl::script_state(-1).unwrap_err().to_string(),
        "Script exited abnormally"
    );
    assert_eq!(
        FanControl::script_state(2).unwrap_err().to_string(),
        "No discriminant in enum `FanControlState` matches the value `2`"
    );
}

#[test]
fn fan_control_not_configured() {
    let config = PlatformConfig::default();
    for fan_control in [FanControl::new(None), FanControl::new(Some(&config))] {
        match fan_control.get_state() {
            Err(e) => assert_eq!(e.to_string(), "Fan control not configured"),
            Ok(_) => panic!("configured"),
        }
        match fan_control.set_state(FanControlState::Os) {
            Err(e) => assert_eq!(e.to_string(), "Fan control not configured"),
            Ok(_) => panic!("configured"),
        }
    }
}

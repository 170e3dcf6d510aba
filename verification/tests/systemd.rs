use steamos_manager::systemd::{escape, EnableState, SystemdUnit};

#[test]
fn enable_state_roundtrip() {
    let all = [
        ("disabled", EnableState::Disabled),
        ("enabled", EnableState::Enabled),
        ("masked", EnableState::Masked),
        ("static", EnableState::Static),
    ];
    for (name, state) in all {
        assert_eq!(state.to_string(), name);
        assert_eq!(EnableState::from_str(name).unwrap(), state);
    }
    assert!(EnableState::from_str("loaded").is_err());
    assert_eq!(
        EnableState::from_str("loaded").unwrap_err().to_string(),
        "Matching variant not found"
    );
}

#[test]
fn test_escape() {
    assert_eq!(escape("systemd"), "systemd");
    assert_eq!(escape("system d"), "system_20d");
}

#[test]
fn escape_all_characters() {
    assert_eq!(escape(""), "");
    assert_eq!(escape("jupiter-fan-control.service"), "jupiter_2dfan_2dcontrol_2eservice");
    assert_eq!(escape("a\tb_\u{0}"), "a_09b_5f_00");
    assert_eq!(escape("\u{e9}\u{20d}\u{1f600}"), "_e9_20d_1f600");
}

#[test]
fn escape_tells_names_apart() {
    assert_ne!(escape("a-b"), escape("a_2db"));
    assert_ne!(escape("a b"), escape("a_b"));
    // Beyond two digits the end of an escape cannot be told.
    assert_eq!(escape(" d"), escape("\u{20d}"));
}

#[test]
fn test_unit() {
    let unit = SystemdUnit::new("test.service").expect("unit");
    assert_eq!(unit.name, "test.service");
    assert_eq!(unit.path, "/org/freedesktop/systemd1/unit/test_2eservice");
    assert!(SystemdUnit::active("active"));
    assert!(!SystemdUnit::active("inactive"));
    assert_eq!(
        SystemdUnit::enabled("enabled").unwrap(),
        EnableState::Enabled
    );
    assert!(SystemdUnit::enabled("loaded").is_err());
    assert!(SystemdUnit::new("").is_err());
}

#[test]
fn test_manager() {
    let change = (
        String::default(),
        String::default(),
        String::from("test.service"),
    );
    assert!(SystemdUnit::changed(&vec![change]));
    assert!(!SystemdUnit::changed(&Vec::new()));
}

#[test]
fn escaped_names_stand_in_paths() {
    for name in ["a/b", "..", "\u{2028}\0", "A-z_9@x.service"] {
        let escaped = escape(name);
        assert!(escaped.chars().all(|c| c.is_ascii_alphanumeric() || c == '_'), "{escaped}");
        let unit = SystemdUnit::new(name).expect("unit");
        assert_eq!(unit.path, format!("/org/freedesktop/systemd1/unit/{escaped}"));
        assert!(zbus::zvariant::ObjectPath::try_from(unit.path).is_ok());
    }
    let words = zbus::zvariant::ObjectPath::try_from("/org/freedesktop/systemd1/unit/")
        .unwrap_err()
        .to_string();
    match SystemdUnit::new("") {
        Err(e) => assert_eq!(e.to_string(), words),
        Ok(_) => panic!("no error"),
    }
}

#[test]
fn words_for_unknown_names() {
    assert_eq!(
        EnableState::from_str("loaded").unwrap_err().to_string(),
        strum::ParseError::VariantNotFound.to_string()
    );
}

use steamos_manager::ctl::{
    all_properties, available_cpu_scaling_governors, available_gpu_power_profiles,
    cpu_scaling_governor, fan_control_state, gpu_performance_level, gpu_power_profile,
    hdmi_cec_state, wifi_backend, wifi_debug_mode, wifi_power_management_state, Property,
};

fn strings(texts: &[&str]) -> Vec<String> {
    texts.iter().map(|text| String::from(*text)).collect()
}

#[test]
fn printed_states() {
    assert_eq!(fan_control_state(1), "Fan control state: OS");
    assert_eq!(fan_control_state(7), "Got unknown value 7 from backend");
    assert_eq!(cpu_scaling_governor("schedutil"), "CPU Governor: schedutil");
    assert_eq!(
        cpu_scaling_governor("turbo"),
        "Unknown CPU governor or unable to get type from turbo"
    );
    assert_eq!(
        gpu_power_profile("CAPPED"),
        "GPU Power Profile: CAPPED capped"
    );
    assert_eq!(
        gpu_power_profile("turbo"),
        "Unknown GPU power profile or unable to get type from turbo"
    );
    assert_eq!(gpu_performance_level("low"), "GPU performance level: low");
    assert_eq!(
        gpu_performance_level("Low"),
        "Got unknown value Low from backend"
    );
    assert_eq!(wifi_backend("iwd"), "Wifi backend: iwd");
    assert_eq!(wifi_backend("fake"), "Got unknown value fake from backend");
    assert_eq!(wifi_debug_mode(1), "Wifi debug mode: On");
    assert_eq!(wifi_debug_mode(2), "Got unknown value 2 from backend");
    assert_eq!(
        wifi_power_management_state(0),
        "Wifi power management state: Disabled"
    );
    assert_eq!(
        wifi_power_management_state(4294967295),
        "Got unknown value 4294967295 from backend"
    );
    assert_eq!(hdmi_cec_state(2), "HDMI-CEC state: control-and-wake");
    assert_eq!(hdmi_cec_state(3), "Got unknown value 3 from backend");
}

#[test]
fn printed_lists() {
    assert_eq!(
        available_cpu_scaling_governors(&strings(&["b", "a"])),
        "Governors:\n\nb\na\n"
    );
    assert_eq!(
        available_gpu_power_profiles(strings(&["VR", "CAPPED", "a", "VIDEO", "VR"])),
        "Profiles:\n\n- CAPPED\n- VIDEO\n- VR\n- VR\n- a\n"
    );
    assert_eq!(available_gpu_power_profiles(Vec::new()), "Profiles:\n\n");
}

#[test]
fn printed_properties() {
    let property = |name: &str, value: &str| Property {
        name: String::from(name),
        value: String::from(value),
    };
    assert_eq!(
        all_properties(&vec![
            property("Version", "9"),
            property("TdpLimitMin", "0"),
            property("WifiBackend", "1"),
        ]),
        "TdpLimitMin: 0\nVersion: 9\nWifiBackend: 1\n"
    );
    assert_eq!(all_properties(&Vec::new()), "");
}

#[test]
fn printed_in_one_order() {
    let expected = available_gpu_power_profiles(strings(&["a", "b", "B"]));
    assert_eq!(expected, "Profiles:\n\n- B\n- a\n- b\n");
    for names in [["B", "b", "a"], ["b", "a", "B"]] {
        assert_eq!(available_gpu_power_profiles(strings(&names)), expected);
    }
}

use std::collections::HashMap;

use steamos_manager::power::{
    find_hwmon, get_available_cpu_scaling_governors, get_available_gpu_performance_levels,
    get_cpu_scaling_governor, get_gpu_clocks,
    get_gpu_performance_level, get_gpu_power_profile, get_gpu_power_profiles, get_tdp_limit,
    set_cpu_scaling_governor, set_gpu_clocks, set_gpu_performance_level, set_gpu_power_profile,
    set_tdp_limit, CPUScalingGovernor, GPUPerformanceLevel, GPUPowerProfile, GovernorWrite,
    PolicyEntry, PolicyStep, TDP_LIMIT1, TDP_LIMIT2,
};

fn clocks_table(mhz: u32) -> String {
    format!(
        "OD_SCLK:
0:       {mhz}Mhz
1:       {mhz}Mhz
OD_RANGE:
SCLK:     200Mhz       1600Mhz
CCLK:    1400Mhz       3500Mhz
CCLK_RANGE in Core0:
0:       1400Mhz
1:       3500Mhz\n"
    )
}

fn format_clocks(mhz: u32) -> String {
    format!("s 0 {mhz}\ns 1 {mhz}\nc\n")
}

const PROFILES: &str = " 1 3D_FULL_SCREEN
 3          VIDEO*
 4             VR
 5        COMPUTE
 6         CUSTOM
 8         CAPPED
 9       UNCAPPED";

const UNKNOWN_PROFILES: &str = " 1 3D_FULL_SCREEN
 2            CGA
 3          VIDEO*
 4             VR
 5        COMPUTE
 6         CUSTOM
 8         CAPPED
 9       UNCAPPED";

#[test]
fn test_get_gpu_performance_level() {
    assert!(get_gpu_performance_level("").is_err());
    assert_eq!(
        get_gpu_performance_level("auto\n").unwrap(),
        GPUPerformanceLevel::Auto
    );
    assert_eq!(
        get_gpu_performance_level("low\n").unwrap(),
        GPUPerformanceLevel::Low
    );
    assert_eq!(
        get_gpu_performance_level("high\n").unwrap(),
        GPUPerformanceLevel::High
    );
    assert_eq!(
        get_gpu_performance_level("manual\n").unwrap(),
        GPUPerformanceLevel::Manual
    );
    assert_eq!(
        get_gpu_performance_level("profile_peak\n").unwrap(),
        GPUPerformanceLevel::ProfilePeak
    );
    assert!(get_gpu_performance_level("nothing\n").is_err());
    assert_eq!(
        get_gpu_performance_level("nothing\n").unwrap_err().to_string(),
        "Matching variant not found"
    );
}

#[test]
fn test_set_gpu_performance_level() {
    assert_eq!(set_gpu_performance_level(GPUPerformanceLevel::Auto), "auto");
    assert_eq!(set_gpu_performance_level(GPUPerformanceLevel::Low), "low");
    assert_eq!(set_gpu_performance_level(GPUPerformanceLevel::High), "high");
    assert_eq!(set_gpu_performance_level(GPUPerformanceLevel::Manual), "manual");
    assert_eq!(
        set_gpu_performance_level(GPUPerformanceLevel::ProfilePeak),
        "profile_peak"
    );
}

#[test]
fn test_get_tdp_limit() {
    assert!(get_tdp_limit("").is_err());
    assert_eq!(get_tdp_limit("15000000\n").unwrap(), 15);
    assert_eq!(get_tdp_limit("999999").unwrap(), 0);
    assert_eq!(
        get_tdp_limit("").unwrap_err().to_string(),
        "cannot parse integer from empty string"
    );
    assert_eq!(
        get_tdp_limit("4294967296").unwrap_err().to_string(),
        "number too large to fit in target type"
    );
    assert_eq!(
        get_tdp_limit(" 15000000").unwrap_err().to_string(),
        "invalid digit found in string"
    );
}

#[test]
fn test_set_tdp_limit() {
    assert_eq!(set_tdp_limit(2).unwrap_err().to_string(), "Invalid limit");
    assert_eq!(set_tdp_limit(20).unwrap_err().to_string(), "Invalid limit");
    for (limit, data) in [(10, "10000000"), (15, "15000000"), (3, "3000000")] {
        let writes = set_tdp_limit(limit).unwrap();
        assert_eq!(writes.len(), 2);
        assert_eq!((writes[0].file, writes[0].required), (TDP_LIMIT1, true));
        assert_eq!((writes[1].file, writes[1].required), (TDP_LIMIT2, false));
        assert_eq!(writes[0].data, data);
        assert_eq!(writes[1].data, data);
    }
    assert_eq!(set_tdp_limit(16).unwrap_err().to_string(), "Invalid limit");
}

#[test]
fn tdp_limit_read_back() {
    for limit in 3..=15 {
        assert_eq!(get_tdp_limit(&set_tdp_limit(limit).unwrap()[0].data).unwrap(), limit);
    }
}

#[test]
fn test_get_gpu_clocks() {
    assert_eq!(get_gpu_clocks("").unwrap(), 0);
    assert_eq!(get_gpu_clocks(&clocks_table(1600)).unwrap(), 1600);
    assert_eq!(get_gpu_clocks("OD_SCLK:").unwrap(), 0);
    assert_eq!(get_gpu_clocks("OD_SCLK:\n").unwrap(), 0);
    assert_eq!(get_gpu_clocks("OD_SCLK:\n0: 300\n").unwrap(), 0);
    assert_eq!(get_gpu_clocks("junk\nOD_SCLK:\n0: 300MhzMhz").unwrap(), 300);
    assert_eq!(
        get_gpu_clocks("OD_SCLK:\n0: fastMhz\n").unwrap_err().to_string(),
        "invalid digit found in string"
    );
    assert_eq!(
        get_gpu_clocks("OD_SCLK:\n0: Mhz\n").unwrap_err().to_string(),
        "cannot parse integer from empty string"
    );
}

#[test]
fn test_set_gpu_clocks() {
    assert!(set_gpu_clocks(100).is_err());
    assert!(set_gpu_clocks(2000).is_err());
    assert_eq!(set_gpu_clocks(199).unwrap_err().to_string(), "Invalid clocks");
    assert_eq!(set_gpu_clocks(1601).unwrap_err().to_string(), "Invalid clocks");
    assert_eq!(set_gpu_clocks(200).unwrap().concat(), format_clocks(200));
    assert_eq!(set_gpu_clocks(1600).unwrap().concat(), format_clocks(1600));
    assert_eq!(set_gpu_clocks(200).unwrap().len(), 3);
}

#[test]
fn gpu_power_profile_roundtrip() {
    let all = [
        (1, "3d_full_screen", GPUPowerProfile::FullScreen),
        (3, "video", GPUPowerProfile::Video),
        (4, "vr", GPUPowerProfile::VR),
        (5, "compute", GPUPowerProfile::Compute),
        (6, "custom", GPUPowerProfile::Custom),
        (8, "capped", GPUPowerProfile::Capped),
        (9, "uncapped", GPUPowerProfile::Uncapped),
    ];
    for (number, name, profile) in all {
        assert_eq!(profile.value(), number);
        assert_eq!(GPUPowerProfile::try_from(number).unwrap(), profile);
        assert_eq!(profile.to_string(), name);
        assert_eq!(GPUPowerProfile::from_str(name).unwrap(), profile);
        assert_eq!(
            GPUPowerProfile::from_str(&name.to_uppercase()).unwrap(),
            profile
        );
    }
    assert!(GPUPowerProfile::try_from(0).is_err());
    assert!(GPUPowerProfile::try_from(2).is_err());
    assert!(GPUPowerProfile::try_from(10).is_err());
    assert!(GPUPowerProfile::from_str("fullscreen").is_err());
    assert_eq!(
        GPUPowerProfile::from_str("FullScreen").unwrap_err().to_string(),
        "No match for value FullScreen"
    );
    assert_eq!(
        GPUPowerProfile::try_from(7).unwrap_err().to_string(),
        "No GPUPowerProfile for value"
    );
    assert_eq!(
        GPUPowerProfile::from_lower("vr", "VR").unwrap(),
        GPUPowerProfile::VR
    );
}

#[test]
fn cpu_governor_roundtrip() {
    let all = [
        ("conservative", CPUScalingGovernor::Conservative),
        ("ondemand", CPUScalingGovernor::OnDemand),
        ("userspace", CPUScalingGovernor::UserSpace),
        ("powersave", CPUScalingGovernor::PowerSave),
        ("performance", CPUScalingGovernor::Performance),
        ("schedutil", CPUScalingGovernor::SchedUtil),
    ];
    for (name, governor) in all {
        assert_eq!(governor.to_string(), name);
        assert_eq!(CPUScalingGovernor::from_str(name).unwrap(), governor);
        assert_eq!(set_cpu_scaling_governor(governor), name);
        assert_eq!(
            get_cpu_scaling_governor(&set_cpu_scaling_governor(governor)).unwrap(),
            governor
        );
    }
    assert!(CPUScalingGovernor::from_str("usersave").is_err());
}

#[test]
fn gpu_performance_level_roundtrip() {
    let all = [
        (0, "auto", GPUPerformanceLevel::Auto),
        (1, "low", GPUPerformanceLevel::Low),
        (2, "high", GPUPerformanceLevel::High),
        (3, "manual", GPUPerformanceLevel::Manual),
        (4, "profile_peak", GPUPerformanceLevel::ProfilePeak),
    ];
    for (number, name, level) in all {
        assert_eq!(level.value(), number);
        assert_eq!(GPUPerformanceLevel::try_from(number).unwrap(), level);
        assert_eq!(level.to_string(), name);
        assert_eq!(GPUPerformanceLevel::from_str(name).unwrap(), level);
    }
    assert!(GPUPerformanceLevel::try_from(9).is_err());
    assert!(GPUPerformanceLevel::from_str("peak_performance").is_err());
    assert_eq!(
        GPUPerformanceLevel::try_from(9).unwrap_err().to_string(),
        "No enum match for value {v}"
    );
}

#[test]
fn read_power_profiles() {
    let profiles = get_gpu_power_profiles(PROFILES, false).expect("get");
    assert_eq!(
        profiles,
        HashMap::from([
            (GPUPowerProfile::FullScreen.value(), String::from("3D_FULL_SCREEN")),
            (GPUPowerProfile::Video.value(), String::from("VIDEO")),
            (GPUPowerProfile::VR.value(), String::from("VR")),
            (GPUPowerProfile::Compute.value(), String::from("COMPUTE")),
            (GPUPowerProfile::Custom.value(), String::from("CUSTOM")),
            (GPUPowerProfile::Capped.value(), String::from("CAPPED")),
            (GPUPowerProfile::Uncapped.value(), String::from("UNCAPPED"))
        ])
    );

    let profiles = get_gpu_power_profiles(PROFILES, true).expect("get");
    assert_eq!(
        profiles,
        HashMap::from([
            (GPUPowerProfile::Capped.value(), String::from("CAPPED")),
            (GPUPowerProfile::Uncapped.value(), String::from("UNCAPPED"))
        ])
    );
}

#[test]
fn read_unknown_power_profiles() {
    let profiles = get_gpu_power_profiles(UNKNOWN_PROFILES, false).expect("get");
    assert_eq!(
        profiles,
        HashMap::from([
            (2, String::from("CGA")),
            (GPUPowerProfile::FullScreen.value(), String::from("3D_FULL_SCREEN")),
            (GPUPowerProfile::Video.value(), String::from("VIDEO")),
            (GPUPowerProfile::VR.value(), String::from("VR")),
            (GPUPowerProfile::Compute.value(), String::from("COMPUTE")),
            (GPUPowerProfile::Custom.value(), String::from("CUSTOM")),
            (GPUPowerProfile::Capped.value(), String::from("CAPPED")),
            (GPUPowerProfile::Uncapped.value(), String::from("UNCAPPED"))
        ])
    );

    let profiles = get_gpu_power_profiles(UNKNOWN_PROFILES, true).expect("get");
    assert_eq!(
        profiles,
        HashMap::from([
            (GPUPowerProfile::Capped.value(), String::from("CAPPED")),
            (GPUPowerProfile::Uncapped.value(), String::from("UNCAPPED"))
        ])
    );
}

#[test]
fn power_profile_line_errors() {
    assert_eq!(
        get_gpu_power_profiles("1 A\n\n", false).unwrap_err().to_string(),
        "Unable to get value from sysfs"
    );
    assert_eq!(
        get_gpu_power_profiles("1 A\nB\n", false).unwrap_err().to_string(),
        "Unable to parse value from sysfs invalid digit found in string"
    );
    assert_eq!(
        get_gpu_power_profiles("1\n", true).unwrap_err().to_string(),
        "Unable to get name from sysfs"
    );
    assert_eq!(
        get_gpu_power_profile("x *\n").unwrap_err().to_string(),
        "Unable to parse value from sysfs invalid digit found in string"
    );
    // A line behind the current profile is not read.
    assert_eq!(
        get_gpu_power_profile("3 VIDEO*\n\n").unwrap(),
        GPUPowerProfile::Video
    );
    assert_eq!(get_gpu_power_profiles("", false).unwrap(), HashMap::new());
}

#[test]
fn read_power_profile() {
    assert_eq!(
        get_gpu_power_profile(PROFILES).expect("get"),
        GPUPowerProfile::Video
    );
}

#[test]
fn read_no_power_profile() {
    let contents = PROFILES.replace('*', "");
    assert!(get_gpu_power_profile(&contents).is_err());
    assert_eq!(
        get_gpu_power_profile(&contents).unwrap_err().to_string(),
        "Unable to determine current gpu power profile"
    );
}

#[test]
fn read_unknown_power_profile() {
    let contents = " 1 3D_FULL_SCREEN
 2            CGA*
 3          VIDEO
 4             VR
 5        COMPUTE
 6         CUSTOM
 8         CAPPED
 9       UNCAPPED";
    assert!(get_gpu_power_profile(contents).is_err());
    assert_eq!(
        get_gpu_power_profile(contents).unwrap_err().to_string(),
        "Unable to parse value for gpu power profile No GPUPowerProfile for value"
    );
}

#[test]
fn write_power_profile() {
    assert_eq!(set_gpu_power_profile(GPUPowerProfile::FullScreen), "1");
    assert_eq!(set_gpu_power_profile(GPUPowerProfile::Uncapped), "9");
}

#[test]
fn read_cpu_available_governors() {
    let contents = "conservative ondemand userspace powersave performance schedutil";
    assert_eq!(
        get_available_cpu_scaling_governors(contents),
        vec![
            CPUScalingGovernor::Conservative,
            CPUScalingGovernor::OnDemand,
            CPUScalingGovernor::UserSpace,
            CPUScalingGovernor::PowerSave,
            CPUScalingGovernor::Performance,
            CPUScalingGovernor::SchedUtil
        ]
    );
}

#[test]
fn read_invalid_cpu_available_governors() {
    let contents = "conservative ondemand userspace rescascade powersave performance schedutil\n";
    assert_eq!(
        get_available_cpu_scaling_governors(contents),
        vec![
            CPUScalingGovernor::Conservative,
            CPUScalingGovernor::OnDemand,
            CPUScalingGovernor::UserSpace,
            CPUScalingGovernor::PowerSave,
            CPUScalingGovernor::Performance,
            CPUScalingGovernor::SchedUtil
        ]
    );
}

#[test]
fn read_cpu_governor() {
    assert_eq!(
        get_cpu_scaling_governor("ondemand\n").unwrap(),
        CPUScalingGovernor::OnDemand
    );
}

#[test]
fn read_invalid_cpu_governor() {
    assert!(get_cpu_scaling_governor("rescascade\n").is_err());
    assert_eq!(
        get_cpu_scaling_governor("rescascade\n").unwrap_err().to_string(),
        "Error converting CPU scaling governor sysfs file contents to enumeration: \
         Matching variant not found"
    );
}

#[test]
fn governor_written_to_policies() {
    let mut walk = GovernorWrite::new();
    assert!(matches!(
        walk.write_cpu_governor_sysfs_contents(PolicyEntry::Named("boost")),
        PolicyStep::Skip
    ));
    match walk.write_cpu_governor_sysfs_contents(PolicyEntry::Named("policy3")) {
        PolicyStep::Write(path) => assert_eq!(
            path,
            "/sys/devices/system/cpu/cpufreq/policy3/scaling_governor"
        ),
        _ => panic!("no write"),
    }
    assert!(matches!(
        walk.write_cpu_governor_sysfs_contents(PolicyEntry::End),
        PolicyStep::Done(Ok(()))
    ));
}

#[test]
fn governor_without_policies() {
    let mut walk = GovernorWrite::new();
    match walk.write_cpu_governor_sysfs_contents(PolicyEntry::End) {
        PolicyStep::Done(Err(e)) => assert_eq!(
            e.to_string(),
            "No data written, unable to find any policyX sysfs paths"
        ),
        _ => panic!("no error"),
    }
    match walk.write_cpu_governor_sysfs_contents(PolicyEntry::NotText) {
        PolicyStep::Done(Err(e)) => assert_eq!(e.to_string(), "Unable to convert path to string"),
        _ => panic!("no error"),
    }
}

#[test]
fn hwmon_by_name() {
    assert!(find_hwmon(Some("amdgpu")).unwrap());
    assert!(find_hwmon(Some("amdgpu\n")).unwrap());
    assert!(!find_hwmon(Some("nvme\n")).unwrap());
    assert_eq!(find_hwmon(None).unwrap_err().to_string(), "hwmon not found");
}

#[test]
fn available_levels() {
    assert!(get_available_gpu_performance_levels(false).is_empty());
    let levels = get_available_gpu_performance_levels(true);
    assert_eq!(levels.len(), 5);
    for (number, level) in levels.into_iter().enumerate() {
        assert_eq!(level.value() as usize, number);
    }
}

//! Wireless networking: its backend, its power management and its debug mode.

use vstd::prelude::*;

use crate::error::{outcome, Failure};
use crate::number::{decimal, decimal_of};
use crate::platform::ScriptConfig;
use crate::text::{
    ascii, ascii_lower, blank, law_trim_iff_padded, law_trim_matches, lines, lines_of, lowercase,
    padded, same, starts_with, texts, to_lowercase, trim, trim_start_matches, trimmed,
    trimmed_start_matches, white,
};

verus! {

/// What the override of the wireless daemon's unit holds.
pub const OVERRIDE_CONTENTS: &'static str =
    "[Service]\nExecStart=\nExecStart=/usr/lib/iwd/iwd -d\n";

/// The folder of the override.
pub const OVERRIDE_FOLDER: &'static str = "/etc/systemd/system/iwd.service.d";

/// The file of the override.
pub const OVERRIDE_PATH: &'static str = "/etc/systemd/system/iwd.service.d/override.conf";

// Only use one path for output for now. If needed we can add a timestamp later
// to have multiple files, etc.
/// Where the trace is written.
pub const OUTPUT_FILE: &'static str = "/var/log/wifitrace.dat";

/// The program that traces.
pub const TRACE_CMD_PATH: &'static str = "/usr/bin/trace-cmd";

/// The buffer of a trace must be larger than this.
pub const MIN_BUFFER_SIZE: u32 = 100;

/// The file that names the backend.
pub const WIFI_BACKEND_PATH: &'static str = "/etc/NetworkManager/conf.d/wifi_backend.conf";

/// The unit of the wireless daemon.
pub const IWD_UNIT: &'static str = "iwd.service";

/// Whether wireless networking is being debugged.
#[derive(Clone, Copy, Debug, PartialEq, Eq, Structural)]
pub enum WifiDebugMode {
    Off,
    On,
}

/// Whether the wireless device saves power.
#[derive(Clone, Copy, Debug, PartialEq, Eq, Structural)]
pub enum WifiPowerManagement {
    Disabled,
    Enabled,
}

/// Which daemon is behind wireless networking.
#[derive(Clone, Copy, Debug, PartialEq, Eq, Structural)]
pub enum WifiBackend {
    Iwd,
    WPASupplicant,
}

/// Whether a text in lower case stands for on or for off.
pub open spec fn on_off(lower: Seq<char>) -> Result<bool, Seq<char>> {
    if lower == "on"@ || lower == "enable"@ || lower == "enabled"@ || lower == "1"@ {
        Ok(true)
    } else if lower == "off"@ || lower == "disable"@ || lower == "disabled"@ || lower == "0"@ {
        Ok(false)
    } else {
        Err("No enum match for value "@ + lower)
    }
}

/// Whether a text in lower case stands for on or for off.
pub fn from_on_off(lower: &str) -> (r: Result<bool, Failure>)
    ensures
        outcome(r) == on_off(lower@),
{
    if same(lower, "on") || same(lower, "enable") || same(lower, "enabled") || same(lower, "1") {
        Ok(true)
    } else if same(lower, "off") || same(lower, "disable") || same(lower, "disabled") || same(
        lower,
        "0",
    ) {
        Ok(false)
    } else {
        Err(Failure::with_detail("No enum match for value ", lower))
    }
}

impl WifiDebugMode {
    /// The mode's number.
    pub open spec fn number(self) -> u32 {
        match self {
            WifiDebugMode::Off => 0,
            WifiDebugMode::On => 1,
        }
    }

    /// The mode's name.
    pub open spec fn text(self) -> Seq<char> {
        match self {
            WifiDebugMode::Off => "Off"@,
            WifiDebugMode::On => "On"@,
        }
    }

    /// The mode with a given number.
    pub open spec fn of_number(v: int) -> Result<WifiDebugMode, Seq<char>> {
        if v == 0 {
            Ok(WifiDebugMode::Off)
        } else if v == 1 {
            Ok(WifiDebugMode::On)
        } else {
            Err("No enum match for value {v}"@)
        }
    }

    /// The mode that a text in lower case stands for.
    pub open spec fn of_lower(lower: Seq<char>) -> Result<WifiDebugMode, Seq<char>> {
        match on_off(lower) {
            Ok(on) => Ok(
                if on {
                    WifiDebugMode::On
                } else {
                    WifiDebugMode::Off
                },
            ),
            Err(e) => Err(e),
        }
    }

    /// The mode's number.
    pub fn value(self) -> (r: u32)
        ensures
            r == self.number(),
    {
        match self {
            WifiDebugMode::Off => 0,
            WifiDebugMode::On => 1,
        }
    }

    /// The mode with the number `v`.
    pub fn try_from(v: u32) -> (r: Result<WifiDebugMode, Failure>)
        ensures
            outcome(r) == WifiDebugMode::of_number(v as int),
    {
        if v == 0 {
            Ok(WifiDebugMode::Off)
        } else if v == 1 {
            Ok(WifiDebugMode::On)
        } else {
            Err(Failure::new("No enum match for value {v}"))
        }
    }

    /// The mode that `input` stands for, in letters of either case.
    pub fn from_str(input: &str) -> (r: Result<WifiDebugMode, Failure>)
        ensures
            outcome(r) == WifiDebugMode::of_lower(lowercase(input@)),
            ascii(input@) ==> outcome(r) == WifiDebugMode::of_lower(ascii_lower(input@)),
    {
        let lower = to_lowercase(input);
        match from_on_off(lower.as_str()) {
            Ok(on) => if on {
                Ok(WifiDebugMode::On)
            } else {
                Ok(WifiDebugMode::Off)
            },
            Err(e) => Err(e),
        }
    }

    /// The mode's name.
    pub fn to_string(&self) -> (r: String)
        ensures
            r@ == self.text(),
    {
        let s = match self {
            WifiDebugMode::Off => "Off",
            WifiDebugMode::On => "On",
        };
        s.to_owned()
    }
}

impl WifiPowerManagement {
    /// The state's number.
    pub open spec fn number(self) -> u32 {
        match self {
            WifiPowerManagement::Disabled => 0,
            WifiPowerManagement::Enabled => 1,
        }
    }

    /// The state's name.
    pub open spec fn text(self) -> Seq<char> {
        match self {
            WifiPowerManagement::Disabled => "Disabled"@,
            WifiPowerManagement::Enabled => "Enabled"@,
        }
    }

    /// The state with a given number.
    pub open spec fn of_number(v: int) -> Result<WifiPowerManagement, Seq<char>> {
        if v == 0 {
            Ok(WifiPowerManagement::Disabled)
        } else if v == 1 {
            Ok(WifiPowerManagement::Enabled)
        } else {
            Err("No enum match for value {v}"@)
        }
    }

    /// The state that a text in lower case stands for.
    pub open spec fn of_lower(lower: Seq<char>) -> Result<WifiPowerManagement, Seq<char>> {
        match on_off(lower) {
            Ok(on) => Ok(
                if on {
                    WifiPowerManagement::Enabled
                } else {
                    WifiPowerManagement::Disabled
                },
            ),
            Err(e) => Err(e),
        }
    }

    /// The state's number.
    pub fn value(self) -> (r: u32)
        ensures
            r == self.number(),
    {
        match self {
            WifiPowerManagement::Disabled => 0,
            WifiPowerManagement::Enabled => 1,
        }
    }

    /// The state with the number `v`.
    pub fn try_from(v: u32) -> (r: Result<WifiPowerManagement, Failure>)
        ensures
            outcome(r) == WifiPowerManagement::of_number(v as int),
    {
        if v == 0 {
            Ok(WifiPowerManagement::Disabled)
        } else if v == 1 {
            Ok(WifiPowerManagement::Enabled)
        } else {
            Err(Failure::new("No enum match for value {v}"))
        }
    }

    /// The state that `input` stands for, in letters of either case.
    pub fn from_str(input: &str) -> (r: Result<WifiPowerManagement, Failure>)
        ensures
            outcome(r) == WifiPowerManagement::of_lower(lowercase(input@)),
            ascii(input@) ==> outcome(r) == WifiPowerManagement::of_lower(ascii_lower(input@)),
    {
        let lower = to_lowercase(input);
        match from_on_off(lower.as_str()) {
            Ok(on) => if on {
                Ok(WifiPowerManagement::Enabled)
            } else {
                Ok(WifiPowerManagement::Disabled)
            },
            Err(e) => Err(e),
        }
    }

    /// The state's name.
    pub fn to_string(&self) -> (r: String)
        ensures
            r@ == self.text(),
    {
        let s = match self {
            WifiPowerManagement::Disabled => "Disabled",
            WifiPowerManagement::Enabled => "Enabled",
        };
        s.to_owned()
    }
}

impl WifiBackend {
    /// The backend's number.
    pub open spec fn number(self) -> u32 {
        match self {
            WifiBackend::Iwd => 0,
            WifiBackend::WPASupplicant => 1,
        }
    }

    /// The backend's name.
    pub open spec fn text(self) -> Seq<char> {
        match self {
            WifiBackend::Iwd => "iwd"@,
            WifiBackend::WPASupplicant => "wpa_supplicant"@,
        }
    }

    /// The backend with a given number.
    pub open spec fn of_number(v: int) -> Result<WifiBackend, Seq<char>> {
        if v == 0 {
            Ok(WifiBackend::Iwd)
        } else if v == 1 {
            Ok(WifiBackend::WPASupplicant)
        } else {
            Err("No enum match for WifiBackend value {v}"@)
        }
    }

    /// The backend with a given name.
    pub open spec fn of_text(s: Seq<char>) -> Result<WifiBackend, Seq<char>> {
        if s == "iwd"@ {
            Ok(WifiBackend::Iwd)
        } else if s == "wpa_supplicant"@ {
            Ok(WifiBackend::WPASupplicant)
        } else {
            Err("Unknown backend"@)
        }
    }

    /// The backend's number.
    pub fn value(self) -> (r: u32)
        ensures
            r == self.number(),
    {
        match self {
            WifiBackend::Iwd => 0,
            WifiBackend::WPASupplicant => 1,
        }
    }

    /// The backend with the number `v`.
    pub fn try_from(v: u32) -> (r: Result<WifiBackend, Failure>)
        ensures
            outcome(r) == WifiBackend::of_number(v as int),
    {
        if v == 0 {
            Ok(WifiBackend::Iwd)
        } else if v == 1 {
            Ok(WifiBackend::WPASupplicant)
        } else {
            Err(Failure::new("No enum match for WifiBackend value {v}"))
        }
    }

    /// The backend with the name `input`.
    pub fn from_str(input: &str) -> (r: Result<WifiBackend, Failure>)
        ensures
            outcome(r) == WifiBackend::of_text(input@),
    {
        if same(input, "iwd") {
            Ok(WifiBackend::Iwd)
        } else if same(input, "wpa_supplicant") {
            Ok(WifiBackend::WPASupplicant)
        } else {
            Err(Failure::new("Unknown backend"))
        }
    }

    /// The backend's name.
    pub fn to_string(&self) -> (r: String)
        ensures
            r@ == self.text(),
    {
        let s = match self {
            WifiBackend::Iwd => "iwd",
            WifiBackend::WPASupplicant => "wpa_supplicant",
        };
        s.to_owned()
    }
}

/// A step on the override of the wireless daemon's unit.
#[derive(Debug)]
pub enum FileStep {
    /// Make the folder and those above it.
    CreateDir(&'static str),
    /// Write the second text to the first file.
    Write(&'static str, &'static str),
    /// Remove the file; that it is not there is no error.
    Remove(&'static str),
}

/// A `FileStep` with its strings seen as text.
pub enum FileStepView {
    CreateDir(Seq<char>),
    Write(Seq<char>, Seq<char>),
    Remove(Seq<char>),
}

impl View for FileStep {
    type V = FileStepView;

    open spec fn view(&self) -> FileStepView {
        match self {
            FileStep::CreateDir(p) => FileStepView::CreateDir(p@),
            FileStep::Write(p, c) => FileStepView::Write(p@, c@),
            FileStep::Remove(p) => FileStepView::Remove(p@),
        }
    }
}

/// The steps that put the override in its place or take it away.
pub open spec fn iwd_config_steps(want_override: bool) -> Seq<FileStepView> {
    if want_override {
        seq![
            FileStepView::CreateDir("/etc/systemd/system/iwd.service.d"@),
            FileStepView::Write(
                "/etc/systemd/system/iwd.service.d/override.conf"@,
                "[Service]\nExecStart=\nExecStart=/usr/lib/iwd/iwd -d\n"@,
            ),
        ]
    } else {
        seq![FileStepView::Remove("/etc/systemd/system/iwd.service.d/override.conf"@)]
    }
}

/// The steps that put the override in its place or take it away, in order; the first that
/// fails ends them.
pub fn setup_iwd_config(want_override: bool) -> (r: Vec<FileStep>)
    ensures
        r@.map_values(|s: FileStep| s@) == iwd_config_steps(want_override),
{
    let r = if want_override {
        // Make sure the folder exists
        // Then write the contents into the file
        vec![
            FileStep::CreateDir(OVERRIDE_FOLDER),
            FileStep::Write(OVERRIDE_PATH, OVERRIDE_CONTENTS),
        ]
    } else {
        vec![FileStep::Remove(OVERRIDE_PATH)]
    };
    assert(r@.map_values(|s: FileStep| s@) =~= iwd_config_steps(want_override));
    r
}

/// The commands that stop tracing and then write the trace to disk.
pub fn stop_tracing() -> (r: Vec<ScriptConfig>)
    ensures
        r@.len() == 2,
        r@[0]@ == ("/usr/bin/trace-cmd"@, seq!["stop"@]),
        r@[1]@ == ("/usr/bin/trace-cmd"@, seq!["extract"@, "-o"@, "/var/log/wifitrace.dat"@]),
{
    let stop = ScriptConfig {
        script: TRACE_CMD_PATH.to_owned(),
        script_args: vec!["stop".to_owned()],
    };
    let extract = ScriptConfig {
        script: TRACE_CMD_PATH.to_owned(),
        script_args: vec!["extract".to_owned(), "-o".to_owned(), OUTPUT_FILE.to_owned()],
    };
    proof {
        assert(stop@.1 =~= seq!["stop"@]);
        assert(extract@.1 =~= seq!["extract"@, "-o"@, "/var/log/wifitrace.dat"@]);
    }
    vec![stop, extract]
}

/// The command that starts tracing with a buffer of `buffer_size`.
pub fn start_tracing(buffer_size: u32) -> (r: ScriptConfig)
    ensures
        r@ == (
            "/usr/bin/trace-cmd"@,
            seq!["start"@, "-e"@, "ath11k_wmi_diag"@, "-b"@, decimal(buffer_size as nat)],
        ),
{
    let r = ScriptConfig {
        script: TRACE_CMD_PATH.to_owned(),
        script_args: vec![
            "start".to_owned(),
            "-e".to_owned(),
            "ath11k_wmi_diag".to_owned(),
            "-b".to_owned(),
            decimal_of(buffer_size as u64),
        ],
    };
    assert(r@.1 =~= seq!["start"@, "-e"@, "ath11k_wmi_diag"@, "-b"@, decimal(buffer_size as nat)]);
    r
}

/// A step of restarting the wireless daemon.
#[derive(Debug)]
pub enum RestartStep {
    /// Have systemd reload its units.
    DaemonReload,
    /// Restart this unit.
    Restart(&'static str),
}

/// The steps that restart the wireless daemon, in order; the first that fails ends them.
pub fn restart_iwd() -> (r: Vec<RestartStep>)
    ensures
        r@.len() == 2,
        r@[0] is DaemonReload,
        r@[1] is Restart && r@[1]->Restart_0@ == "iwd.service"@,
{
    // First reload systemd since we modified the config most likely
    // otherwise we wouldn't be restarting iwd.
    vec![RestartStep::DaemonReload, RestartStep::Restart(IWD_UNIT)]
}

/// A step towards a debug mode.
#[derive(Clone, Copy, Debug, PartialEq, Eq, Structural)]
pub enum WifiDebugStep {
    /// Stop tracing and write the trace to disk.
    StopTracing,
    /// Put the override in its place or take it away.
    SetupIwdConfig(bool),
    /// Restart the wireless daemon by the steps of `restart_iwd`.
    RestartIwd,
    /// Start tracing with a buffer of this size.
    StartTracing(u32),
}

impl WifiDebugStep {
    /// What is said before the reason if the step fails.
    pub open spec fn complaint(self) -> Seq<char> {
        match self {
            WifiDebugStep::StopTracing => "stop_tracing command got an error: "@,
            WifiDebugStep::SetupIwdConfig(true) => "setup_iwd_config true got an error: "@,
            WifiDebugStep::SetupIwdConfig(false) => "setup_iwd_config false got an error: "@,
            WifiDebugStep::RestartIwd => "restart_iwd got an error: "@,
            WifiDebugStep::StartTracing(_) => "start_tracing got an error: "@,
        }
    }

    /// The error of a step that fails for the reason `message`.
    pub fn failed(self, message: &str) -> (r: Failure)
        ensures
            r@ == self.complaint() + message@,
    {
        let prefix = match self {
            WifiDebugStep::StopTracing => "stop_tracing command got an error: ",
            WifiDebugStep::SetupIwdConfig(true) => "setup_iwd_config true got an error: ",
            WifiDebugStep::SetupIwdConfig(false) => "setup_iwd_config false got an error: ",
            WifiDebugStep::RestartIwd => "restart_iwd got an error: ",
            WifiDebugStep::StartTracing(_) => "start_tracing got an error: ",
        };
        Failure::with_detail(prefix, message)
    }
}

/// The steps towards a debug mode, where the backend is the one that can be debugged and the
/// buffer is large enough.
pub open spec fn debug_mode_steps(
    mode: WifiDebugMode,
    buffer_size: u32,
    should_trace: bool,
    backend: Result<WifiBackend, Seq<char>>,
) -> Result<Seq<WifiDebugStep>, Seq<char>> {
    match backend {
        Err(e) => Err(e),
        Ok(WifiBackend::WPASupplicant) => Err(
            "Setting wifi debug mode not supported when backend is "@ + "wpa_supplicant"@,
        ),
        Ok(WifiBackend::Iwd) => match mode {
            WifiDebugMode::Off => Ok(
                (if should_trace {
                    seq![WifiDebugStep::StopTracing]
                } else {
                    seq![]
                }) + seq![WifiDebugStep::SetupIwdConfig(false), WifiDebugStep::RestartIwd],
            ),
            WifiDebugMode::On => if buffer_size <= 100 {
                Err("Buffer size too small"@)
            } else {
                Ok(
                    seq![WifiDebugStep::SetupIwdConfig(true), WifiDebugStep::RestartIwd]
                        + if should_trace {
                        seq![WifiDebugStep::StartTracing(buffer_size)]
                    } else {
                        seq![]
                    },
                )
            },
        },
    }
}

/// The steps towards the debug mode `mode`, in order; the first that fails ends them, with the
/// error that `WifiDebugStep::failed` makes of its reason. `backend` is what is known of the
/// backend.
pub fn set_wifi_debug_mode(
    mode: WifiDebugMode,
    buffer_size: u32,
    should_trace: bool,
    backend: Result<WifiBackend, Failure>,
) -> (r: Result<Vec<WifiDebugStep>, Failure>)
    ensures
        match (r, debug_mode_steps(mode, buffer_size, should_trace, outcome(backend))) {
            (Ok(a), Ok(b)) => a@ == b,
            (Err(a), Err(b)) => a@ == b,
            _ => false,
        },
{
    match backend {
        Ok(WifiBackend::Iwd) => {},
        Ok(backend) => {
            let name = backend.to_string();
            return Err(
                Failure::with_detail(
                    "Setting wifi debug mode not supported when backend is ",
                    name.as_str(),
                ),
            );
        },
        Err(e) => {
            return Err(e);
        },
    }
    let ghost want = debug_mode_steps(
        mode,
        buffer_size,
        should_trace,
        Ok::<WifiBackend, Seq<char>>(WifiBackend::Iwd),
    );
    let mut steps: Vec<WifiDebugStep> = Vec::new();
    match mode {
        WifiDebugMode::Off => {
            // Stop any existing trace and flush to disk.
            if should_trace {
                steps.push(WifiDebugStep::StopTracing);
            }
            steps.push(WifiDebugStep::SetupIwdConfig(false));
            steps.push(WifiDebugStep::RestartIwd);
        },
        WifiDebugMode::On => {
            if buffer_size <= MIN_BUFFER_SIZE {
                return Err(Failure::new("Buffer size too small"));
            }
            steps.push(WifiDebugStep::SetupIwdConfig(true));
            steps.push(WifiDebugStep::RestartIwd);
            if should_trace {
                steps.push(WifiDebugStep::StartTracing(buffer_size));
            }
        },
    }
    assert(steps@ =~= want->Ok_0);
    Ok(steps)
}

/// The backend that the first line with the key names.
pub open spec fn backend_of(ls: Seq<Seq<char>>) -> Result<WifiBackend, Seq<char>>
    decreases ls.len(),
{
    if ls.len() == 0 {
        Err("WiFi backend not found in config"@)
    } else if "wifi.backend="@.is_prefix_of(ls.first()) {
        WifiBackend::of_text(trim(trim_start_matches(ls.first(), "wifi.backend="@)))
    } else {
        backend_of(ls.skip(1))
    }
}

/// The backend, by the contents of the file that names it.
pub fn get_wifi_backend(contents: &str) -> (r: Result<WifiBackend, Failure>)
    ensures
        outcome(r) == backend_of(lines(trim(contents@))),
{
    let ls = lines_of(trimmed(contents));
    let ghost all = texts(ls@);
    let mut i: usize = 0;
    assert(all.skip(0) =~= all);
    while i < ls.len()
        invariant
            i <= ls.len(),
            all == texts(ls@),
            all == lines(trim(contents@)),
            backend_of(all.skip(i as int)) == backend_of(all),
        decreases ls.len() - i,
    {
        assert(all.skip(i as int).first() == ls@[i as int]@);
        assert(all.skip(i as int).skip(1) =~= all.skip(i + 1));
        let line = ls[i].as_str();
        if starts_with(line, "wifi.backend=") {
            proof {
                reveal_strlit("wifi.backend=");
            }
            return WifiBackend::from_str(trimmed(trimmed_start_matches(line, "wifi.backend=")));
        }
        i += 1;
    }
    Err(Failure::new("WiFi backend not found in config"))
}

/// The command that sets the backend.
pub fn set_wifi_backend(backend: WifiBackend) -> (r: ScriptConfig)
    ensures
        r@ == ("/usr/bin/steamos-wifi-set-backend"@, seq![backend.text()]),
{
    let r = ScriptConfig {
        script: "/usr/bin/steamos-wifi-set-backend".to_owned(),
        script_args: vec![backend.to_string()],
    };
    assert(r@.1 =~= seq![backend.text()]);
    r
}

/// The state that the first line on power management tells.
pub open spec fn power_management_of(ls: Seq<Seq<char>>) -> Result<WifiPowerManagement, Seq<char>>
    decreases ls.len(),
{
    if ls.len() == 0 {
        Err("Failed to query power management state"@)
    } else if trim(ls.first()) == "Power Management:on"@ {
        Ok(WifiPowerManagement::Enabled)
    } else if trim(ls.first()) == "Power Management:off"@ {
        Ok(WifiPowerManagement::Disabled)
    } else {
        power_management_of(ls.skip(1))
    }
}

/// The command whose output tells the state of power management.
pub fn query_wifi_power_management_state() -> (r: ScriptConfig)
    ensures
        r@ == ("/usr/bin/iwconfig"@, seq!["wlan0"@]),
{
    let r = ScriptConfig {
        script: "/usr/bin/iwconfig".to_owned(),
        script_args: vec!["wlan0".to_owned()],
    };
    assert(r@.1 =~= seq!["wlan0"@]);
    r
}

/// The state of power management, by the output of the command that tells it.
pub fn get_wifi_power_management_state(output: &str) -> (r: Result<WifiPowerManagement, Failure>)
    ensures
        outcome(r) == power_management_of(lines(output@)),
{
    let ls = lines_of(output);
    let ghost all = texts(ls@);
    let mut i: usize = 0;
    assert(all.skip(0) =~= all);
    while i < ls.len()
        invariant
            i <= ls.len(),
            all == texts(ls@),
            all == lines(output@),
            power_management_of(all.skip(i as int)) == power_management_of(all),
        decreases ls.len() - i,
    {
        assert(all.skip(i as int).first() == ls@[i as int]@);
        assert(all.skip(i as int).skip(1) =~= all.skip(i + 1));
        let line = trimmed(ls[i].as_str());
        if same(line, "Power Management:on") {
            return Ok(WifiPowerManagement::Enabled);
        }
        if same(line, "Power Management:off") {
            return Ok(WifiPowerManagement::Disabled);
        }
        i += 1;
    }
    Err(Failure::new("Failed to query power management state"))
}

/// The command that sets the state of power management.
pub fn set_wifi_power_management_state(state: WifiPowerManagement) -> (r: ScriptConfig)
    ensures
        r@ == (
            "/usr/bin/iwconfig"@,
            seq![
                "wlan0"@,
                "power"@,
                match state {
                    WifiPowerManagement::Disabled => "off"@,
                    WifiPowerManagement::Enabled => "on"@,
                },
            ],
        ),
{
    let state = match state {
        WifiPowerManagement::Disabled => "off",
        WifiPowerManagement::Enabled => "on",
    };
    let r = ScriptConfig {
        script: "/usr/bin/iwconfig".to_owned(),
        script_args: vec!["wlan0".to_owned(), "power".to_owned(), state.to_owned()],
    };
    assert(r@.1 =~= seq!["wlan0"@, "power"@, state@]);
    r
}

/// Numbers and names of the three settings lead back to what they stand for.
pub proof fn law_wifi_round_trip(
    mode: WifiDebugMode,
    state: WifiPowerManagement,
    backend: WifiBackend,
)
    ensures
        WifiDebugMode::of_number(mode.number() as int) == Ok::<WifiDebugMode, Seq<char>>(mode),
        WifiPowerManagement::of_number(state.number() as int) == Ok::<
            WifiPowerManagement,
            Seq<char>,
        >(state),
        WifiBackend::of_number(backend.number() as int) == Ok::<WifiBackend, Seq<char>>(backend),
        ascii(mode.text()),
        WifiDebugMode::of_lower(ascii_lower(mode.text())) == Ok::<WifiDebugMode, Seq<char>>(mode),
        ascii(state.text()),
        WifiPowerManagement::of_lower(ascii_lower(state.text())) == Ok::<
            WifiPowerManagement,
            Seq<char>,
        >(state),
        WifiBackend::of_text(backend.text()) == Ok::<WifiBackend, Seq<char>>(backend),
{
    reveal_strlit("Off");
    reveal_strlit("On");
    reveal_strlit("off");
    reveal_strlit("on");
    reveal_strlit("Disabled");
    reveal_strlit("Enabled");
    reveal_strlit("disabled");
    reveal_strlit("enabled");
    reveal_strlit("enable");
    reveal_strlit("1");
    reveal_strlit("iwd");
    reveal_strlit("wpa_supplicant");
    assert(ascii_lower("Off"@) =~= "off"@);
    assert(ascii_lower("On"@) =~= "on"@);
    assert(ascii_lower("Disabled"@) =~= "disabled"@);
    assert(ascii_lower("Enabled"@) =~= "enabled"@);
    assert("off"@[0] == 'o' && "off"@[1] == 'f');
    assert("on"@[0] == 'o' && "on"@[1] == 'n');
    assert("disabled"@[0] == 'd');
    assert("enabled"@[0] == 'e');
    assert("enable"@[0] == 'e');
    assert("1"@[0] == '1');
    assert("iwd"@[0] == 'i');
    assert("wpa_supplicant"@[0] == 'w');
}

/// The configuration names a backend, known or not, if and only if one of its lines starts
/// with the key.
pub proof fn law_backend_missing_iff_no_key(ls: Seq<Seq<char>>)
    ensures
        backend_of(ls) == Err::<WifiBackend, Seq<char>>("WiFi backend not found in config"@)
            <==> !exists|i: int|
            0 <= i < ls.len() && "wifi.backend="@.is_prefix_of(#[trigger] ls[i]),
    decreases ls.len(),
{
    reveal_strlit("WiFi backend not found in config");
    reveal_strlit("Unknown backend");
    assert("WiFi backend not found in config"@.len() != "Unknown backend"@.len());
    if ls.len() > 0 {
        if "wifi.backend="@.is_prefix_of(ls.first()) {
            assert("wifi.backend="@.is_prefix_of(ls[0]));
        } else {
            let rest = ls.skip(1);
            law_backend_missing_iff_no_key(rest);
            if exists|i: int| 0 <= i < ls.len() && "wifi.backend="@.is_prefix_of(#[trigger] ls[i]) {
                let i = choose|i: int|
                    0 <= i < ls.len() && "wifi.backend="@.is_prefix_of(#[trigger] ls[i]);
                assert(rest[i - 1] == ls[i]);
            }
            if exists|i: int| 0 <= i < rest.len() && "wifi.backend="@.is_prefix_of(
                #[trigger] rest[i],
            ) {
                let i = choose|i: int|
                    0 <= i < rest.len() && "wifi.backend="@.is_prefix_of(#[trigger] rest[i]);
                assert(ls[i + 1] == rest[i]);
            }
        }
    }
}

/// Debug mode never touches anything unless the backend is the one that can be debugged.
pub proof fn law_debug_mode_needs_iwd(
    mode: WifiDebugMode,
    buffer_size: u32,
    should_trace: bool,
    backend: Result<WifiBackend, Seq<char>>,
)
    ensures
        debug_mode_steps(mode, buffer_size, should_trace, backend) is Ok <==> backend
            == Ok::<WifiBackend, Seq<char>>(WifiBackend::Iwd) && (mode is On ==> buffer_size
            > MIN_BUFFER_SIZE),
{
}

/// Whether the override is in place after the steps on debug mode, and whether tracing is on,
/// where they were so before.
pub open spec fn after_debug_steps(state: (bool, bool), steps: Seq<WifiDebugStep>) -> (bool, bool)
    decreases steps.len(),
{
    if steps.len() == 0 {
        state
    } else {
        let before = after_debug_steps(state, steps.drop_last());
        match steps.last() {
            WifiDebugStep::SetupIwdConfig(want) => (want, before.1),
            WifiDebugStep::StopTracing => (before.0, false),
            WifiDebugStep::StartTracing(_) => (before.0, true),
            WifiDebugStep::RestartIwd => before,
        }
    }
}

/// The steps towards a mode leave the override in place if and only if the mode is on, and,
/// where tracing is wanted, the trace running if and only if the mode is on: switching the
/// mode off undoes switching it on.
pub proof fn law_debug_mode_steps_effect(
    mode: WifiDebugMode,
    buffer_size: u32,
    should_trace: bool,
    state: (bool, bool),
)
    requires
        mode is On ==> buffer_size > MIN_BUFFER_SIZE,
    ensures
        ({
            let steps = debug_mode_steps(
                mode,
                buffer_size,
                should_trace,
                Ok::<WifiBackend, Seq<char>>(WifiBackend::Iwd),
            )->Ok_0;
            let after = after_debug_steps(state, steps);
            &&& after.0 == mode is On
            &&& after.1 == if should_trace {
                mode is On
            } else {
                state.1
            }
        }),
{
    let steps = debug_mode_steps(
        mode,
        buffer_size,
        should_trace,
        Ok::<WifiBackend, Seq<char>>(WifiBackend::Iwd),
    )->Ok_0;
    reveal_with_fuel(after_debug_steps, 4);
    assert(steps.take(0) =~= Seq::<WifiDebugStep>::empty());
    assert(steps.drop_last() =~= steps.take(steps.len() - 1));
    assert(steps.drop_last().drop_last() =~= steps.take(steps.len() - 2));
    if steps.len() == 3 {
        assert(steps.drop_last().drop_last().drop_last() =~= steps.take(0));
    }
}

/// Whether `line` is the one that says that power management is on, or off, with white space
/// around it.
pub open spec fn tells(line: Seq<char>, on: bool) -> bool {
    if on {
        padded(line, "Power Management:on"@)
    } else {
        padded(line, "Power Management:off"@)
    }
}

/// The first line that says that power management is on or off, however it is indented, tells
/// the state, for both states alike; without such a line there is none to tell.
pub proof fn law_power_management_told(ls: Seq<Seq<char>>, i: int, on: bool)
    requires
        0 <= i <= ls.len(),
        forall|j: int|
            0 <= j < i ==> !tells(#[trigger] ls[j], true) && !tells(ls[j], false),
        i < ls.len() ==> tells(ls[i], on),
    ensures
        i < ls.len() ==> power_management_of(ls) == Ok::<WifiPowerManagement, Seq<char>>(
            if on {
                WifiPowerManagement::Enabled
            } else {
                WifiPowerManagement::Disabled
            },
        ),
        i == ls.len() ==> power_management_of(ls) == Err::<WifiPowerManagement, Seq<char>>(
            "Failed to query power management state"@,
        ),
    decreases i,
{
    reveal_strlit("Power Management:on");
    reveal_strlit("Power Management:off");
    if ls.len() > 0 {
        law_trim_iff_padded(ls.first(), "Power Management:on"@);
        law_trim_iff_padded(ls.first(), "Power Management:off"@);
        assert("Power Management:on"@.len() != "Power Management:off"@.len());
        if i > 0 {
            assert(!tells(ls[0], true) && !tells(ls[0], false));
            let rest = ls.skip(1);
            assert forall|j: int| 0 <= j < i - 1 implies !tells(#[trigger] rest[j], true)
                && !tells(rest[j], false) by {
                assert(rest[j] == ls[j + 1]);
            }
            if i < ls.len() {
                assert(rest[i - 1] == ls[i]);
            }
            law_power_management_told(rest, i - 1, on);
        }
    }
}

/// The first line with the key names the backend, however its value is spaced; what follows
/// does not matter.
pub proof fn law_first_key_names_backend(
    ls: Seq<Seq<char>>,
    i: int,
    backend: WifiBackend,
    value: Seq<char>,
)
    requires
        0 <= i < ls.len(),
        forall|j: int| 0 <= j < i ==> !"wifi.backend="@.is_prefix_of(#[trigger] ls[j]),
        ls[i] == "wifi.backend="@ + value,
        padded(value, backend.text()),
    ensures
        backend_of(ls) == Ok::<WifiBackend, Seq<char>>(backend),
    decreases i,
{
    reveal_strlit("wifi.backend=");
    let key = "wifi.backend="@;
    if i > 0 {
        assert(!key.is_prefix_of(ls[0]));
        let rest = ls.skip(1);
        assert forall|j: int| 0 <= j < i - 1 implies !key.is_prefix_of(#[trigger] rest[j]) by {
            assert(rest[j] == ls[j + 1]);
        }
        assert(rest[i - 1] == ls[i]);
        law_first_key_names_backend(rest, i - 1, backend, value);
    } else {
        let line = ls.first();
        assert(line == key + value);
        assert(line.subrange(0, key.len() as int) =~= key);
        law_trim_matches(value, key);
        reveal_strlit("iwd");
        reveal_strlit("wpa_supplicant");
        law_trim_iff_padded(value, backend.text());
        lemma_key_not_padded(value, backend);
        law_wifi_round_trip(WifiDebugMode::Off, WifiPowerManagement::Disabled, backend);
    }
}

proof fn lemma_key_not_padded(value: Seq<char>, backend: WifiBackend)
    requires
        padded(value, backend.text()),
    ensures
        !"wifi.backend="@.is_prefix_of(value),
{
    reveal_strlit("wifi.backend=");
    reveal_strlit("iwd");
    reveal_strlit("wpa_supplicant");
    let t = backend.text();
    let key = "wifi.backend="@;
    let (head, tail) = choose|head: Seq<char>, tail: Seq<char>|
        #![trigger blank(head), blank(tail)]
        blank(head) && blank(tail) && value == head + t + tail;
    if key.is_prefix_of(value) {
        assert(value[0] == key[0]);
        assert(value[1] == key[1]);
        if head.len() > 0 {
            assert(value[0] == head[0]);
            assert(white(head[0]));
        } else {
            assert(value =~= t + tail);
            assert(value[0] == t[0]);
            assert(value[1] == t[1]);
        }
    }
}

/// The words for on and off, and no others, stand for them; numbers and names of the settings
/// stand for what they name and for nothing else.
pub proof fn law_wifi_names(
    lower: Seq<char>,
    v: int,
    mode: WifiDebugMode,
    state: WifiPowerManagement,
    backend: WifiBackend,
)
    ensures
        on_off(lower) == Ok::<bool, Seq<char>>(true) <==> seq![
            "on"@,
            "enable"@,
            "enabled"@,
            "1"@,
        ].contains(lower),
        on_off(lower) is Ok ==> seq![
            "on"@,
            "enable"@,
            "enabled"@,
            "1"@,
            "off"@,
            "disable"@,
            "disabled"@,
            "0"@,
        ].contains(lower),
        WifiDebugMode::of_number(v) == Ok::<WifiDebugMode, Seq<char>>(mode) <==> v
            == mode.number(),
        WifiPowerManagement::of_number(v) == Ok::<WifiPowerManagement, Seq<char>>(state) <==> v
            == state.number(),
        WifiBackend::of_number(v) == Ok::<WifiBackend, Seq<char>>(backend) <==> v
            == backend.number(),
        WifiBackend::of_text(lower) == Ok::<WifiBackend, Seq<char>>(backend) <==> lower
            == backend.text(),
{
    law_wifi_round_trip(mode, state, backend);
    let on = seq!["on"@, "enable"@, "enabled"@, "1"@];
    assert(on[0] == "on"@ && on[1] == "enable"@ && on[2] == "enabled"@ && on[3] == "1"@);
    let all = seq![
        "on"@,
        "enable"@,
        "enabled"@,
        "1"@,
        "off"@,
        "disable"@,
        "disabled"@,
        "0"@,
    ];
    assert(all[0] == "on"@ && all[1] == "enable"@ && all[2] == "enabled"@ && all[3] == "1"@);
    assert(all[4] == "off"@ && all[5] == "disable"@ && all[6] == "disabled"@ && all[7] == "0"@);
}

/// The steps towards a mode: the override is set up as the mode wants it right before the one
/// restart, a trace is stopped before and started behind that, only where it is wanted, and with
/// the very buffer that was asked for.
pub proof fn law_debug_mode_order(mode: WifiDebugMode, buffer_size: u32, should_trace: bool)
    requires
        mode is On ==> buffer_size > 100,
    ensures
        ({
            let steps = debug_mode_steps(
                mode,
                buffer_size,
                should_trace,
                Ok::<WifiBackend, Seq<char>>(WifiBackend::Iwd),
            )->Ok_0;
            let first: int = if should_trace && mode is Off {
                1
            } else {
                0
            };
            &&& steps.len() == if should_trace {
                3int
            } else {
                2int
            }
            &&& steps[first] == WifiDebugStep::SetupIwdConfig(mode is On)
            &&& steps[first + 1] is RestartIwd
            &&& should_trace && mode is Off ==> steps.first() is StopTracing
            &&& should_trace && mode is On ==> steps.last() == WifiDebugStep::StartTracing(
                buffer_size,
            )
        }),
{
}

/// A backend that cannot be told, or that cannot be debugged, is an error whatever else is asked
/// for; the first comes with its own reason.
pub proof fn law_debug_mode_backend(
    mode: WifiDebugMode,
    buffer_size: u32,
    should_trace: bool,
    reason: Seq<char>,
)
    ensures
        debug_mode_steps(mode, buffer_size, should_trace, Err(reason)) == Err::<
            Seq<WifiDebugStep>,
            Seq<char>,
        >(reason),
        debug_mode_steps(mode, buffer_size, should_trace, Ok(WifiBackend::WPASupplicant)) == Err::<
            Seq<WifiDebugStep>,
            Seq<char>,
        >(
            "Setting wifi debug mode not supported when backend is "@
                + WifiBackend::WPASupplicant.text(),
        ),
        buffer_size <= 100 ==> debug_mode_steps(
            WifiDebugMode::On,
            buffer_size,
            should_trace,
            Ok(WifiBackend::Iwd),
        ) == Err::<Seq<WifiDebugStep>, Seq<char>>("Buffer size too small"@),
{
}

/// A value that names no backend is an error, wherever the key stands; the lines behind it do
/// not help.
pub proof fn law_unknown_backend(ls: Seq<Seq<char>>, i: int, value: Seq<char>)
    requires
        0 <= i < ls.len(),
        forall|j: int| 0 <= j < i ==> !"wifi.backend="@.is_prefix_of(#[trigger] ls[j]),
        ls[i] == "wifi.backend="@ + value,
        !"wifi.backend="@.is_prefix_of(value),
        !padded(value, WifiBackend::Iwd.text()),
        !padded(value, WifiBackend::WPASupplicant.text()),
    ensures
        backend_of(ls) == Err::<WifiBackend, Seq<char>>("Unknown backend"@),
    decreases i,
{
    reveal_strlit("wifi.backend=");
    let key = "wifi.backend="@;
    if i > 0 {
        assert(!key.is_prefix_of(ls[0]));
        let rest = ls.skip(1);
        assert forall|j: int| 0 <= j < i - 1 implies !key.is_prefix_of(#[trigger] rest[j]) by {
            assert(rest[j] == ls[j + 1]);
        }
        assert(rest[i - 1] == ls[i]);
        law_unknown_backend(rest, i - 1, value);
    } else {
        let line = ls.first();
        assert(line.subrange(0, key.len() as int) =~= key);
        law_trim_matches(value, key);
        reveal_strlit("iwd");
        reveal_strlit("wpa_supplicant");
        law_trim_iff_padded(value, WifiBackend::Iwd.text());
        law_trim_iff_padded(value, WifiBackend::WPASupplicant.text());
    }
}

/// The override stands in the folder that is made for it, is removed where it was written, and
/// holds a service section of three lines: the command is cleared, then set to the debugging one.
pub proof fn law_override_file()
    ensures
        iwd_config_steps(true).len() == 2,
        iwd_config_steps(true)[0] is CreateDir,
        iwd_config_steps(true)[1] is Write,
        iwd_config_steps(true)[0]->CreateDir_0 == "/etc/systemd/system/iwd.service.d"@,
        iwd_config_steps(true)[1]->Write_0 == iwd_config_steps(true)[0]->CreateDir_0
            + "/override.conf"@,
        lines(iwd_config_steps(true)[1]->Write_1) == seq![
            "[Service]"@,
            "ExecStart="@,
            "ExecStart=/usr/lib/iwd/iwd -d"@,
        ],
        iwd_config_steps(false) == seq![
            FileStepView::Remove(iwd_config_steps(true)[1]->Write_0),
        ],
{
    reveal_strlit("/etc/systemd/system/iwd.service.d");
    reveal_strlit("/override.conf");
    reveal_strlit("/etc/systemd/system/iwd.service.d/override.conf");
    assert("/etc/systemd/system/iwd.service.d/override.conf"@
        =~= "/etc/systemd/system/iwd.service.d"@ + "/override.conf"@);
    reveal_strlit("[Service]");
    reveal_strlit("ExecStart=");
    reveal_strlit("ExecStart=/usr/lib/iwd/iwd -d");
    reveal_strlit("[Service]\nExecStart=\nExecStart=/usr/lib/iwd/iwd -d\n");
    let last = "ExecStart=/usr/lib/iwd/iwd -d"@ + seq!['\n'] + Seq::<char>::empty();
    let below = "ExecStart="@ + seq!['\n'] + last;
    let all = "[Service]"@ + seq!['\n'] + below;
    assert("[Service]\nExecStart=\nExecStart=/usr/lib/iwd/iwd -d\n"@ =~= all);
    crate::text::law_lines("ExecStart=/usr/lib/iwd/iwd -d"@, Seq::empty());
    crate::text::law_lines("ExecStart="@, last);
    crate::text::law_lines("[Service]"@, below);
    assert(lines(all) =~= seq![
        "[Service]"@,
        "ExecStart="@,
        "ExecStart=/usr/lib/iwd/iwd -d"@,
    ]);
}

/// A step of the debug mode that fails names itself, and the size of the buffer is not told.
pub proof fn law_complaints(buffer_size: u32, on: bool)
    ensures
        WifiDebugStep::StopTracing.complaint() == "stop_tracing command"@ + " got an error: "@,
        WifiDebugStep::StartTracing(buffer_size).complaint() == "start_tracing"@
            + " got an error: "@,
        WifiDebugStep::RestartIwd.complaint() == "restart_iwd"@ + " got an error: "@,
        WifiDebugStep::SetupIwdConfig(on).complaint() == "setup_iwd_config "@ + (if on {
            "true"@
        } else {
            "false"@
        }) + " got an error: "@,
{
    reveal_strlit(" got an error: ");
    reveal_strlit("stop_tracing command");
    reveal_strlit("stop_tracing command got an error: ");
    reveal_strlit("start_tracing");
    reveal_strlit("start_tracing got an error: ");
    reveal_strlit("restart_iwd");
    reveal_strlit("restart_iwd got an error: ");
    reveal_strlit("setup_iwd_config ");
    reveal_strlit("true");
    reveal_strlit("false");
    reveal_strlit("setup_iwd_config true got an error: ");
    reveal_strlit("setup_iwd_config false got an error: ");
    assert("stop_tracing command got an error: "@ =~= "stop_tracing command"@
        + " got an error: "@);
    assert("start_tracing got an error: "@ =~= "start_tracing"@ + " got an error: "@);
    assert("restart_iwd got an error: "@ =~= "restart_iwd"@ + " got an error: "@);
    assert("setup_iwd_config true got an error: "@ =~= "setup_iwd_config "@ + "true"@
        + " got an error: "@);
    assert("setup_iwd_config false got an error: "@ =~= "setup_iwd_config "@ + "false"@
        + " got an error: "@);
}

/// A word that is neither for on nor for off is told in the error, and it alone.
pub proof fn law_neither_on_nor_off(word: Seq<char>)
    ensures
        on_off(word) is Err <==> !seq![
            "on"@,
            "enable"@,
            "enabled"@,
            "1"@,
            "off"@,
            "disable"@,
            "disabled"@,
            "0"@,
        ].contains(word),
        on_off(word) is Err ==> on_off(word)->Err_0 == "No enum match for value "@ + word,
{
    let known = seq![
        "on"@,
        "enable"@,
        "enabled"@,
        "1"@,
        "off"@,
        "disable"@,
        "disabled"@,
        "0"@,
    ];
    assert(known[0] == "on"@ && known[1] == "enable"@ && known[2] == "enabled"@);
    assert(known[3] == "1"@ && known[4] == "off"@ && known[5] == "disable"@);
    assert(known[6] == "disabled"@ && known[7] == "0"@);
}

} // verus!

//! Power of the graphics and the central processor: profiles, levels, clocks and limits.

use std::collections::HashMap;
use vstd::prelude::*;

use crate::error::{outcome, Failure};
use crate::number::{
    decimal, decimal_of, law_decimal_read_back, lemma_decimal_digits, parse, parse_u32, NumberError,
};
use crate::text::{
    ascii, ascii_lower, blank, chars_of, ends_with, find, joined, law_words, lemma_find,
    lemma_trim_around, lemma_trim_end_append, lemma_trim_id, lines, lines_of, lowercase, padded,
    removed, same, starts_with, text_of, texts, to_lowercase, trim, trim_end, trim_end_matches,
    trimmed, trimmed_end, trimmed_end_matches, white, without, words, words_of,
};

verus! {

/// Where the hardware monitors stand.
pub const GPU_HWMON_PREFIX: &'static str = "/sys/class/hwmon";

/// The name of the graphics processor's hardware monitor.
pub const GPU_HWMON_NAME: &'static str = "amdgpu";

/// Where the frequency policies of the processor stand.
pub const CPU_PREFIX: &'static str = "/sys/devices/system/cpu/cpufreq";

/// The policy that is read for all of them.
pub const CPU0_NAME: &'static str = "policy0";

/// What the name of a policy starts with.
pub const CPU_POLICY_NAME: &'static str = "policy";

/// The attribute of the power profile, below the hardware monitor.
pub const GPU_POWER_PROFILE_SUFFIX: &'static str = "device/pp_power_profile_mode";

/// The attribute of the performance level, below the hardware monitor.
pub const GPU_PERFORMANCE_LEVEL_SUFFIX: &'static str =
    "device/power_dpm_force_performance_level";

/// The attribute of the clocks, below the hardware monitor.
pub const GPU_CLOCKS_SUFFIX: &'static str = "device/pp_od_clk_voltage";

/// The attribute of a policy's governor.
pub const CPU_SCALING_GOVERNOR_SUFFIX: &'static str = "scaling_governor";

/// The attribute of the governors that a policy can have.
pub const CPU_SCALING_AVAILABLE_GOVERNORS_SUFFIX: &'static str = "scaling_available_governors";

/// The attribute of the first power limit, below the hardware monitor.
pub const TDP_LIMIT1: &'static str = "power1_cap";

/// The attribute of the second power limit, below the hardware monitor.
pub const TDP_LIMIT2: &'static str = "power2_cap";

/// How the graphics processor spends its power.
#[derive(Clone, Copy, Debug, PartialEq, Eq, Structural)]
pub enum GPUPowerProfile {
    // Currently firmware exposes these values, though
    // deck doesn't support them yet
    FullScreen,
    Video,
    VR,
    Compute,
    Custom,
    // Currently only capped and uncapped are supported on
    // deck hardware/firmware. Add more later as needed
    Capped,
    Uncapped,
}

impl GPUPowerProfile {
    /// The number that the firmware gives the profile.
    pub open spec fn number(self) -> u32 {
        match self {
            GPUPowerProfile::FullScreen => 1,
            GPUPowerProfile::Video => 3,
            GPUPowerProfile::VR => 4,
            GPUPowerProfile::Compute => 5,
            GPUPowerProfile::Custom => 6,
            GPUPowerProfile::Capped => 8,
            GPUPowerProfile::Uncapped => 9,
        }
    }

    /// The profile's name.
    pub open spec fn text(self) -> Seq<char> {
        match self {
            GPUPowerProfile::FullScreen => "3d_full_screen"@,
            GPUPowerProfile::Video => "video"@,
            GPUPowerProfile::VR => "vr"@,
            GPUPowerProfile::Compute => "compute"@,
            GPUPowerProfile::Custom => "custom"@,
            GPUPowerProfile::Capped => "capped"@,
            GPUPowerProfile::Uncapped => "uncapped"@,
        }
    }

    /// The profile with a given number.
    pub open spec fn of_number(v: int) -> Option<GPUPowerProfile> {
        if v == 1 {
            Some(GPUPowerProfile::FullScreen)
        } else if v == 3 {
            Some(GPUPowerProfile::Video)
        } else if v == 4 {
            Some(GPUPowerProfile::VR)
        } else if v == 5 {
            Some(GPUPowerProfile::Compute)
        } else if v == 6 {
            Some(GPUPowerProfile::Custom)
        } else if v == 8 {
            Some(GPUPowerProfile::Capped)
        } else if v == 9 {
            Some(GPUPowerProfile::Uncapped)
        } else {
            None
        }
    }

    /// The profile whose name is `lower`; the error speaks of `input`.
    pub open spec fn of_lower(lower: Seq<char>, input: Seq<char>) -> Result<
        GPUPowerProfile,
        Seq<char>,
    > {
        if lower == "3d_full_screen"@ {
            Ok(GPUPowerProfile::FullScreen)
        } else if lower == "video"@ {
            Ok(GPUPowerProfile::Video)
        } else if lower == "vr"@ {
            Ok(GPUPowerProfile::VR)
        } else if lower == "compute"@ {
            Ok(GPUPowerProfile::Compute)
        } else if lower == "custom"@ {
            Ok(GPUPowerProfile::Custom)
        } else if lower == "capped"@ {
            Ok(GPUPowerProfile::Capped)
        } else if lower == "uncapped"@ {
            Ok(GPUPowerProfile::Uncapped)
        } else {
            Err("No match for value "@ + input)
        }
    }

    /// The number that the firmware gives the profile.
    pub fn value(self) -> (r: u32)
        ensures
            r == self.number(),
    {
        match self {
            GPUPowerProfile::FullScreen => 1,
            GPUPowerProfile::Video => 3,
            GPUPowerProfile::VR => 4,
            GPUPowerProfile::Compute => 5,
            GPUPowerProfile::Custom => 6,
            GPUPowerProfile::Capped => 8,
            GPUPowerProfile::Uncapped => 9,
        }
    }

    /// The profile with the number `v`.
    pub fn try_from(v: u32) -> (r: Result<GPUPowerProfile, Failure>)
        ensures
            outcome(r) == (match GPUPowerProfile::of_number(v as int) {
                Some(p) => Ok::<GPUPowerProfile, Seq<char>>(p),
                None => Err("No GPUPowerProfile for value"@),
            }),
    {
        if v == 1 {
            Ok(GPUPowerProfile::FullScreen)
        } else if v == 3 {
            Ok(GPUPowerProfile::Video)
        } else if v == 4 {
            Ok(GPUPowerProfile::VR)
        } else if v == 5 {
            Ok(GPUPowerProfile::Compute)
        } else if v == 6 {
            Ok(GPUPowerProfile::Custom)
        } else if v == 8 {
            Ok(GPUPowerProfile::Capped)
        } else if v == 9 {
            Ok(GPUPowerProfile::Uncapped)
        } else {
            Err(Failure::new("No GPUPowerProfile for value"))
        }
    }

    /// The profile whose name is `lower`; the error speaks of `input`.
    pub fn from_lower(lower: &str, input: &str) -> (r: Result<GPUPowerProfile, Failure>)
        ensures
            outcome(r) == GPUPowerProfile::of_lower(lower@, input@),
    {
        if same(lower, "3d_full_screen") {
            Ok(GPUPowerProfile::FullScreen)
        } else if same(lower, "video") {
            Ok(GPUPowerProfile::Video)
        } else if same(lower, "vr") {
            Ok(GPUPowerProfile::VR)
        } else if same(lower, "compute") {
            Ok(GPUPowerProfile::Compute)
        } else if same(lower, "custom") {
            Ok(GPUPowerProfile::Custom)
        } else if same(lower, "capped") {
            Ok(GPUPowerProfile::Capped)
        } else if same(lower, "uncapped") {
            Ok(GPUPowerProfile::Uncapped)
        } else {
            Err(Failure::with_detail("No match for value ", input))
        }
    }

    /// The profile that `input` names, in letters of either case.
    pub fn from_str(input: &str) -> (r: Result<GPUPowerProfile, Failure>)
        ensures
            outcome(r) == GPUPowerProfile::of_lower(lowercase(input@), input@),
            ascii(input@) ==> outcome(r) == GPUPowerProfile::of_lower(
                ascii_lower(input@),
                input@,
            ),
    {
        let lower = to_lowercase(input);
        GPUPowerProfile::from_lower(lower.as_str(), input)
    }

    /// The profile's name.
    pub fn to_string(&self) -> (r: String)
        ensures
            r@ == self.text(),
    {
        let s = match self {
            GPUPowerProfile::FullScreen => "3d_full_screen",
            GPUPowerProfile::Video => "video",
            GPUPowerProfile::VR => "vr",
            GPUPowerProfile::Compute => "compute",
            GPUPowerProfile::Custom => "custom",
            GPUPowerProfile::Capped => "capped",
            GPUPowerProfile::Uncapped => "uncapped",
        };
        s.to_owned()
    }
}

/// How much performance the graphics processor is held to.
#[derive(Clone, Copy, Debug, PartialEq, Eq, Structural)]
pub enum GPUPerformanceLevel {
    Auto,
    Low,
    High,
    Manual,
    ProfilePeak,
}

impl GPUPerformanceLevel {
    /// The level's number.
    pub open spec fn number(self) -> u32 {
        match self {
            GPUPerformanceLevel::Auto => 0,
            GPUPerformanceLevel::Low => 1,
            GPUPerformanceLevel::High => 2,
            GPUPerformanceLevel::Manual => 3,
            GPUPerformanceLevel::ProfilePeak => 4,
        }
    }

    /// The level's name.
    pub open spec fn text(self) -> Seq<char> {
        match self {
            GPUPerformanceLevel::Auto => "auto"@,
            GPUPerformanceLevel::Low => "low"@,
            GPUPerformanceLevel::High => "high"@,
            GPUPerformanceLevel::Manual => "manual"@,
            GPUPerformanceLevel::ProfilePeak => "profile_peak"@,
        }
    }

    /// The level with a given number.
    pub open spec fn of_number(v: int) -> Result<GPUPerformanceLevel, Seq<char>> {
        if v == 0 {
            Ok(GPUPerformanceLevel::Auto)
        } else if v == 1 {
            Ok(GPUPerformanceLevel::Low)
        } else if v == 2 {
            Ok(GPUPerformanceLevel::High)
        } else if v == 3 {
            Ok(GPUPerformanceLevel::Manual)
        } else if v == 4 {
            Ok(GPUPerformanceLevel::ProfilePeak)
        } else {
            Err("No enum match for value {v}"@)
        }
    }

    /// The level with a given name.
    pub open spec fn of_text(s: Seq<char>) -> Result<GPUPerformanceLevel, Seq<char>> {
        if s == "auto"@ {
            Ok(GPUPerformanceLevel::Auto)
        } else if s == "low"@ {
            Ok(GPUPerformanceLevel::Low)
        } else if s == "high"@ {
            Ok(GPUPerformanceLevel::High)
        } else if s == "manual"@ {
            Ok(GPUPerformanceLevel::Manual)
        } else if s == "profile_peak"@ {
            Ok(GPUPerformanceLevel::ProfilePeak)
        } else {
            Err("Matching variant not found"@)
        }
    }

    /// The level's number.
    pub fn value(self) -> (r: u32)
        ensures
            r == self.number(),
    {
        match self {
            GPUPerformanceLevel::Auto => 0,
            GPUPerformanceLevel::Low => 1,
            GPUPerformanceLevel::High => 2,
            GPUPerformanceLevel::Manual => 3,
            GPUPerformanceLevel::ProfilePeak => 4,
        }
    }

    /// The level with the number `v`.
    pub fn try_from(v: u32) -> (r: Result<GPUPerformanceLevel, Failure>)
        ensures
            outcome(r) == GPUPerformanceLevel::of_number(v as int),
    {
        if v == 0 {
            Ok(GPUPerformanceLevel::Auto)
        } else if v == 1 {
            Ok(GPUPerformanceLevel::Low)
        } else if v == 2 {
            Ok(GPUPerformanceLevel::High)
        } else if v == 3 {
            Ok(GPUPerformanceLevel::Manual)
        } else if v == 4 {
            Ok(GPUPerformanceLevel::ProfilePeak)
        } else {
            Err(Failure::new("No enum match for value {v}"))
        }
    }

    /// The level with the name `input`.
    pub fn from_str(input: &str) -> (r: Result<GPUPerformanceLevel, Failure>)
        ensures
            outcome(r) == GPUPerformanceLevel::of_text(input@),
    {
        if same(input, "auto") {
            Ok(GPUPerformanceLevel::Auto)
        } else if same(input, "low") {
            Ok(GPUPerformanceLevel::Low)
        } else if same(input, "high") {
            Ok(GPUPerformanceLevel::High)
        } else if same(input, "manual") {
            Ok(GPUPerformanceLevel::Manual)
        } else if same(input, "profile_peak") {
            Ok(GPUPerformanceLevel::ProfilePeak)
        } else {
            Err(Failure::new("Matching variant not found"))
        }
    }

    /// The level's name.
    pub fn to_string(&self) -> (r: String)
        ensures
            r@ == self.text(),
    {
        let s = match self {
            GPUPerformanceLevel::Auto => "auto",
            GPUPerformanceLevel::Low => "low",
            GPUPerformanceLevel::High => "high",
            GPUPerformanceLevel::Manual => "manual",
            GPUPerformanceLevel::ProfilePeak => "profile_peak",
        };
        s.to_owned()
    }
}

/// Which rule scales the processor's frequency.
#[derive(Clone, Copy, Debug, PartialEq, Eq, Hash, Structural)]
pub enum CPUScalingGovernor {
    Conservative,
    OnDemand,
    UserSpace,
    PowerSave,
    Performance,
    SchedUtil,
}

impl CPUScalingGovernor {
    /// The governor's name.
    pub open spec fn text(self) -> Seq<char> {
        match self {
            CPUScalingGovernor::Conservative => "conservative"@,
            CPUScalingGovernor::OnDemand => "ondemand"@,
            CPUScalingGovernor::UserSpace => "userspace"@,
            CPUScalingGovernor::PowerSave => "powersave"@,
            CPUScalingGovernor::Performance => "performance"@,
            CPUScalingGovernor::SchedUtil => "schedutil"@,
        }
    }

    /// The governor with a given name.
    pub open spec fn of_text(s: Seq<char>) -> Result<CPUScalingGovernor, Seq<char>> {
        if s == "conservative"@ {
            Ok(CPUScalingGovernor::Conservative)
        } else if s == "ondemand"@ {
            Ok(CPUScalingGovernor::OnDemand)
        } else if s == "userspace"@ {
            Ok(CPUScalingGovernor::UserSpace)
        } else if s == "powersave"@ {
            Ok(CPUScalingGovernor::PowerSave)
        } else if s == "performance"@ {
            Ok(CPUScalingGovernor::Performance)
        } else if s == "schedutil"@ {
            Ok(CPUScalingGovernor::SchedUtil)
        } else {
            Err("Matching variant not found"@)
        }
    }

    /// The governor with the name `input`.
    pub fn from_str(input: &str) -> (r: Result<CPUScalingGovernor, Failure>)
        ensures
            outcome(r) == CPUScalingGovernor::of_text(input@),
    {
        if same(input, "conservative") {
            Ok(CPUScalingGovernor::Conservative)
        } else if same(input, "ondemand") {
            Ok(CPUScalingGovernor::OnDemand)
        } else if same(input, "userspace") {
            Ok(CPUScalingGovernor::UserSpace)
        } else if same(input, "powersave") {
            Ok(CPUScalingGovernor::PowerSave)
        } else if same(input, "performance") {
            Ok(CPUScalingGovernor::Performance)
        } else if same(input, "schedutil") {
            Ok(CPUScalingGovernor::SchedUtil)
        } else {
            Err(Failure::new("Matching variant not found"))
        }
    }

    /// The governor's name.
    pub fn to_string(&self) -> (r: String)
        ensures
            r@ == self.text(),
    {
        let s = match self {
            CPUScalingGovernor::Conservative => "conservative",
            CPUScalingGovernor::OnDemand => "ondemand",
            CPUScalingGovernor::UserSpace => "userspace",
            CPUScalingGovernor::PowerSave => "powersave",
            CPUScalingGovernor::Performance => "performance",
            CPUScalingGovernor::SchedUtil => "schedutil",
        };
        s.to_owned()
    }
}

/// The number and the name that a line of the table of profiles starts with.
pub open spec fn profile_line(line: Seq<char>) -> Result<(nat, Seq<char>), Seq<char>> {
    let w = words(line);
    if w.len() == 0 {
        Err("Unable to get value from sysfs"@)
    } else {
        match parse(w[0], u32::MAX as nat) {
            Err(e) => Err("Unable to parse value from sysfs "@ + e.text()),
            Ok(value) => if w.len() == 1 {
                Err("Unable to get name from sysfs"@)
            } else {
                Ok((value, w[1]))
            },
        }
    }
}

/// The profile on the first line whose name ends in a star. A line before it that cannot be
/// read is an error.
pub open spec fn current_profile(ls: Seq<Seq<char>>) -> Result<GPUPowerProfile, Seq<char>>
    decreases ls.len(),
{
    if ls.len() == 0 {
        Err("Unable to determine current gpu power profile"@)
    } else {
        match profile_line(ls.first()) {
            Err(e) => Err(e),
            Ok((value, name)) => if name.len() > 0 && name.last() == '*' {
                match GPUPowerProfile::of_number(value as int) {
                    Some(p) => Ok(p),
                    None => Err(
                        "Unable to parse value for gpu power profile "@
                            + "No GPUPowerProfile for value"@,
                    ),
                }
            } else {
                current_profile(ls.skip(1))
            },
        }
    }
}

/// The names of the profiles by number, without their stars. On a deck only the capped and
/// the uncapped profile count: the others are not tuned for its hardware.
pub open spec fn profile_names(ls: Seq<Seq<char>>, deck: bool) -> Result<
    Map<u32, Seq<char>>,
    Seq<char>,
>
    decreases ls.len(),
{
    if ls.len() == 0 {
        Ok(Map::empty())
    } else {
        match (profile_names(ls.drop_last(), deck), profile_line(ls.last())) {
            (Err(e), _) => Err(e),
            (Ok(_), Err(e)) => Err(e),
            (Ok(names), Ok((value, name))) => if !deck || value == 8 || value == 9 {
                Ok(names.insert(value as u32, without(name, '*')))
            } else {
                Ok(names)
            },
        }
    }
}

/// The texts that a map of strings holds.
pub open spec fn map_texts(m: Map<u32, String>) -> Map<u32, Seq<char>> {
    m.map_values(|s: String| s@)
}

/// Reads the number and the name that a line of the table of profiles starts with.
fn read_profile_line(line: &str) -> (r: Result<(u32, String), Failure>)
    ensures
        match (r, profile_line(line@)) {
            (Ok(a), Ok(b)) => a.0 as nat == b.0 && a.1@ == b.1,
            (Err(a), Err(b)) => a@ == b,
            _ => false,
        },
{
    let w = words_of(line);
    assert(texts(w@).len() == w@.len());
    if w.len() == 0 {
        return Err(Failure::new("Unable to get value from sysfs"));
    }
    assert(texts(w@)[0] == w@[0]@);
    match parse_u32(w[0].as_str()) {
        Err(e) => Err(Failure::with_detail("Unable to parse value from sysfs ", e.message())),
        Ok(value) => {
            if w.len() == 1 {
                Err(Failure::new("Unable to get name from sysfs"))
            } else {
                assert(texts(w@)[1] == w@[1]@);
                Ok((value, w[1].clone()))
            }
        },
    }
}

/// The power profile that is in effect, by the contents of its attribute.
pub fn get_gpu_power_profile(contents: &str) -> (r: Result<GPUPowerProfile, Failure>)
    ensures
        outcome(r) == current_profile(lines(contents@)),
{
    // NOTE: We don't filter for a deck here because the firmware
    // supports setting the value to no-op values.
    let ls = lines_of(contents);
    let ghost all = texts(ls@);
    let mut i: usize = 0;
    assert(all.skip(0) =~= all);
    while i < ls.len()
        invariant
            i <= ls.len(),
            all == texts(ls@),
            all == lines(contents@),
            current_profile(all.skip(i as int)) == current_profile(all),
        decreases ls.len() - i,
    {
        assert(all.skip(i as int).first() == ls@[i as int]@);
        assert(all.skip(i as int).skip(1) =~= all.skip(i + 1));
        match read_profile_line(ls[i].as_str()) {
            Err(e) => {
                return Err(e);
            },
            Ok((value, name)) => {
                if ends_with_star(name.as_str()) {
                    return match GPUPowerProfile::try_from(value) {
                        Ok(p) => Ok(p),
                        Err(e) => Err(
                            Failure::with_detail(
                                "Unable to parse value for gpu power profile ",
                                e.message.as_str(),
                            ),
                        ),
                    };
                }
            },
        }
        i += 1;
    }
    Err(Failure::new("Unable to determine current gpu power profile"))
}

/// Whether `s` ends in a star.
fn ends_with_star(s: &str) -> (r: bool)
    ensures
        r == (s@.len() > 0 && s@.last() == '*'),
{
    let v = chars_of(s);
    v.len() > 0 && v[v.len() - 1] == '*'
}

/// The names of the power profiles by number, by the contents of the attribute.
pub fn get_gpu_power_profiles(contents: &str, deck: bool) -> (r: Result<
    HashMap<u32, String>,
    Failure,
>)
    ensures
        match (r, profile_names(lines(contents@), deck)) {
            (Ok(a), Ok(b)) => map_texts(a@) == b,
            (Err(a), Err(b)) => a@ == b,
            _ => false,
        },
{
    broadcast use vstd::std_specs::hash::group_hash_axioms;

    let ls = lines_of(contents);
    let ghost all = texts(ls@);
    let mut map: HashMap<u32, String> = HashMap::new();
    let mut i: usize = 0;
    assert(map_texts(map@) =~= Map::empty());
    while i < ls.len()
        invariant
            i <= ls.len(),
            all == texts(ls@),
            all == lines(contents@),
            profile_names(all.take(i as int), deck) == Ok::<Map<u32, Seq<char>>, Seq<char>>(
                map_texts(map@),
            ),
        decreases ls.len() - i,
    {
        let ghost upto = all.take(i + 1);
        assert(upto.drop_last() =~= all.take(i as int));
        assert(upto.last() == ls@[i as int]@);
        match read_profile_line(ls[i].as_str()) {
            Err(e) => {
                proof {
                    lemma_profile_names_error(all, deck, i + 1);
                }
                return Err(e);
            },
            Ok((value, name)) => {
                let name = removed(name.as_str(), '*');
                // Deck is designed to operate in one of the CAPPED or UNCAPPED power profiles,
                // the other profiles aren't correctly tuned for the hardware.
                if !deck || value == GPUPowerProfile::Capped.value() || value
                    == GPUPowerProfile::Uncapped.value() {
                    let ghost before = map@;
                    map.insert(value, name);
                    assert(map_texts(map@) =~= map_texts(before).insert(value, name@));
                }
            },
        }
        i += 1;
    }
    assert(all.take(i as int) =~= all);
    Ok(map)
}

/// A line that cannot be read makes the whole table an error.
proof fn lemma_profile_names_error(ls: Seq<Seq<char>>, deck: bool, n: int)
    requires
        0 <= n <= ls.len(),
        profile_names(ls.take(n), deck) is Err,
    ensures
        profile_names(ls, deck) == profile_names(ls.take(n), deck),
    decreases ls.len() - n,
{
    if n == ls.len() {
        assert(ls.take(n) =~= ls);
    } else {
        assert(ls.drop_last().take(n) =~= ls.take(n));
        lemma_profile_names_error(ls.drop_last(), deck, n);
    }
}

/// What to write to the attribute of the power profile.
pub fn set_gpu_power_profile(value: GPUPowerProfile) -> (r: String)
    ensures
        r@ == decimal(value.number() as nat),
{
    decimal_of(value.value() as u64)
}

/// The performance levels that the graphics processor can have, by whether it has the attribute:
/// all of them or none.
pub fn get_available_gpu_performance_levels(present: bool) -> (r: Vec<GPUPerformanceLevel>)
    ensures
        present ==> r@ == seq![
            GPUPerformanceLevel::Auto,
            GPUPerformanceLevel::Low,
            GPUPerformanceLevel::High,
            GPUPerformanceLevel::Manual,
            GPUPerformanceLevel::ProfilePeak,
        ],
        !present ==> r@ == Seq::<GPUPerformanceLevel>::empty(),
{
    if !present {
        return Vec::new();
    }
    let r = vec![
        GPUPerformanceLevel::Auto,
        GPUPerformanceLevel::Low,
        GPUPerformanceLevel::High,
        GPUPerformanceLevel::Manual,
        GPUPerformanceLevel::ProfilePeak,
    ];
    assert(r@ =~= seq![
        GPUPerformanceLevel::Auto,
        GPUPerformanceLevel::Low,
        GPUPerformanceLevel::High,
        GPUPerformanceLevel::Manual,
        GPUPerformanceLevel::ProfilePeak,
    ]);
    r
}

/// The performance level, by the contents of its attribute.
pub fn get_gpu_performance_level(contents: &str) -> (r: Result<GPUPerformanceLevel, Failure>)
    ensures
        outcome(r) == GPUPerformanceLevel::of_text(trim(contents@)),
{
    GPUPerformanceLevel::from_str(trimmed(contents))
}

/// What to write to the attribute of the performance level.
pub fn set_gpu_performance_level(level: GPUPerformanceLevel) -> (r: String)
    ensures
        r@ == level.text(),
{
    level.to_string()
}

/// The governors that are named in `ws`, in order; other words are passed over.
pub open spec fn governors(ws: Seq<Seq<char>>) -> Seq<CPUScalingGovernor>
    decreases ws.len(),
{
    if ws.len() == 0 {
        seq![]
    } else {
        match CPUScalingGovernor::of_text(ws.last()) {
            Ok(g) => governors(ws.drop_last()).push(g),
            Err(_) => governors(ws.drop_last()),
        }
    }
}

/// The governors that the processor can have, by the contents of their attribute.
pub fn get_available_cpu_scaling_governors(contents: &str) -> (r: Vec<CPUScalingGovernor>)
    ensures
        r@ == governors(words(contents@)),
{
    let ws = words_of(contents);
    let ghost all = texts(ws@);
    let mut result: Vec<CPUScalingGovernor> = Vec::new();
    let mut i: usize = 0;
    while i < ws.len()
        invariant
            i <= ws.len(),
            all == texts(ws@),
            result@ == governors(all.take(i as int)),
        decreases ws.len() - i,
    {
        assert(all.take(i + 1).drop_last() =~= all.take(i as int));
        assert(all.take(i + 1).last() == ws@[i as int]@);
        match CPUScalingGovernor::from_str(ws[i].as_str()) {
            Ok(governor) => {
                result.push(governor);
            },
            Err(_) => {},
        }
        i += 1;
    }
    assert(all.take(i as int) =~= all);
    result
}

/// The governor in effect, by the contents of its attribute.
pub open spec fn current_governor(contents: Seq<char>) -> Result<CPUScalingGovernor, Seq<char>> {
    match CPUScalingGovernor::of_text(trim(contents)) {
        Ok(g) => Ok(g),
        Err(e) => Err(
            "Error converting CPU scaling governor sysfs file contents to enumeration: "@ + e,
        ),
    }
}

/// The governor in effect, by the contents of its attribute.
pub fn get_cpu_scaling_governor(contents: &str) -> (r: Result<CPUScalingGovernor, Failure>)
    ensures
        outcome(r) == current_governor(contents@),
{
    match CPUScalingGovernor::from_str(trimmed(contents)) {
        Ok(g) => Ok(g),
        Err(e) => Err(
            Failure::with_detail(
                "Error converting CPU scaling governor sysfs file contents to enumeration: ",
                e.message.as_str(),
            ),
        ),
    }
}

/// What to write to the attribute of every policy's governor.
pub fn set_cpu_scaling_governor(governor: CPUScalingGovernor) -> (r: String)
    ensures
        r@ == governor.text(),
{
    governor.to_string()
}

/// What the directory of the policies holds next.
pub enum PolicyEntry<'a> {
    /// An entry with its name.
    Named(&'a str),
    /// An entry whose name is not text.
    NotText,
    /// No further entry.
    End,
}

/// What to do about an entry of the directory of the policies.
pub enum PolicyStep {
    /// Go on to the next entry.
    Skip,
    /// Write the governor to this file, then go on to the next entry.
    Write(String),
    /// Stop.
    Done(Result<(), Failure>),
}

/// A `PolicyStep` with the strings seen as text.
pub enum PolicyStepView {
    Skip,
    Write(Seq<char>),
    Done(Result<(), Seq<char>>),
}

impl View for PolicyStep {
    type V = PolicyStepView;

    open spec fn view(&self) -> PolicyStepView {
        match self {
            PolicyStep::Skip => PolicyStepView::Skip,
            PolicyStep::Write(path) => PolicyStepView::Write(path@),
            PolicyStep::Done(r) => PolicyStepView::Done(outcome(*r)),
        }
    }
}

/// The file of the governor of the policy `name`.
pub open spec fn governor_file(name: Seq<char>) -> Seq<char> {
    "/sys/devices/system/cpu/cpufreq/"@ + name + "/scaling_governor"@
}

/// Whether `name` is that of a policy.
pub open spec fn is_policy(name: Seq<char>) -> bool {
    "policy"@.is_prefix_of(name)
}

/// Writing a governor to every policy of the processor.
pub struct GovernorWrite {
    /// Whether there was any policy so far.
    pub wrote_stuff: bool,
}

impl GovernorWrite {
    /// Nothing written yet.
    pub fn new() -> (r: GovernorWrite)
        ensures
            !r.wrote_stuff,
    {
        GovernorWrite { wrote_stuff: false }
    }

    /// What to do about the next entry.
    pub open spec fn step(wrote_stuff: bool, entry: PolicyEntry) -> PolicyStepView {
        match entry {
            PolicyEntry::Named(name) => if is_policy(name@) {
                PolicyStepView::Write(governor_file(name@))
            } else {
                PolicyStepView::Skip
            },
            PolicyEntry::NotText => PolicyStepView::Done(
                Err("Unable to convert path to string"@),
            ),
            PolicyEntry::End => PolicyStepView::Done(
                if wrote_stuff {
                    Ok(())
                } else {
                    Err("No data written, unable to find any policyX sysfs paths"@)
                },
            ),
        }
    }

    /// Takes the next entry of the directory and says what to do about it.
    pub fn write_cpu_governor_sysfs_contents(&mut self, entry: PolicyEntry) -> (r: PolicyStep)
        ensures
            r@ == GovernorWrite::step(old(self).wrote_stuff, entry),
            final(self).wrote_stuff == (old(self).wrote_stuff || r@ is Write),
    {
        match entry {
            PolicyEntry::Named(name) => {
                if starts_with(name, "policy") {
                    self.wrote_stuff = true;
                    let base = joined("/sys/devices/system/cpu/cpufreq/", name);
                    PolicyStep::Write(joined(base.as_str(), "/scaling_governor"))
                } else {
                    PolicyStep::Skip
                }
            },
            PolicyEntry::NotText => PolicyStep::Done(
                Err(Failure::new("Unable to convert path to string")),
            ),
            PolicyEntry::End => {
                if self.wrote_stuff {
                    PolicyStep::Done(Ok(()))
                } else {
                    PolicyStep::Done(
                        Err(Failure::new("No data written, unable to find any policyX sysfs paths")),
                    )
                }
            },
        }
    }
}

/// Whether anything is written after the entries `names`, from `GovernorWrite::new` on.
pub open spec fn wrote_after(names: Seq<&str>) -> bool
    decreases names.len(),
{
    names.len() > 0 && (wrote_after(names.drop_last()) || GovernorWrite::step(
        wrote_after(names.drop_last()),
        PolicyEntry::Named(names.last()),
    ) is Write)
}

/// Writing a governor succeeds at the end of the directory if and only if some entry was a
/// policy.
pub proof fn law_governor_written_iff_policy(names: Seq<&str>)
    ensures
        GovernorWrite::step(wrote_after(names), PolicyEntry::End) == PolicyStepView::Done(Ok(()))
            <==> exists|i: int| 0 <= i < names.len() && is_policy(#[trigger] names[i]@),
    decreases names.len(),
{
    lemma_wrote_after(names);
}

proof fn lemma_wrote_after(names: Seq<&str>)
    ensures
        wrote_after(names) <==> exists|i: int|
            0 <= i < names.len() && is_policy(#[trigger] names[i]@),
    decreases names.len(),
{
    if names.len() > 0 {
        let init = names.drop_last();
        lemma_wrote_after(init);
        if wrote_after(init) {
            let i = choose|i: int| 0 <= i < init.len() && is_policy(#[trigger] init[i]@);
            assert(names[i] == init[i]);
            assert(is_policy(names[i]@));
        }
        if exists|i: int| 0 <= i < names.len() && is_policy(#[trigger] names[i]@) {
            let i = choose|i: int| 0 <= i < names.len() && is_policy(#[trigger] names[i]@);
            if i < init.len() {
                assert(is_policy(init[i]@));
            } else {
                assert(names[i] == names.last());
            }
        }
    }
}

/// What to write, one after the other, to the attribute of the clocks.
pub open spec fn clocks_written(clocks: u32) -> Result<Seq<Seq<char>>, Seq<char>> {
    if 200 <= clocks <= 1600 {
        Ok(
            seq![
                "s 0 "@ + decimal(clocks as nat) + "\n"@,
                "s 1 "@ + decimal(clocks as nat) + "\n"@,
                "c\n"@,
            ],
        )
    } else {
        Err("Invalid clocks"@)
    }
}

/// What to write, one after the other, to the attribute of the clocks. Only clocks from 200
/// to 1600 are valid.
pub fn set_gpu_clocks(clocks: u32) -> (r: Result<Vec<String>, Failure>)
    ensures
        match (r, clocks_written(clocks)) {
            (Ok(a), Ok(b)) => texts(a@) == b,
            (Err(a), Err(b)) => a@ == b,
            _ => false,
        },
{
    if clocks < 200 || clocks > 1600 {
        return Err(Failure::new("Invalid clocks"));
    }
    let number = decimal_of(clocks as u64);
    let low = joined(joined("s 0 ", number.as_str()).as_str(), "\n");
    let high = joined(joined("s 1 ", number.as_str()).as_str(), "\n");
    let commit = "c\n".to_owned();
    let r = vec![low, high, commit];
    proof {
        assert(texts(r@) =~= seq![low@, high@, commit@]);
    }
    Ok(r)
}

/// The first line of `s` with its line feed.
pub open spec fn raw_line(s: Seq<char>) -> Seq<char> {
    if find(s, '\n') < s.len() {
        s.take(find(s, '\n') + 1)
    } else {
        s
    }
}

/// The clock that the first row behind the heading of the core clocks ends in, or zero if
/// there is no such row.
pub open spec fn sclk(s: Seq<char>) -> Result<nat, Seq<char>>
    decreases s.len(),
    via sclk_shrink
{
    let line = raw_line(s);
    let rest = s.skip(line.len() as int);
    if s.len() == 0 {
        Ok(0)
    } else if line != "OD_SCLK:\n"@ {
        sclk(rest)
    } else {
        let w = words(raw_line(rest));
        if w.len() >= 2 && "Mhz"@.is_suffix_of(w[1]) {
            match parse(trim_end_matches(w[1], "Mhz"@), u32::MAX as nat) {
                Ok(v) => Ok(v),
                Err(e) => Err(e.text()),
            }
        } else {
            Ok(0)
        }
    }
}

#[via_fn]
proof fn sclk_shrink(s: Seq<char>) {
    lemma_find(s, '\n');
}

/// Where the line that starts at `from` ends, its line feed counted in.
fn line_end(v: &Vec<char>, from: usize) -> (r: usize)
    requires
        from <= v.len(),
    ensures
        from <= r <= v.len(),
        from < v.len() ==> from < r,
        v@.subrange(from as int, r as int) == raw_line(v@.skip(from as int)),
{
    let ghost rest = v@.skip(from as int);
    let mut i: usize = from;
    while i < v.len() && v[i] != '\n'
        invariant
            from <= i <= v.len(),
            rest == v@.skip(from as int),
            forall|k: int| 0 <= k < i - from ==> rest[k] != '\n',
        decreases v.len() - i,
    {
        assert(rest[i - from] == v@[i as int]);
        i += 1;
    }
    proof {
        crate::text::lemma_find_is(rest, '\n', i - from);
    }
    if i < v.len() {
        i += 1;
    }
    assert(v@.subrange(from as int, i as int) =~= raw_line(rest));
    i
}

/// The clock of the graphics processor, by the contents of its attribute.
pub fn get_gpu_clocks(contents: &str) -> (r: Result<u32, Failure>)
    ensures
        match (r, sclk(contents@)) {
            (Ok(a), Ok(b)) => a as nat == b,
            (Err(a), Err(b)) => a@ == b,
            _ => false,
        },
{
    let v = chars_of(contents);
    let mut i: usize = 0;
    assert(contents@.skip(0) =~= contents@);
    while i < v.len()
        invariant
            i <= v.len(),
            v@ == contents@,
            sclk(contents@.skip(i as int)) == sclk(contents@),
        decreases v.len() - i,
    {
        let ghost s = contents@.skip(i as int);
        let j: usize = line_end(&v, i);
        let line = text_of(&v, i, j);
        assert(s.skip(raw_line(s).len() as int) =~= contents@.skip(j as int));
        if same(line.as_str(), "OD_SCLK:\n") {
            let k: usize = line_end(&v, j);
            let row = text_of(&v, j, k);
            let w = words_of(row.as_str());
            assert(texts(w@).len() == w@.len());
            if w.len() >= 2 {
                assert(texts(w@)[1] == w@[1]@);
                if ends_with(w[1].as_str(), "Mhz") {
                    proof {
                        reveal_strlit("Mhz");
                    }
                    let mhz = trimmed_end_matches(w[1].as_str(), "Mhz");
                    return match parse_u32(mhz) {
                        Ok(v) => Ok(v),
                        Err(e) => Err(Failure::new(e.message())),
                    };
                }
            }
            return Ok(0);
        }
        i = j;
    }
    Ok(0)
}

/// Whether the hardware monitor whose name is `name` is that of the graphics processor. Where
/// there is no further monitor, `name` is `None`.
pub open spec fn hwmon_found(name: Option<Seq<char>>) -> Result<bool, Seq<char>> {
    match name {
        Some(name) => Ok(trim(name) == "amdgpu"@),
        None => Err("hwmon not found"@),
    }
}

/// Whether the next hardware monitor, with the contents of its `name` attribute, is that of
/// the graphics processor. Where there is no further monitor, `name` is `None`.
pub fn find_hwmon(name: Option<&str>) -> (r: Result<bool, Failure>)
    ensures
        outcome(r) == hwmon_found(
            match name {
                Some(name) => Some(name@),
                None => None,
            },
        ),
{
    match name {
        Some(name) => Ok(same(trimmed(name), "amdgpu")),
        None => Err(Failure::new("hwmon not found")),
    }
}

/// The limit in watts, by the contents of its attribute, which is in microwatts.
pub open spec fn tdp_limit(contents: Seq<char>) -> Result<nat, Seq<char>> {
    match parse(trim_end(contents), u32::MAX as nat) {
        Ok(v) => Ok(v / 1000000),
        Err(e) => Err(e.text()),
    }
}

/// The limit in watts, by the contents of its attribute.
pub fn get_tdp_limit(contents: &str) -> (r: Result<u32, Failure>)
    ensures
        match (r, tdp_limit(contents@)) {
            (Ok(a), Ok(b)) => a as nat == b,
            (Err(a), Err(b)) => a@ == b,
            _ => false,
        },
{
    match parse_u32(trimmed_end(contents)) {
        Ok(v) => Ok(v / 1000000),
        Err(e) => Err(Failure::new(e.message())),
    }
}

/// The text that sets the limit.
pub open spec fn tdp_written(limit: u32) -> Result<Seq<char>, Seq<char>> {
    if 3 <= limit <= 15 {
        Ok(decimal(limit as nat) + "000000"@)
    } else {
        Err("Invalid limit"@)
    }
}

/// A write to an attribute below the hardware monitor.
#[derive(Debug)]
pub struct AttributeWrite {
    pub file: &'static str,
    pub data: String,
    /// Whether the attribute has to be there.
    pub required: bool,
}

impl View for AttributeWrite {
    type V = (Seq<char>, Seq<char>, bool);

    open spec fn view(&self) -> (Seq<char>, Seq<char>, bool) {
        (self.file@, self.data@, self.required)
    }
}

/// The writes that set the limit: the same to both attributes, the second of which need not be
/// there.
pub open spec fn tdp_writes(limit: u32) -> Result<Seq<(Seq<char>, Seq<char>, bool)>, Seq<char>> {
    match tdp_written(limit) {
        Ok(data) => Ok(seq![("power1_cap"@, data, true), ("power2_cap"@, data, false)]),
        Err(e) => Err(e),
    }
}

/// Whether the writes are those of `want`, or the error is.
pub open spec fn same_writes(
    r: Result<Vec<AttributeWrite>, Seq<char>>,
    want: Result<Seq<(Seq<char>, Seq<char>, bool)>, Seq<char>>,
) -> bool {
    match (r, want) {
        (Ok(a), Ok(b)) => a@.map_values(|w: AttributeWrite| w@) == b,
        (Err(a), Err(b)) => a == b,
        _ => false,
    }
}

/// The writes that set the limit, in order; the first that fails ends them. Only limits from 3
/// to 15 watts are valid.
pub fn set_tdp_limit(limit: u32) -> (r: Result<Vec<AttributeWrite>, Failure>)
    ensures
        same_writes(outcome(r), tdp_writes(limit)),
{
    if limit < 3 || limit > 15 {
        return Err(Failure::new("Invalid limit"));
    }
    let number = decimal_of(limit as u64);
    let data = joined(number.as_str(), "000000");
    let writes = vec![
        AttributeWrite { file: TDP_LIMIT1, data: data.clone(), required: true },
        AttributeWrite { file: TDP_LIMIT2, data, required: false },
    ];
    proof {
        assert(writes@.map_values(|w: AttributeWrite| w@) =~= seq![
            ("power1_cap"@, data@, true),
            ("power2_cap"@, data@, false),
        ]);
    }
    Ok(writes)
}

/// A zero behind a number multiplies it by ten.
proof fn lemma_decimal_shift(n: nat)
    requires
        n > 0,
    ensures
        decimal(n * 10) == decimal(n).push('0'),
{
    assert(n * 10 / 10 == n);
    assert(n * 10 % 10 == 0);
}

/// A limit that is written is read back, with or without a line feed behind it.
pub proof fn law_tdp_limit_read_back(limit: u32)
    requires
        3 <= limit <= 15,
    ensures
        tdp_written(limit) is Ok,
        tdp_limit(tdp_written(limit)->Ok_0) == Ok::<nat, Seq<char>>(limit as nat),
        tdp_limit(tdp_written(limit)->Ok_0 + "\n"@) == Ok::<nat, Seq<char>>(limit as nat),
{
    let n = limit as nat;
    let s = tdp_written(limit)->Ok_0;
    reveal_strlit("000000");
    reveal_strlit("\n");
    lemma_decimal_shift(n);
    lemma_decimal_shift(n * 10);
    lemma_decimal_shift(n * 100);
    lemma_decimal_shift(n * 1000);
    lemma_decimal_shift(n * 10000);
    lemma_decimal_shift(n * 100000);
    assert(s =~= decimal(n * 1000000));
    law_decimal_read_back(n * 1000000, u32::MAX as nat);
    lemma_decimal_digits(n * 1000000);
    lemma_trim_end_append(s, "\n"@);
    lemma_trim_id(s);
}

/// A performance level that is written is read back, also with a line feed behind it.
pub proof fn law_performance_level_read_back(level: GPUPerformanceLevel)
    ensures
        GPUPerformanceLevel::of_text(trim(level.text())) == Ok::<GPUPerformanceLevel, Seq<char>>(
            level,
        ),
        GPUPerformanceLevel::of_text(trim(level.text() + "\n"@)) == Ok::<
            GPUPerformanceLevel,
            Seq<char>,
        >(level),
{
    law_performance_level_round_trip(level);
    reveal_strlit("auto");
    reveal_strlit("low");
    reveal_strlit("high");
    reveal_strlit("manual");
    reveal_strlit("profile_peak");
    reveal_strlit("\n");
    let s = level.text();
    lemma_trim_id(s);
    lemma_trim_around(Seq::empty(), s, "\n"@);
    assert(Seq::<char>::empty() + s + "\n"@ =~= s + "\n"@);
}

/// A level's name and number lead back to the level, and to no other.
pub proof fn law_performance_level_round_trip(level: GPUPerformanceLevel)
    ensures
        GPUPerformanceLevel::of_text(level.text()) == Ok::<GPUPerformanceLevel, Seq<char>>(level),
        GPUPerformanceLevel::of_number(level.number() as int) == Ok::<
            GPUPerformanceLevel,
            Seq<char>,
        >(level),
{
    reveal_strlit("auto");
    reveal_strlit("low");
    reveal_strlit("high");
    reveal_strlit("manual");
    reveal_strlit("profile_peak");
    assert("auto"@.len() == 4 && "low"@.len() == 3 && "high"@.len() == 4);
    assert("manual"@.len() == 6 && "profile_peak"@.len() == 12);
    assert("auto"@[0] != "high"@[0]);
}

/// A governor's name leads back to the governor.
pub proof fn law_governor_round_trip(governor: CPUScalingGovernor)
    ensures
        CPUScalingGovernor::of_text(governor.text()) == Ok::<CPUScalingGovernor, Seq<char>>(
            governor,
        ),
{
    reveal_strlit("conservative");
    reveal_strlit("ondemand");
    reveal_strlit("userspace");
    reveal_strlit("powersave");
    reveal_strlit("performance");
    reveal_strlit("schedutil");
    assert("conservative"@[0] == 'c');
    assert("ondemand"@[0] == 'o');
    assert("userspace"@[0] == 'u');
    assert("powersave"@[0] == 'p' && "powersave"@[1] == 'o');
    assert("performance"@[0] == 'p' && "performance"@[1] == 'e');
    assert("schedutil"@[0] == 's');
}

/// A governor that is written is read back, also with a line feed behind it.
pub proof fn law_governor_read_back(governor: CPUScalingGovernor)
    ensures
        current_governor(governor.text()) == Ok::<CPUScalingGovernor, Seq<char>>(governor),
        current_governor(governor.text() + "\n"@) == Ok::<CPUScalingGovernor, Seq<char>>(
            governor,
        ),
{
    law_governor_round_trip(governor);
    reveal_strlit("conservative");
    reveal_strlit("ondemand");
    reveal_strlit("userspace");
    reveal_strlit("powersave");
    reveal_strlit("performance");
    reveal_strlit("schedutil");
    reveal_strlit("\n");
    let s = governor.text();
    lemma_trim_id(s);
    lemma_trim_around(Seq::empty(), s, "\n"@);
    assert(Seq::<char>::empty() + s + "\n"@ =~= s + "\n"@);
}

/// A profile's name, in letters of either case, and its number lead back to the profile.
pub proof fn law_power_profile_round_trip(profile: GPUPowerProfile, input: Seq<char>)
    requires
        ascii_lower(input) == profile.text(),
    ensures
        GPUPowerProfile::of_lower(ascii_lower(input), input) == Ok::<GPUPowerProfile, Seq<char>>(
            profile,
        ),
        GPUPowerProfile::of_number(profile.number() as int) == Some(profile),
{
    reveal_strlit("3d_full_screen");
    reveal_strlit("video");
    reveal_strlit("vr");
    reveal_strlit("compute");
    reveal_strlit("custom");
    reveal_strlit("capped");
    reveal_strlit("uncapped");
    assert("3d_full_screen"@[0] == '3');
    assert("video"@[0] == 'v' && "video"@[1] == 'i');
    assert("vr"@[0] == 'v' && "vr"@[1] == 'r');
    assert("compute"@[0] == 'c' && "compute"@[1] == 'o');
    assert("custom"@[0] == 'c' && "custom"@[1] == 'u');
    assert("capped"@[0] == 'c' && "capped"@[1] == 'a');
    assert("uncapped"@[0] == 'u');
}

/// On a deck no profile but the capped and the uncapped one is ever offered.
pub proof fn law_deck_profiles(ls: Seq<Seq<char>>, value: u32)
    requires
        profile_names(ls, true) is Ok,
        profile_names(ls, true)->Ok_0.contains_key(value),
    ensures
        value == GPUPowerProfile::Capped.number() || value == GPUPowerProfile::Uncapped.number(),
    decreases ls.len(),
{
    if ls.len() > 0 {
        let init = profile_names(ls.drop_last(), true)->Ok_0;
        if init.contains_key(value) {
            law_deck_profiles(ls.drop_last(), value);
        }
    }
}

/// The profile in effect is the one that is marked: the first line whose name ends in a star
/// tells it, provided that the lines before it can be read.
pub proof fn law_marked_profile_is_current(ls: Seq<Seq<char>>, i: int, profile: GPUPowerProfile)
    requires
        0 <= i < ls.len(),
        forall|k: int|
            0 <= k < i ==> match profile_line(#[trigger] ls[k]) {
                Ok((_, name)) => name.len() == 0 || name.last() != '*',
                Err(_) => false,
            },
        match profile_line(ls[i]) {
            Ok((value, name)) => value == profile.number() && name.len() > 0 && name.last() == '*',
            Err(_) => false,
        },
    ensures
        current_profile(ls) == Ok::<GPUPowerProfile, Seq<char>>(profile),
    decreases i,
{
    if i > 0 {
        let rest = ls.skip(1);
        assert forall|k: int| 0 <= k < i - 1 implies match profile_line(#[trigger] rest[k]) {
            Ok((_, name)) => name.len() == 0 || name.last() != '*',
            Err(_) => false,
        } by {
            assert(rest[k] == ls[k + 1]);
        }
        assert(rest[i - 1] == ls[i]);
        law_marked_profile_is_current(rest, i - 1, profile);
        assert(ls[0] == ls.first());
    }
}

/// A line feed ends the first line.
proof fn lemma_raw_line(line: Seq<char>, rest: Seq<char>)
    requires
        forall|k: int| 0 <= k < line.len() ==> line[k] != '\n',
    ensures
        raw_line(line + seq!['\n'] + rest) == line + seq!['\n'],
{
    let s = line + seq!['\n'] + rest;
    assert forall|k: int| 0 <= k < line.len() implies s[k] != '\n' by {
        assert(s[k] == line[k]);
    }
    assert(s[line.len() as int] == '\n');
    crate::text::lemma_find_is(s, '\n', line.len() as int);
    assert(s.take(line.len() as int + 1) =~= line + seq!['\n']);
}

/// The words of a row with a label, a gap, a value and a line feed are the label and the value.
proof fn lemma_row_words(label: Seq<char>, gap: Seq<char>, value: Seq<char>)
    requires
        label.len() > 0,
        gap.len() > 0,
        value.len() > 0,
        forall|k: int| 0 <= k < label.len() ==> !white(label[k]),
        forall|k: int| 0 <= k < gap.len() ==> white(gap[k]),
        forall|k: int| 0 <= k < value.len() ==> !white(value[k]),
    ensures
        words(label + gap + value + seq!['\n']) == seq![label, value],
{
    let row = label + gap + value + seq!['\n'];
    let n = label.len() as int;
    assert(!white(row.first())) by {
        assert(row[0] == label[0]);
    }
    assert(crate::text::trim_start(row) == row);
    assert forall|k: int| 0 <= k < n implies !white(row[k]) by {
        assert(row[k] == label[k]);
    }
    assert(white(row[n])) by {
        assert(row[n] == gap[0]);
    }
    crate::text::lemma_find_white_is(row, n);
    assert(row.take(n) =~= label);
    let rest = row.skip(n);
    let m = gap.len() as int;
    assert(rest =~= gap + value + seq!['\n']);
    assert forall|k: int| 0 <= k < m implies white(rest[k]) by {
        assert(rest[k] == gap[k]);
    }
    crate::text::lemma_trim_start_from(rest, m);
    let t = rest.skip(m);
    assert(t =~= value + seq!['\n']);
    assert(t.first() == value[0]);
    assert(crate::text::trim_start(rest) == t);
    let w = value.len() as int;
    assert forall|k: int| 0 <= k < w implies !white(t[k]) by {
        assert(t[k] == value[k]);
    }
    crate::text::lemma_find_white_is(t, w);
    assert(t.take(w) =~= value);
    let end = t.skip(w);
    assert(end =~= seq!['\n']);
    crate::text::lemma_trim_start_from(end, 1);
    assert(end.skip(1) =~= Seq::<char>::empty());
    assert(words(end) =~= Seq::<Seq<char>>::empty());
    assert(words(rest) =~= seq![value]);
    assert(words(row) =~= seq![label] + words(rest));
    assert(words(row) =~= seq![label, value]);
}

/// The clock that the table gives is read: the one in the row right behind the heading of the
/// core clocks, whatever follows.
pub proof fn law_clocks_read(mhz: u32, label: Seq<char>, gap: Seq<char>, rest: Seq<char>)
    requires
        label.len() > 0,
        gap.len() > 0,
        forall|k: int| 0 <= k < label.len() ==> !white(label[k]),
        forall|k: int| 0 <= k < gap.len() ==> gap[k] == ' ',
    ensures
        sclk(
            "OD_SCLK:\n"@ + (label + gap + (decimal(mhz as nat) + "Mhz"@) + seq!['\n'] + rest),
        ) == Ok::<nat, Seq<char>>(mhz as nat),
{
    let d = decimal(mhz as nat);
    lemma_decimal_digits(mhz as nat);
    reveal_strlit("OD_SCLK:\n");
    reveal_strlit("Mhz");
    let value = d + "Mhz"@;
    let line = label + gap + value;
    let below = line + seq!['\n'] + rest;
    let heading = seq!['O', 'D', '_', 'S', 'C', 'L', 'K', ':'];
    let s = "OD_SCLK:\n"@ + below;
    assert("OD_SCLK:\n"@ =~= heading + seq!['\n']);
    assert(s =~= heading + seq!['\n'] + below);
    lemma_raw_line(heading, below);
    assert(s.skip(9) =~= below);
    assert forall|k: int| 0 <= k < value.len() implies !white(#[trigger] value[k]) && value[k]
        != '\n' by {
        if k < d.len() {
            assert(value[k] == d[k]);
        }
    }
    assert forall|k: int| 0 <= k < line.len() implies line[k] != '\n' by {
        if k < label.len() {
            assert(line[k] == label[k]);
        } else if k < label.len() + gap.len() {
            assert(line[k] == gap[k - label.len()]);
        } else {
            assert(line[k] == value[k - label.len() - gap.len()]);
        }
    }
    lemma_raw_line(line, rest);
    lemma_row_words(label, gap, value);
    assert("Mhz"@.is_suffix_of(value)) by {
        assert(value.subrange(value.len() - 3, value.len() as int) =~= "Mhz"@);
    }
    assert(value.take(value.len() - 3) =~= d);
    assert(!"Mhz"@.is_suffix_of(d)) by {
        if "Mhz"@.is_suffix_of(d) {
            assert(d.last() == "Mhz"@[2]);
        }
    }
    assert(trim_end_matches(value, "Mhz"@) == d) by {
        reveal_with_fuel(trim_end_matches, 3);
    }
    law_decimal_read_back(mhz as nat, u32::MAX as nat);
}

/// The line that decides the profile in effect: the first that cannot be read or whose name ends
/// in a star.
pub open spec fn decides_profile(line: Seq<char>) -> bool {
    match profile_line(line) {
        Ok((_, name)) => name.len() > 0 && name.last() == '*',
        Err(_) => true,
    }
}

/// The first line that is marked or cannot be read decides the profile in effect, whatever
/// follows; where no line is, there is none.
pub proof fn law_current_profile(ls: Seq<Seq<char>>, i: int)
    requires
        0 <= i <= ls.len(),
        forall|k: int| 0 <= k < i ==> !decides_profile(#[trigger] ls[k]),
        i < ls.len() ==> decides_profile(ls[i]),
    ensures
        i == ls.len() ==> current_profile(ls) == Err::<GPUPowerProfile, Seq<char>>(
            "Unable to determine current gpu power profile"@,
        ),
        i < ls.len() && profile_line(ls[i]) is Err ==> current_profile(ls) == Err::<
            GPUPowerProfile,
            Seq<char>,
        >(profile_line(ls[i])->Err_0),
        forall|p: GPUPowerProfile|
            i < ls.len() && profile_line(ls[i]) is Ok && profile_line(ls[i])->Ok_0.0
                == #[trigger] p.number() ==> current_profile(ls) == Ok::<GPUPowerProfile, Seq<char>>(
                p,
            ),
        i < ls.len() && profile_line(ls[i]) is Ok && (forall|p: GPUPowerProfile|
            #[trigger] p.number() != profile_line(ls[i])->Ok_0.0) ==> current_profile(ls) is Err,
    decreases i,
{
    if i > 0 {
        assert(!decides_profile(ls[0]));
        let rest = ls.skip(1);
        assert forall|k: int| 0 <= k < i - 1 implies !decides_profile(#[trigger] rest[k]) by {
            assert(rest[k] == ls[k + 1]);
        }
        if i < ls.len() {
            assert(rest[i - 1] == ls[i]);
        }
        law_current_profile(rest, i - 1);
    } else if ls.len() > 0 && profile_line(ls[0]) is Ok {
        let v = profile_line(ls[0])->Ok_0.0;
        match GPUPowerProfile::of_number(v as int) {
            Some(p) => {
                assert(p.number() == v);
            },
            None => {},
        }
    }
}

/// A row of the table starts with a number and a name, each behind any white space; what is
/// behind the name does not matter.
pub proof fn law_profile_row(
    head: Seq<char>,
    value: u32,
    gap: Seq<char>,
    name: Seq<char>,
    rest: Seq<char>,
)
    requires
        blank(head),
        blank(gap),
        gap.len() > 0,
        name.len() > 0,
        forall|k: int| 0 <= k < name.len() ==> !white(name[k]),
        rest.len() > 0 ==> white(rest.first()),
    ensures
        profile_line(head + decimal(value as nat) + (gap + name + rest)) == Ok::<
            (nat, Seq<char>),
            Seq<char>,
        >((value as nat, name)),
        profile_line(head) == Err::<(nat, Seq<char>), Seq<char>>(
            "Unable to get value from sysfs"@,
        ),
        profile_line(head + decimal(value as nat) + gap) == Err::<(nat, Seq<char>), Seq<char>>(
            "Unable to get name from sysfs"@,
        ),
{
    let d = decimal(value as nat);
    lemma_decimal_digits(value as nat);
    law_decimal_read_back(value as nat, u32::MAX as nat);
    assert forall|k: int| 0 <= k < d.len() implies !white(d[k]) by {
        assert(crate::number::is_digit(d[k]));
    }
    let tail = gap + name + rest;
    assert(tail.first() == gap[0]);
    assert(white(gap[0]));
    law_words(head, d, tail);
    law_words(gap, name, rest);
    assert(words(head + d + tail)[0] == d);
    assert(words(head + d + tail)[1] == name);
    law_words(head, d, gap);
    law_words(gap, name, rest);
    assert(words(head + d + gap) =~= seq![d]);
}

/// Every profile of a table that can be read is listed under its number, marked or not, and on a
/// deck just those with the numbers of the capped and the uncapped profile; the name is that of
/// the last line with the number, without its stars.
pub proof fn law_profiles_listed(ls: Seq<Seq<char>>, deck: bool, v: u32)
    requires
        forall|i: int| 0 <= i < ls.len() ==> profile_line(#[trigger] ls[i]) is Ok,
    ensures
        profile_names(ls, deck) is Ok,
        profile_names(ls, deck)->Ok_0.contains_key(v) <==> ((!deck || v == 8 || v == 9) && exists|
            i: int,
        |
            0 <= i < ls.len() && row_number(#[trigger] ls[i], v)),
        forall|i: int|
            (!deck || v == 8 || v == 9) && #[trigger] last_row(ls, v, i) ==> profile_names(
                ls,
                deck,
            )->Ok_0[v] == without(profile_line(ls[i])->Ok_0.1, '*'),
    decreases ls.len(),
{
    if ls.len() > 0 {
        let init = ls.drop_last();
        assert forall|i: int| 0 <= i < init.len() implies profile_line(#[trigger] init[i]) is Ok by {
            assert(init[i] == ls[i]);
        }
        law_profiles_listed(init, deck, v);
        let n = ls.len() - 1;
        assert(profile_line(ls[n]) is Ok);
        lemma_profile_value(ls[n]);
        lemma_has_row(ls, v);
        assert(has_row(init, v) <==> exists|i: int|
            0 <= i < init.len() && row_number(#[trigger] init[i], v));
        assert(has_row(ls, v) <==> exists|i: int|
            0 <= i < ls.len() && row_number(#[trigger] ls[i], v));
        let all = profile_names(ls, deck)->Ok_0;
        assert forall|i: int|
            (!deck || v == 8 || v == 9) && #[trigger] last_row(ls, v, i) implies all[v] == without(
            profile_line(ls[i])->Ok_0.1,
            '*',
        ) by {
            if i < n {
                assert(row_number(ls[n], v) == false);
                assert(init[i] == ls[i]);
                assert forall|j: int| i < j < init.len() implies !row_number(
                    #[trigger] init[j],
                    v,
                ) by {
                    assert(init[j] == ls[j]);
                }
                assert(last_row(init, v, i));
            }
        }
    }
}

/// Whether a row starts with a number.
pub open spec fn row_number(line: Seq<char>, v: u32) -> bool {
    profile_line(line) is Ok && profile_line(line)->Ok_0.0 == v
}

/// Whether some row starts with a number.
pub open spec fn has_row(ls: Seq<Seq<char>>, v: u32) -> bool {
    exists|i: int| 0 <= i < ls.len() && row_number(#[trigger] ls[i], v)
}

/// Whether row `i` is the last that starts with a number.
pub open spec fn last_row(ls: Seq<Seq<char>>, v: u32, i: int) -> bool {
    &&& 0 <= i < ls.len()
    &&& row_number(ls[i], v)
    &&& forall|j: int| i < j < ls.len() ==> !row_number(#[trigger] ls[j], v)
}

proof fn lemma_has_row(ls: Seq<Seq<char>>, v: u32)
    requires
        ls.len() > 0,
    ensures
        has_row(ls, v) <==> has_row(ls.drop_last(), v) || row_number(ls.last(), v),
{
    let init = ls.drop_last();
    if has_row(ls, v) {
        let i = choose|i: int| 0 <= i < ls.len() && row_number(#[trigger] ls[i], v);
        if i < init.len() {
            assert(row_number(init[i], v));
        }
    }
    if has_row(init, v) {
        let i = choose|i: int| 0 <= i < init.len() && row_number(#[trigger] init[i], v);
        assert(row_number(ls[i], v));
    }
    if row_number(ls.last(), v) {
        assert(row_number(ls[ls.len() - 1], v));
    }
}

proof fn lemma_profile_value(line: Seq<char>)
    ensures
        profile_line(line) is Ok ==> profile_line(line)->Ok_0.0 <= u32::MAX,
{
    let w = words(line);
    if w.len() > 0 && parse(w[0], u32::MAX as nat) is Ok {
        crate::number::law_parse_in_range(w[0], u32::MAX as nat);
    }
}

/// The first line that cannot be read makes the whole table unreadable, with its error.
pub proof fn law_unreadable_row(ls: Seq<Seq<char>>, deck: bool, i: int)
    requires
        0 <= i < ls.len(),
        profile_line(ls[i]) is Err,
        forall|j: int| 0 <= j < i ==> profile_line(#[trigger] ls[j]) is Ok,
    ensures
        profile_names(ls, deck) == Err::<Map<u32, Seq<char>>, Seq<char>>(
            profile_line(ls[i])->Err_0,
        ),
    decreases ls.len(),
{
    let init = ls.drop_last();
    if i < init.len() {
        assert(init[i] == ls[i]);
        assert forall|j: int| 0 <= j < i implies profile_line(#[trigger] init[j]) is Ok by {
            assert(init[j] == ls[j]);
        }
        law_unreadable_row(init, deck, i);
    } else {
        assert forall|j: int| 0 <= j < init.len() implies profile_line(#[trigger] init[j]) is Ok by {
            assert(init[j] == ls[j]);
        }
        law_profiles_listed(init, deck, 0);
    }
}

/// The number in a write to the clocks: what stands between its first four characters and the
/// line feed at its end.
pub open spec fn written_number(write: Seq<char>) -> Seq<char> {
    write.subrange(4, write.len() - 1)
}

/// Every clock from 200 to 1600 is written as the low and as the high clock and then committed:
/// the number in either write reads as that very clock, different clocks give different writes,
/// and a table that holds what was written gives the clock back. No other clock is written.
pub proof fn law_clocks_written(clocks: u32, other: u32)
    ensures
        clocks_written(clocks) is Ok <==> 200 <= clocks && clocks <= 1600,
        clocks_written(clocks) is Ok ==> {
            let w = clocks_written(clocks)->Ok_0;
            &&& w.len() == 3
            &&& w[0].len() > 5 && w[0].take(4) == "s 0 "@ && w[0].last() == '\n'
            &&& w[1].len() > 5 && w[1].take(4) == "s 1 "@ && w[1].last() == '\n'
            &&& w[2] == "c\n"@
            &&& parse(written_number(w[0]), u32::MAX as nat) == Ok::<
                nat,
                NumberError,
            >(clocks as nat)
            &&& parse(written_number(w[1]), u32::MAX as nat) == Ok::<
                nat,
                NumberError,
            >(clocks as nat)
            &&& sclk(
                "OD_SCLK:\n"@ + (seq!['0', ':'] + seq![' '] + (written_number(w[0]) + "Mhz"@)
                    + seq!['\n'] + w[1]),
            ) == Ok::<nat, Seq<char>>(clocks as nat)
        },
        clocks_written(clocks) is Ok && clocks_written(other) is Ok && clocks_written(
            clocks,
        )->Ok_0[0] == clocks_written(other)->Ok_0[0] ==> clocks == other,
{
    if 200 <= clocks && clocks <= 1600 {
        lemma_clock_write(clocks, 0);
        lemma_clock_write(clocks, 1);
        let w = clocks_written(clocks)->Ok_0;
        law_decimal_read_back(clocks as nat, u32::MAX as nat);
        lemma_decimal_digits(clocks as nat);
        law_clocks_read(clocks, seq!['0', ':'], seq![' '], w[1]);
    }
    if 200 <= other && other <= 1600 {
        lemma_clock_write(other, 0);
        law_decimal_read_back(other as nat, u32::MAX as nat);
    }
}

proof fn lemma_clock_write(clocks: u32, i: int)
    requires
        200 <= clocks <= 1600,
        i == 0 || i == 1,
    ensures
        ({
            let w = clocks_written(clocks)->Ok_0[i];
            &&& w.len() == decimal(clocks as nat).len() + 5
            &&& w.take(4) == if i == 0 {
                "s 0 "@
            } else {
                "s 1 "@
            }
            &&& w.last() == '\n'
            &&& written_number(w) == decimal(clocks as nat)
        }),
{
    reveal_strlit("s 0 ");
    reveal_strlit("s 1 ");
    reveal_strlit("\n");
    let w = clocks_written(clocks)->Ok_0[i];
    let head = if i == 0 {
        "s 0 "@
    } else {
        "s 1 "@
    };
    assert(w == head + decimal(clocks as nat) + "\n"@);
    assert(w.take(4) =~= head);
    assert(written_number(w) =~= decimal(clocks as nat));
}

/// A limit is the whole watts in what the attribute says in microwatts, however the number is
/// followed by white space.
pub proof fn law_tdp_limit_whole_watts(microwatts: u32, tail: Seq<char>)
    requires
        blank(tail),
    ensures
        tdp_limit(decimal(microwatts as nat) + tail) is Ok,
        ({
            let watts = tdp_limit(decimal(microwatts as nat) + tail)->Ok_0;
            watts * 1000000 <= microwatts < (watts + 1) * 1000000
        }),
{
    let d = decimal(microwatts as nat);
    lemma_decimal_digits(microwatts as nat);
    law_decimal_read_back(microwatts as nat, u32::MAX as nat);
    assert(crate::number::is_digit(d[d.len() - 1]));
    crate::text::law_trim_end(d + tail, d, tail);
}

/// A limit is set if and only if it is from 3 to 15 watts. Both attributes get the same text,
/// which reads as the limit in microwatts; the first has to be there, the second need not.
pub proof fn law_tdp_limit_set(limit: u32)
    ensures
        tdp_writes(limit) is Ok <==> 3 <= limit && limit <= 15,
        tdp_writes(limit) is Ok ==> {
            let w = tdp_writes(limit)->Ok_0;
            &&& w.len() == 2
            &&& w[0].0 == TDP_LIMIT1@ && w[0].2
            &&& w[1].0 == TDP_LIMIT2@ && !w[1].2
            &&& w[0].1 == w[1].1
            &&& parse(w[0].1, u32::MAX as nat) == Ok::<nat, NumberError>(
                limit as nat * 1000000,
            )
        },
{
    if 3 <= limit && limit <= 15 {
        law_tdp_limit_read_back(limit);
        lemma_tdp_text(limit);
        law_decimal_read_back(limit as nat * 1000000, u32::MAX as nat);
    }
}

proof fn lemma_tdp_text(limit: u32)
    requires
        3 <= limit <= 15,
    ensures
        tdp_written(limit)->Ok_0 == decimal(limit as nat * 1000000),
{
    let n = limit as nat;
    reveal_strlit("000000");
    lemma_decimal_shift(n);
    lemma_decimal_shift(n * 10);
    lemma_decimal_shift(n * 100);
    lemma_decimal_shift(n * 1000);
    lemma_decimal_shift(n * 10000);
    lemma_decimal_shift(n * 100000);
    assert(tdp_written(limit)->Ok_0 =~= decimal(n * 1000000));
}

/// A hardware monitor is that of the graphics processor if and only if its name is the right
/// one, with white space around it or not.
pub proof fn law_hwmon_by_name(name: Seq<char>)
    ensures
        hwmon_found(Some(name)) == Ok::<bool, Seq<char>>(padded(name, "amdgpu"@)),
        hwmon_found(None) is Err,
{
    reveal_strlit("amdgpu");
    crate::text::law_trim_iff_padded(name, "amdgpu"@);
}

/// The governors that are listed are those that are named, in the order in which they are named
/// and as often; other words do not count.
pub proof fn law_governors_listed(
    a: Seq<Seq<char>>,
    b: Seq<Seq<char>>,
    governor: CPUScalingGovernor,
    word: Seq<char>,
)
    ensures
        governors(a + b) == governors(a) + governors(b),
        governors(seq![governor.text()]) == seq![governor],
        (forall|g: CPUScalingGovernor| #[trigger] g.text() != word) ==> governors(seq![word])
            == Seq::<CPUScalingGovernor>::empty(),
{
    lemma_governors_parts(a, b);
    law_governor_round_trip(governor);
    let one = seq![governor.text()];
    assert(one.drop_last() =~= Seq::<Seq<char>>::empty());
    assert(governors(one) =~= seq![governor]) by {
        reveal_with_fuel(governors, 2);
    }
    let odd = seq![word];
    assert(odd.drop_last() =~= Seq::<Seq<char>>::empty());
    if forall|g: CPUScalingGovernor| #[trigger] g.text() != word {
        assert(CPUScalingGovernor::Conservative.text() != word);
        assert(CPUScalingGovernor::OnDemand.text() != word);
        assert(CPUScalingGovernor::UserSpace.text() != word);
        assert(CPUScalingGovernor::PowerSave.text() != word);
        assert(CPUScalingGovernor::Performance.text() != word);
        assert(CPUScalingGovernor::SchedUtil.text() != word);
        assert(governors(odd) =~= Seq::<CPUScalingGovernor>::empty()) by {
            reveal_with_fuel(governors, 2);
        }
    }
}

proof fn lemma_governors_parts(a: Seq<Seq<char>>, b: Seq<Seq<char>>)
    ensures
        governors(a + b) == governors(a) + governors(b),
    decreases b.len(),
{
    if b.len() == 0 {
        assert(a + b =~= a);
        assert(governors(a) + governors(b) =~= governors(a));
    } else {
        assert((a + b).drop_last() =~= a + b.drop_last());
        assert((a + b).last() == b.last());
        lemma_governors_parts(a, b.drop_last());
        assert(governors(a + b) =~= governors(a) + governors(b));
    }
}

/// A governor is written to every entry whose name starts as that of a policy, below that
/// entry, and to no other; whether one was written before does not matter for that.
pub proof fn law_governor_written_where(wrote: bool, name: &str, rest: Seq<char>)
    ensures
        name@ == "policy"@ + rest ==> GovernorWrite::step(wrote, PolicyEntry::Named(name))
            == PolicyStepView::Write(
            CPU_PREFIX@ + "/"@ + name@ + "/"@ + CPU_SCALING_GOVERNOR_SUFFIX@,
        ),
        !"policy"@.is_prefix_of(name@) ==> GovernorWrite::step(wrote, PolicyEntry::Named(name))
            is Skip,
        GovernorWrite::step(wrote, PolicyEntry::NotText) is Done,
{
    reveal_strlit("policy");
    reveal_strlit("/");
    reveal_strlit("/sys/devices/system/cpu/cpufreq");
    reveal_strlit("/sys/devices/system/cpu/cpufreq/");
    reveal_strlit("scaling_governor");
    reveal_strlit("/scaling_governor");
    if name@ == "policy"@ + rest {
        assert(name@.subrange(0, 6) =~= "policy"@);
        assert(CPU_PREFIX@ + "/"@ =~= "/sys/devices/system/cpu/cpufreq/"@);
        assert("/"@ + CPU_SCALING_GOVERNOR_SUFFIX@ =~= "/scaling_governor"@);
        assert(governor_file(name@) =~= CPU_PREFIX@ + "/"@ + name@ + "/"@
            + CPU_SCALING_GOVERNOR_SUFFIX@);
    }
}

/// A performance level and a governor are known by their names alone: nothing else, not even the
/// name in other letters, stands for one.
pub proof fn law_level_and_governor_names(
    level: GPUPerformanceLevel,
    governor: CPUScalingGovernor,
    s: Seq<char>,
)
    ensures
        GPUPerformanceLevel::of_text(s) == Ok::<GPUPerformanceLevel, Seq<char>>(level) <==> s
            == level.text(),
        CPUScalingGovernor::of_text(s) == Ok::<CPUScalingGovernor, Seq<char>>(governor) <==> s
            == governor.text(),
{
    law_performance_level_round_trip(level);
    law_governor_round_trip(governor);
}

/// A number, or a name in lower case, stands for a power profile if and only if it is that
/// profile's.
pub proof fn law_power_profile_names(profile: GPUPowerProfile, v: int, lower: Seq<char>, input: Seq<char>)
    ensures
        GPUPowerProfile::of_number(v) == Some(profile) <==> v == profile.number(),
        GPUPowerProfile::of_lower(lower, input) == Ok::<GPUPowerProfile, Seq<char>>(profile) <==> lower
            == profile.text(),
{
    reveal_strlit("3d_full_screen");
    reveal_strlit("video");
    reveal_strlit("vr");
    reveal_strlit("compute");
    reveal_strlit("custom");
    reveal_strlit("capped");
    reveal_strlit("uncapped");
    assert("3d_full_screen"@[0] == '3');
    assert("video"@[0] == 'v' && "video"@[1] == 'i');
    assert("vr"@[0] == 'v' && "vr"@[1] == 'r');
    assert("compute"@[0] == 'c' && "compute"@[1] == 'o');
    assert("custom"@[0] == 'c' && "custom"@[1] == 'u');
    assert("capped"@[0] == 'c' && "capped"@[1] == 'a');
    assert("uncapped"@[0] == 'u');
}

/// Lines before the heading of the core clocks do not matter, and without that heading, or
/// without a clock right behind it, there is no clock.
pub proof fn law_clocks_heading(line: Seq<char>, rest: Seq<char>, row: Seq<char>)
    requires
        forall|k: int| 0 <= k < line.len() ==> line[k] != '\n',
        line + seq!['\n'] != "OD_SCLK:\n"@,
        forall|k: int| 0 <= k < row.len() ==> row[k] != '\n',
    ensures
        sclk(line + seq!['\n'] + rest) == sclk(rest),
        sclk(line) == Ok::<nat, Seq<char>>(0),
        sclk("OD_SCLK:\n"@) == Ok::<nat, Seq<char>>(0),
        words(row + seq!['\n']).len() < 2 ==> sclk("OD_SCLK:\n"@ + (row + seq!['\n'] + rest))
            == Ok::<nat, Seq<char>>(0),
        words(row + seq!['\n']).len() >= 2 && !"Mhz"@.is_suffix_of(words(row + seq!['\n'])[1])
            ==> sclk("OD_SCLK:\n"@ + (row + seq!['\n'] + rest)) == Ok::<nat, Seq<char>>(0),
{
    reveal_strlit("OD_SCLK:\n");
    let s = line + seq!['\n'] + rest;
    lemma_raw_line(line, rest);
    assert(s.skip(line.len() as int + 1) =~= rest);
    crate::text::lemma_find_is(line, '\n', line.len() as int);
    assert(line.skip(line.len() as int) =~= Seq::<char>::empty());
    assert(sclk(Seq::empty()) == Ok::<nat, Seq<char>>(0));
    if line.len() > 0 && line == "OD_SCLK:\n"@ {
        assert(line[8] == '\n');
    }
    let heading = seq!['O', 'D', '_', 'S', 'C', 'L', 'K', ':'];
    assert("OD_SCLK:\n"@ =~= heading + seq!['\n'] + Seq::<char>::empty());
    lemma_raw_line(heading, Seq::empty());
    assert(heading + seq!['\n'] =~= "OD_SCLK:\n"@);
    let alone = "OD_SCLK:\n"@;
    assert(alone.skip(9) =~= Seq::<char>::empty());
    assert(raw_line(Seq::empty()) =~= Seq::<char>::empty());
    crate::text::law_words(Seq::empty(), seq!['x'], Seq::empty());
    let below = row + seq!['\n'] + rest;
    let t = "OD_SCLK:\n"@ + below;
    assert(t =~= heading + seq!['\n'] + below);
    lemma_raw_line(heading, below);
    assert(t.skip(9) =~= below);
    lemma_raw_line(row, rest);
}

/// A governor is in effect if and only if its attribute holds its name, with white space around
/// it or not.
pub proof fn law_current_governor(contents: Seq<char>, governor: CPUScalingGovernor)
    ensures
        current_governor(contents) == Ok::<CPUScalingGovernor, Seq<char>>(governor) <==> padded(
            contents,
            governor.text(),
        ),
        GPUPerformanceLevel::of_text(trim(contents)) is Ok <==> exists|level: GPUPerformanceLevel|
            padded(contents, #[trigger] level.text()),
{
    reveal_strlit("conservative");
    reveal_strlit("ondemand");
    reveal_strlit("userspace");
    reveal_strlit("powersave");
    reveal_strlit("performance");
    reveal_strlit("schedutil");
    reveal_strlit("auto");
    reveal_strlit("low");
    reveal_strlit("high");
    reveal_strlit("manual");
    reveal_strlit("profile_peak");
    law_governor_round_trip(governor);
    crate::text::law_trim_iff_padded(contents, governor.text());
    let auto = GPUPerformanceLevel::Auto;
    let low = GPUPerformanceLevel::Low;
    let high = GPUPerformanceLevel::High;
    let manual = GPUPerformanceLevel::Manual;
    let peak = GPUPerformanceLevel::ProfilePeak;
    crate::text::law_trim_iff_padded(contents, auto.text());
    crate::text::law_trim_iff_padded(contents, low.text());
    crate::text::law_trim_iff_padded(contents, high.text());
    crate::text::law_trim_iff_padded(contents, manual.text());
    crate::text::law_trim_iff_padded(contents, peak.text());
    if exists|level: GPUPerformanceLevel| padded(contents, #[trigger] level.text()) {
        let level = choose|level: GPUPerformanceLevel| padded(contents, #[trigger] level.text());
        assert(trim(contents) == level.text());
    }
}

/// Each refusal says what it is about: the clocks, the limit, or the attribute and the reason
/// for which it cannot be read.
pub proof fn law_power_refusals(v: u32, contents: Seq<char>, reason: NumberError)
    ensures
        !(200 <= v <= 1600) ==> clocks_written(v) == Err::<Seq<Seq<char>>, Seq<char>>(
            "Invalid clocks"@,
        ),
        !(3 <= v <= 15) ==> tdp_written(v) == Err::<Seq<char>, Seq<char>>("Invalid limit"@),
        parse(trim_end(contents), u32::MAX as nat) == Err::<nat, NumberError>(reason)
            ==> tdp_limit(contents) == Err::<nat, Seq<char>>(reason.text()),
        current_governor(contents) is Err ==> current_governor(contents)->Err_0
            == "Error converting CPU scaling governor sysfs file contents to enumeration: "@
            + "Matching variant not found"@,
{
}

/// A row of profiles whose first word is no number says so, with the reason behind it.
pub proof fn law_profile_row_reason(
    head: Seq<char>,
    word: Seq<char>,
    rest: Seq<char>,
    reason: NumberError,
)
    requires
        blank(head),
        word.len() > 0,
        forall|k: int| 0 <= k < word.len() ==> !white(word[k]),
        rest.len() > 0 ==> white(rest.first()),
        parse(word, u32::MAX as nat) == Err::<nat, NumberError>(reason),
    ensures
        profile_line(head + word + rest) == Err::<(nat, Seq<char>), Seq<char>>(
            "Unable to parse value from sysfs "@ + reason.text(),
        ),
{
    law_words(head, word, rest);
    assert(words(head + word + rest)[0] == word);
}

/// A clock with its unit that is no number is an error with the reason, not a clock of zero.
pub proof fn law_unreadable_clock(
    label: Seq<char>,
    gap: Seq<char>,
    word: Seq<char>,
    rest: Seq<char>,
    reason: NumberError,
)
    requires
        label.len() > 0,
        gap.len() > 0,
        forall|k: int| 0 <= k < label.len() ==> !white(label[k]),
        forall|k: int| 0 <= k < gap.len() ==> gap[k] == ' ',
        forall|k: int| 0 <= k < word.len() ==> !white(word[k]),
        !"Mhz"@.is_suffix_of(word),
        parse(word, u32::MAX as nat) == Err::<nat, NumberError>(reason),
    ensures
        sclk("OD_SCLK:\n"@ + (label + gap + (word + "Mhz"@) + seq!['\n'] + rest)) == Err::<
            nat,
            Seq<char>,
        >(reason.text()),
{
    reveal_strlit("OD_SCLK:\n");
    reveal_strlit("Mhz");
    let value = word + "Mhz"@;
    let line = label + gap + value;
    let below = line + seq!['\n'] + rest;
    let heading = seq!['O', 'D', '_', 'S', 'C', 'L', 'K', ':'];
    let s = "OD_SCLK:\n"@ + below;
    assert("OD_SCLK:\n"@ =~= heading + seq!['\n']);
    assert(s =~= heading + seq!['\n'] + below);
    lemma_raw_line(heading, below);
    assert(s.skip(9) =~= below);
    assert forall|k: int| 0 <= k < value.len() implies !white(#[trigger] value[k]) && value[k]
        != '\n' by {
        if k < word.len() {
            assert(value[k] == word[k]);
        }
    }
    assert forall|k: int| 0 <= k < line.len() implies line[k] != '\n' by {
        if k < label.len() {
            assert(line[k] == label[k]);
        } else if k < label.len() + gap.len() {
            assert(line[k] == gap[k - label.len()]);
        } else {
            assert(line[k] == value[k - label.len() - gap.len()]);
        }
    }
    lemma_raw_line(line, rest);
    lemma_row_words(label, gap, value);
    assert("Mhz"@.is_suffix_of(value)) by {
        assert(value.subrange(value.len() - 3, value.len() as int) =~= "Mhz"@);
    }
    assert(value.take(value.len() - 3) =~= word);
    assert(trim_end_matches(value, "Mhz"@) == word) by {
        reveal_with_fuel(trim_end_matches, 3);
    }
}

} // verus!

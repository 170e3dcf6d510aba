//! Which hardware this is, and its fan.

use vstd::prelude::*;

use crate::error::{outcome, Failure};
use crate::number::{decimal, decimal_of};
use crate::platform::{PlatformConfig, ScriptConfig, ServiceConfig};
use crate::text::{ascii, ascii_lower, joined, lowercase, same, to_lowercase, trim_end, trimmed_end};

verus! {

/// The file with the name of the board's vendor.
pub const BOARD_VENDOR_PATH: &'static str = "/sys/class/dmi/id/board_vendor";

/// The file with the name of the board.
pub const BOARD_NAME_PATH: &'static str = "/sys/class/dmi/id/board_name";

/// The variants of the hardware that are told apart.
#[derive(Clone, Copy, Debug, PartialEq, Eq, Structural)]
pub enum HardwareVariant {
    Unknown,
    Jupiter,
    Galileo,
}

/// Whether this hardware is supported.
#[derive(Clone, Copy, Debug, PartialEq, Eq, Structural)]
pub enum HardwareCurrentlySupported {
    Unknown,
    UnsupportedPrototype,
    Supported,
}

/// Who controls the fan.
#[derive(Clone, Copy, Debug, PartialEq, Eq, Structural)]
pub enum FanControlState {
    Bios,
    Os,
}

/// How much a factory reset takes away.
#[derive(Clone, Copy, Debug, PartialEq, Eq, Structural)]
pub enum FactoryResetKind {
    User,
    OS,
    All,
}

/// What is said of a number `v` that no variant of the enum `name` has.
pub open spec fn no_discriminant(name: Seq<char>, v: nat) -> Seq<char> {
    "No discriminant in enum `"@ + name + "` matches the value `"@ + decimal(v) + "`"@
}

/// What is said of a number `v` that no variant of the enum `name` has.
pub fn no_discriminant_of(name: &str, v: u32) -> (r: Failure)
    ensures
        r@ == no_discriminant(name@, v as nat),
{
    let a = joined("No discriminant in enum `", name);
    let b = joined(a.as_str(), "` matches the value `");
    let number = decimal_of(v as u64);
    let c = joined(b.as_str(), number.as_str());
    Failure { message: joined(c.as_str(), "`") }
}

impl Default for HardwareVariant {
    /// Hardware that nothing is known of.
    fn default() -> (r: HardwareVariant)
        ensures
            r == HardwareVariant::Unknown,
    {
        HardwareVariant::Unknown
    }
}

impl HardwareVariant {
    /// The variant with a given board name.
    pub open spec fn of_text(s: Seq<char>) -> HardwareVariant {
        if s == "Jupiter"@ {
            HardwareVariant::Jupiter
        } else if s == "Galileo"@ {
            HardwareVariant::Galileo
        } else {
            HardwareVariant::Unknown
        }
    }

    /// The variant with the board name `input`; a name that is not known is no error.
    pub fn from_str(input: &str) -> (r: Result<HardwareVariant, Failure>)
        ensures
            outcome(r) == Ok::<HardwareVariant, Seq<char>>(HardwareVariant::of_text(input@)),
    {
        if same(input, "Jupiter") {
            Ok(HardwareVariant::Jupiter)
        } else if same(input, "Galileo") {
            Ok(HardwareVariant::Galileo)
        } else {
            Ok(HardwareVariant::Unknown)
        }
    }
}

impl HardwareCurrentlySupported {
    /// The number of the answer.
    pub open spec fn number(self) -> u32 {
        match self {
            HardwareCurrentlySupported::Unknown => 0,
            HardwareCurrentlySupported::UnsupportedPrototype => 1,
            HardwareCurrentlySupported::Supported => 2,
        }
    }

    /// The answer in words.
    pub open spec fn text(self) -> Seq<char> {
        match self {
            HardwareCurrentlySupported::Unknown => "Unknown"@,
            HardwareCurrentlySupported::UnsupportedPrototype => "Unsupported Prototype"@,
            HardwareCurrentlySupported::Supported => "Supported"@,
        }
    }

    /// The answer with a given number.
    pub open spec fn of_number(v: nat) -> Result<HardwareCurrentlySupported, Seq<char>> {
        if v == 0 {
            Ok(HardwareCurrentlySupported::Unknown)
        } else if v == 1 {
            Ok(HardwareCurrentlySupported::UnsupportedPrototype)
        } else if v == 2 {
            Ok(HardwareCurrentlySupported::Supported)
        } else {
            Err(no_discriminant("HardwareCurrentlySupported"@, v))
        }
    }

    /// The number of the answer.
    pub fn value(self) -> (r: u32)
        ensures
            r == self.number(),
    {
        match self {
            HardwareCurrentlySupported::Unknown => 0,
            HardwareCurrentlySupported::UnsupportedPrototype => 1,
            HardwareCurrentlySupported::Supported => 2,
        }
    }

    /// The answer with the number `v`.
    pub fn try_from(v: u32) -> (r: Result<HardwareCurrentlySupported, Failure>)
        ensures
            outcome(r) == HardwareCurrentlySupported::of_number(v as nat),
    {
        if v == 0 {
            Ok(HardwareCurrentlySupported::Unknown)
        } else if v == 1 {
            Ok(HardwareCurrentlySupported::UnsupportedPrototype)
        } else if v == 2 {
            Ok(HardwareCurrentlySupported::Supported)
        } else {
            Err(no_discriminant_of("HardwareCurrentlySupported", v))
        }
    }

    /// The answer in words.
    pub fn to_string(&self) -> (r: String)
        ensures
            r@ == self.text(),
    {
        let s = match self {
            HardwareCurrentlySupported::Unknown => "Unknown",
            HardwareCurrentlySupported::UnsupportedPrototype => "Unsupported Prototype",
            HardwareCurrentlySupported::Supported => "Supported",
        };
        s.to_owned()
    }
}

impl FanControlState {
    /// The number of the state.
    pub open spec fn number(self) -> u32 {
        match self {
            FanControlState::Bios => 0,
            FanControlState::Os => 1,
        }
    }

    /// The state in words.
    pub open spec fn text(self) -> Seq<char> {
        match self {
            FanControlState::Bios => "BIOS"@,
            FanControlState::Os => "OS"@,
        }
    }

    /// The state with a given number.
    pub open spec fn of_number(v: nat) -> Result<FanControlState, Seq<char>> {
        if v == 0 {
            Ok(FanControlState::Bios)
        } else if v == 1 {
            Ok(FanControlState::Os)
        } else {
            Err(no_discriminant("FanControlState"@, v))
        }
    }

    /// The state whose name in lower case is `lower`.
    pub open spec fn of_lower(lower: Seq<char>) -> Result<FanControlState, Seq<char>> {
        if lower == "bios"@ {
            Ok(FanControlState::Bios)
        } else if lower == "os"@ {
            Ok(FanControlState::Os)
        } else {
            Err("No enum match for value "@ + lower)
        }
    }

    /// The number of the state.
    pub fn value(self) -> (r: u32)
        ensures
            r == self.number(),
    {
        match self {
            FanControlState::Bios => 0,
            FanControlState::Os => 1,
        }
    }

    /// The state with the number `v`.
    pub fn try_from(v: u32) -> (r: Result<FanControlState, Failure>)
        ensures
            outcome(r) == FanControlState::of_number(v as nat),
    {
        if v == 0 {
            Ok(FanControlState::Bios)
        } else if v == 1 {
            Ok(FanControlState::Os)
        } else {
            Err(no_discriminant_of("FanControlState", v))
        }
    }

    /// The state whose name in lower case is `lower`.
    pub fn from_lower(lower: &str) -> (r: Result<FanControlState, Failure>)
        ensures
            outcome(r) == FanControlState::of_lower(lower@),
    {
        if same(lower, "bios") {
            Ok(FanControlState::Bios)
        } else if same(lower, "os") {
            Ok(FanControlState::Os)
        } else {
            Err(Failure::with_detail("No enum match for value ", lower))
        }
    }

    /// The state that `input` names, in letters of either case.
    pub fn from_str(input: &str) -> (r: Result<FanControlState, Failure>)
        ensures
            outcome(r) == FanControlState::of_lower(lowercase(input@)),
            ascii(input@) ==> outcome(r) == FanControlState::of_lower(ascii_lower(input@)),
    {
        let lower = to_lowercase(input);
        FanControlState::from_lower(lower.as_str())
    }

    /// The state in words.
    pub fn to_string(&self) -> (r: String)
        ensures
            r@ == self.text(),
    {
        let s = match self {
            FanControlState::Bios => "BIOS",
            FanControlState::Os => "OS",
        };
        s.to_owned()
    }
}

impl FactoryResetKind {
    /// The number of the kind.
    pub open spec fn number(self) -> u32 {
        match self {
            FactoryResetKind::User => 1,
            FactoryResetKind::OS => 2,
            FactoryResetKind::All => 3,
        }
    }

    /// The kind with a given number.
    pub open spec fn of_number(v: nat) -> Result<FactoryResetKind, Seq<char>> {
        if v == 1 {
            Ok(FactoryResetKind::User)
        } else if v == 2 {
            Ok(FactoryResetKind::OS)
        } else if v == 3 {
            Ok(FactoryResetKind::All)
        } else {
            Err(no_discriminant("FactoryResetKind"@, v))
        }
    }

    /// The number of the kind.
    pub fn value(self) -> (r: u32)
        ensures
            r == self.number(),
    {
        match self {
            FactoryResetKind::User => 1,
            FactoryResetKind::OS => 2,
            FactoryResetKind::All => 3,
        }
    }

    /// The kind with the number `v`.
    pub fn try_from(v: u32) -> (r: Result<FactoryResetKind, Failure>)
        ensures
            outcome(r) == FactoryResetKind::of_number(v as nat),
    {
        if v == 1 {
            Ok(FactoryResetKind::User)
        } else if v == 2 {
            Ok(FactoryResetKind::OS)
        } else if v == 3 {
            Ok(FactoryResetKind::All)
        } else {
            Err(no_discriminant_of("FactoryResetKind", v))
        }
    }
}

/// A state's number and its name lead back to the state.
pub proof fn law_fan_control_state_round_trip(state: FanControlState)
    ensures
        FanControlState::of_number(state.number() as nat) == Ok::<FanControlState, Seq<char>>(
            state,
        ),
        ascii(state.text()),
        FanControlState::of_lower(ascii_lower(state.text())) == Ok::<FanControlState, Seq<char>>(
            state,
        ),
{
    reveal_strlit("BIOS");
    reveal_strlit("OS");
    reveal_strlit("bios");
    reveal_strlit("os");
    assert(ascii_lower("BIOS"@) =~= "bios"@);
    assert(ascii_lower("OS"@) =~= "os"@);
    assert("bios"@.len() != "os"@.len());
}

/// The number of an answer on support leads back to the answer.
pub proof fn law_currently_supported_round_trip(support: HardwareCurrentlySupported)
    ensures
        HardwareCurrentlySupported::of_number(support.number() as nat) == Ok::<
            HardwareCurrentlySupported,
            Seq<char>,
        >(support),
{
}

/// The variant of the hardware, by the contents of the files on its board, or `None` if the
/// board's name has to be read first.
pub open spec fn board_variant(vendor: Seq<char>, name: Option<Seq<char>>) -> Option<
    HardwareVariant,
> {
    if trim_end(vendor) != "Valve"@ {
        Some(HardwareVariant::Unknown)
    } else {
        match name {
            Some(name) => Some(HardwareVariant::of_text(trim_end(name))),
            None => None,
        }
    }
}

/// The variant of the hardware, by the contents of the files on its board, or `None` if the
/// board's name has to be read first.
pub fn variant(board_vendor: &str, board_name: Option<&str>) -> (r: Option<HardwareVariant>)
    ensures
        r == board_variant(
            board_vendor@,
            match board_name {
                Some(name) => Some(name@),
                None => None,
            },
        ),
{
    if !same(trimmed_end(board_vendor), "Valve") {
        return Some(HardwareVariant::Unknown);
    }
    match board_name {
        Some(name) => match HardwareVariant::from_str(trimmed_end(name)) {
            Ok(v) => Some(v),
            Err(_) => None,
        },
        None => None,
    }
}

/// Whether hardware of this variant is a deck.
pub fn is_deck(variant: HardwareVariant) -> (r: bool)
    ensures
        r == !(variant is Unknown),
{
    variant != HardwareVariant::Unknown
}

/// Whether the hardware is supported, by the exit code of the program that looks at it.
pub fn check_support(code: i32) -> (r: HardwareCurrentlySupported)
    ensures
        r == if code == 0 {
            HardwareCurrentlySupported::Supported
        } else {
            HardwareCurrentlySupported::UnsupportedPrototype
        },
{
    if code == 0 {
        HardwareCurrentlySupported::Supported
    } else {
        HardwareCurrentlySupported::UnsupportedPrototype
    }
}

/// How to find out who controls the fan.
pub enum FanQuery<'a> {
    /// Whether this unit runs.
    Unit(&'a String),
    /// What code this program exits with.
    Script(&'a ScriptConfig),
}

/// How to hand over the fan.
pub enum FanAction<'a> {
    StartUnit(&'a String),
    StopUnit(&'a String),
    Script(&'a ScriptConfig),
}

/// The service that controls the fan, if the platform has one.
pub open spec fn fan_service(config: Option<&PlatformConfig>) -> Option<ServiceConfig> {
    match config {
        Some(config) => config.fan_control,
        None => None,
    }
}

/// How the fan is handed over to `state` where `service` controls it.
pub open spec fn fan_action<'a>(service: Option<ServiceConfig>, state: FanControlState) -> Result<
    FanAction<'a>,
    Seq<char>,
> {
    match service {
        Some(ServiceConfig::Systemd(unit)) => Ok(
            match state {
                FanControlState::Os => FanAction::StartUnit(&unit),
                FanControlState::Bios => FanAction::StopUnit(&unit),
            },
        ),
        Some(ServiceConfig::Script { start, stop, status: _ }) => Ok(
            match state {
                FanControlState::Os => FanAction::Script(&start),
                FanControlState::Bios => FanAction::Script(&stop),
            },
        ),
        None => Err("Fan control not configured"@),
    }
}

/// Who controls the fan, by whether the unit runs.
pub open spec fn unit_fan_state(active: bool) -> FanControlState {
    if active {
        FanControlState::Os
    } else {
        FanControlState::Bios
    }
}

/// Where a unit controls the fan, handing the fan over starts or stops that unit, and the
/// state is then read back from whether the unit runs.
pub proof fn law_fan_unit_read_back(unit: String, state: FanControlState)
    ensures
        match fan_action(Some(ServiceConfig::Systemd(unit)), state) {
            Ok(FanAction::StartUnit(u)) => *u == unit && unit_fan_state(true) == state,
            Ok(FanAction::StopUnit(u)) => *u == unit && unit_fan_state(false) == state,
            _ => false,
        },
{
}

/// The control of the fan as the platform configures it.
pub struct FanControl<'a> {
    pub config: Option<&'a PlatformConfig>,
}

impl<'a> FanControl<'a> {
    /// The control of the fan on a platform.
    pub fn new(config: Option<&'a PlatformConfig>) -> (r: FanControl<'a>)
        ensures
            r.config == config,
    {
        FanControl { config }
    }

    /// How to find out who controls the fan.
    pub fn get_state(&self) -> (r: Result<FanQuery<'a>, Failure>)
        ensures
            outcome(r) == (match fan_service(self.config) {
                Some(ServiceConfig::Systemd(service)) => Ok::<FanQuery<'a>, Seq<char>>(
                    FanQuery::Unit(&service),
                ),
                Some(ServiceConfig::Script { start: _, stop: _, status }) => Ok(
                    FanQuery::Script(&status),
                ),
                None => Err("Fan control not configured"@),
            }),
    {
        match self.config {
            Some(config) => match &config.fan_control {
                Some(ServiceConfig::Systemd(service)) => Ok(FanQuery::Unit(service)),
                Some(ServiceConfig::Script { start: _, stop: _, status }) => Ok(
                    FanQuery::Script(status),
                ),
                None => Err(Failure::new("Fan control not configured")),
            },
            None => Err(Failure::new("Fan control not configured")),
        }
    }

    /// How to hand the fan over to `state`.
    pub fn set_state(&self, state: FanControlState) -> (r: Result<FanAction<'a>, Failure>)
        ensures
            outcome(r) == fan_action(fan_service(self.config), state),
    {
        match self.config {
            Some(config) => match &config.fan_control {
                Some(ServiceConfig::Systemd(service)) => match state {
                    FanControlState::Os => Ok(FanAction::StartUnit(service)),
                    FanControlState::Bios => Ok(FanAction::StopUnit(service)),
                },
                Some(ServiceConfig::Script { start, stop, status: _ }) => match state {
                    FanControlState::Os => Ok(FanAction::Script(start)),
                    FanControlState::Bios => Ok(FanAction::Script(stop)),
                },
                None => Err(Failure::new("Fan control not configured")),
            },
            None => Err(Failure::new("Fan control not configured")),
        }
    }

    /// Who controls the fan, by whether the unit runs.
    pub fn unit_state(active: bool) -> (r: FanControlState)
        ensures
            r == unit_fan_state(active),
    {
        if active {
            FanControlState::Os
        } else {
            FanControlState::Bios
        }
    }

    /// Who controls the fan, by the exit code of the program.
    pub fn script_state(code: i32) -> (r: Result<FanControlState, Failure>)
        ensures
            outcome(r) == if code < 0 {
                Err::<FanControlState, Seq<char>>("Script exited abnormally"@)
            } else {
                FanControlState::of_number(code as nat)
            },
    {
        if code < 0 {
            return Err(Failure::new("Script exited abnormally"));
        }
        FanControlState::try_from(code as u32)
    }
}

/// Numbers and names stand for what they name and for nothing else.
pub proof fn law_hardware_names(
    state: FanControlState,
    support: HardwareCurrentlySupported,
    kind: FactoryResetKind,
    v: nat,
    lower: Seq<char>,
)
    ensures
        FanControlState::of_number(v) == Ok::<FanControlState, Seq<char>>(state) <==> v
            == state.number(),
        HardwareCurrentlySupported::of_number(v) == Ok::<HardwareCurrentlySupported, Seq<char>>(
            support,
        ) <==> v == support.number(),
        FactoryResetKind::of_number(v) == Ok::<FactoryResetKind, Seq<char>>(kind) <==> v
            == kind.number(),
        FanControlState::of_lower(lower) == Ok::<FanControlState, Seq<char>>(state) <==> lower
            == ascii_lower(state.text()),
{
    law_fan_control_state_round_trip(state);
    reveal_strlit("BIOS");
    reveal_strlit("OS");
    reveal_strlit("bios");
    reveal_strlit("os");
    assert(ascii_lower("BIOS"@) =~= "bios"@);
    assert(ascii_lower("OS"@) =~= "os"@);
}

/// The board is told by its vendor and then by its name, whatever white space is behind either.
/// The name of a board of another vendor does not matter and need not be read.
pub proof fn law_board_variant(
    vendor: Seq<char>,
    name: Option<Seq<char>>,
    board: Seq<char>,
    tail: Seq<char>,
)
    requires
        crate::text::blank(tail),
        board.len() > 0 ==> !crate::text::white(board.last()),
    ensures
        board_variant("Valve"@ + tail, None) is None,
        board_variant("Valve"@ + tail, Some("Jupiter"@ + tail)) == Some(HardwareVariant::Jupiter),
        board_variant("Valve"@ + tail, Some("Galileo"@ + tail)) == Some(HardwareVariant::Galileo),
        board != "Jupiter"@ && board != "Galileo"@ ==> board_variant(
            "Valve"@ + tail,
            Some(board + tail),
        ) == Some(HardwareVariant::Unknown),
        board != "Valve"@ ==> board_variant(board + tail, name) == Some(HardwareVariant::Unknown),
{
    reveal_strlit("Valve");
    reveal_strlit("Jupiter");
    reveal_strlit("Galileo");
    assert("Jupiter"@[0] != "Galileo"@[0]);
    crate::text::law_trim_end("Valve"@ + tail, "Valve"@, tail);
    crate::text::law_trim_end("Jupiter"@ + tail, "Jupiter"@, tail);
    crate::text::law_trim_end("Galileo"@ + tail, "Galileo"@, tail);
    crate::text::law_trim_end(board + tail, board, tail);
}

/// Where programs control the fan, the one that starts hands it to the system, the one that
/// stops hands it back, and neither is ever taken for the one that tells the state.
pub proof fn law_fan_scripts(start: ScriptConfig, stop: ScriptConfig, status: ScriptConfig)
    ensures
        fan_action(Some(ServiceConfig::Script { start, stop, status }), FanControlState::Os) == Ok::<
            FanAction,
            Seq<char>,
        >(FanAction::Script(&start)),
        fan_action(Some(ServiceConfig::Script { start, stop, status }), FanControlState::Bios)
            == Ok::<FanAction, Seq<char>>(FanAction::Script(&stop)),
        fan_action(None, FanControlState::Os) is Err,
        fan_action(None, FanControlState::Bios) is Err,
{
}

/// The service that controls the fan is the one that the platform configures.
pub proof fn law_fan_service(config: PlatformConfig)
    ensures
        fan_service(Some(&config)) == config.fan_control,
        fan_service(None) is None,
{
}

/// A number that stands for nothing is told between backquotes behind the name of what it was
/// meant for, itself between backquotes, and can be read back from there.
pub proof fn law_no_discriminant(name: Seq<char>, v: nat)
    ensures
        ({
            let words = no_discriminant(name, v);
            let head = "No discriminant in enum `"@ + name + "` matches the value `"@;
            &&& head.is_prefix_of(words)
            &&& words.len() == head.len() + decimal(v).len() + 1
            &&& words.skip(head.len() as int).drop_last() == decimal(v)
            &&& words.last() == '`'
        }),
{
    reveal_strlit("`");
    let words = no_discriminant(name, v);
    let head = "No discriminant in enum `"@ + name + "` matches the value `"@;
    assert(words.subrange(0, head.len() as int) =~= head);
    assert(words.skip(head.len() as int).drop_last() =~= decimal(v));
}

/// A platform without fan control says so, whatever state is asked for.
pub proof fn law_fan_not_configured<'a>(state: FanControlState)
    ensures
        fan_action::<'a>(None, state) == Err::<FanAction<'a>, Seq<char>>(
            "Fan control not configured"@,
        ),
{
}

} // verus!

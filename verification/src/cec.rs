//! Control of the device over HDMI by Consumer Electronics Control.

use vstd::prelude::*;

use crate::error::{outcome, Failure};
use crate::systemd::EnableState;
use crate::text::same;

verus! {

/// How far the device takes part in Consumer Electronics Control.
#[derive(Clone, Copy, Debug, PartialEq, Eq, Structural)]
pub enum HdmiCecState {
    Disabled,
    ControlOnly,
    ControlAndWake,
}

impl HdmiCecState {
    /// The state's number.
    pub open spec fn number(self) -> u32 {
        match self {
            HdmiCecState::Disabled => 0,
            HdmiCecState::ControlOnly => 1,
            HdmiCecState::ControlAndWake => 2,
        }
    }

    /// The state's name.
    pub open spec fn text(self) -> Seq<char> {
        match self {
            HdmiCecState::Disabled => "Disabled"@,
            HdmiCecState::ControlOnly => "ControlOnly"@,
            HdmiCecState::ControlAndWake => "ControlAndWake"@,
        }
    }

    /// The state's name for people.
    pub open spec fn human_text(self) -> Seq<char> {
        match self {
            HdmiCecState::Disabled => "disabled"@,
            HdmiCecState::ControlOnly => "control-only"@,
            HdmiCecState::ControlAndWake => "control-and-wake"@,
        }
    }

    /// The state with a given number.
    pub open spec fn of_number(v: int) -> Result<HdmiCecState, Seq<char>> {
        if v == 0 {
            Ok(HdmiCecState::Disabled)
        } else if v == 1 {
            Ok(HdmiCecState::ControlOnly)
        } else if v == 2 {
            Ok(HdmiCecState::ControlAndWake)
        } else {
            Err("No enum match for value {v}"@)
        }
    }

    /// The state that a text stands for.
    pub open spec fn of_text(s: Seq<char>) -> Result<HdmiCecState, Seq<char>> {
        if s == "disable"@ || s == "disabled"@ || s == "off"@ {
            Ok(HdmiCecState::Disabled)
        } else if s == "control-only"@ || s == "ControlOnly"@ {
            Ok(HdmiCecState::ControlOnly)
        } else if s == "control-wake"@ || s == "control-and-wake"@ || s == "ControlAndWake"@ {
            Ok(HdmiCecState::ControlAndWake)
        } else {
            Err("No enum match for value "@ + s)
        }
    }

    /// The state's number.
    pub fn value(self) -> (r: u32)
        ensures
            r == self.number(),
    {
        match self {
            HdmiCecState::Disabled => 0,
            HdmiCecState::ControlOnly => 1,
            HdmiCecState::ControlAndWake => 2,
        }
    }

    /// The state with the number `v`.
    pub fn try_from(v: u32) -> (r: Result<HdmiCecState, Failure>)
        ensures
            outcome(r) == HdmiCecState::of_number(v as int),
    {
        if v == 0 {
            Ok(HdmiCecState::Disabled)
        } else if v == 1 {
            Ok(HdmiCecState::ControlOnly)
        } else if v == 2 {
            Ok(HdmiCecState::ControlAndWake)
        } else {
            Err(Failure::new("No enum match for value {v}"))
        }
    }

    /// The state that `input` stands for.
    pub fn from_str(input: &str) -> (r: Result<HdmiCecState, Failure>)
        ensures
            outcome(r) == HdmiCecState::of_text(input@),
    {
        if same(input, "disable") || same(input, "disabled") || same(input, "off") {
            Ok(HdmiCecState::Disabled)
        } else if same(input, "control-only") || same(input, "ControlOnly") {
            Ok(HdmiCecState::ControlOnly)
        } else if same(input, "control-wake") || same(input, "control-and-wake") || same(
            input,
            "ControlAndWake",
        ) {
            Ok(HdmiCecState::ControlAndWake)
        } else {
            Err(Failure::with_detail("No enum match for value ", input))
        }
    }

    /// The state's name.
    pub fn to_string(&self) -> (r: String)
        ensures
            r@ == self.text(),
    {
        let s = match self {
            HdmiCecState::Disabled => "Disabled",
            HdmiCecState::ControlOnly => "ControlOnly",
            HdmiCecState::ControlAndWake => "ControlAndWake",
        };
        s.to_owned()
    }

    /// The state's name for people.
    pub fn to_human_readable(&self) -> (r: &'static str)
        ensures
            r@ == self.human_text(),
    {
        match self {
            HdmiCecState::Disabled => "disabled",
            HdmiCecState::ControlOnly => "control-only",
            HdmiCecState::ControlAndWake => "control-and-wake",
        }
    }
}

/// A state's number and its name for people lead back to the state. So does its other name,
/// except that of the disabled state, which is not taken with a capital.
pub proof fn law_cec_state_round_trip(state: HdmiCecState)
    ensures
        HdmiCecState::of_number(state.number() as int) == Ok::<HdmiCecState, Seq<char>>(state),
        HdmiCecState::of_text(state.human_text()) == Ok::<HdmiCecState, Seq<char>>(state),
        HdmiCecState::of_text(state.text()) is Ok <==> !(state is Disabled),
        !(state is Disabled) ==> HdmiCecState::of_text(state.text()) == Ok::<
            HdmiCecState,
            Seq<char>,
        >(state),
{
    reveal_strlit("disable");
    reveal_strlit("disabled");
    reveal_strlit("Disabled");
    reveal_strlit("off");
    reveal_strlit("control-only");
    reveal_strlit("control-wake");
    reveal_strlit("control-and-wake");
    reveal_strlit("ControlOnly");
    reveal_strlit("ControlAndWake");
    assert("disable"@[0] == 'd' && "disable"@.len() == 7);
    assert("disabled"@[0] == 'd' && "disabled"@.len() == 8);
    assert("Disabled"@[0] == 'D');
    assert("off"@[0] == 'o');
    assert("control-only"@[0] == 'c' && "control-only"@[8] == 'o');
    assert("control-wake"@[0] == 'c' && "control-wake"@[8] == 'w');
    assert("control-and-wake"@[0] == 'c' && "control-and-wake"@[8] == 'a');
    assert("ControlOnly"@[0] == 'C' && "ControlOnly"@[7] == 'O');
    assert("ControlAndWake"@[0] == 'C' && "ControlAndWake"@[7] == 'A');
}

/// The units behind Consumer Electronics Control.
#[derive(Clone, Copy, Debug, PartialEq, Eq, Structural)]
pub enum CecUnit {
    /// Takes the remote control's keys.
    PlasmaRc,
    /// Wakes the device.
    Wakehook,
}

impl CecUnit {
    /// The name of the unit.
    pub fn name(self) -> (r: &'static str)
        ensures
            r@ == (match self {
                CecUnit::PlasmaRc => "plasma-remotecontrollers.service"@,
                CecUnit::Wakehook => "wakehook.service"@,
            }),
    {
        match self {
            CecUnit::PlasmaRc => "plasma-remotecontrollers.service",
            CecUnit::Wakehook => "wakehook.service",
        }
    }
}

/// How to find out the state: a unit to ask about, or the answer.
#[derive(Clone, Copy, Debug, PartialEq, Eq, Structural)]
pub enum CecQuery {
    Ask(CecUnit),
    State(HdmiCecState),
}

/// One step towards a state.
#[derive(Clone, Copy, Debug, PartialEq, Eq, Structural)]
pub enum CecStep {
    Mask(CecUnit),
    Unmask(CecUnit),
    Start(CecUnit),
    Stop(CecUnit),
    DaemonReload,
}

/// Whether a unit file in this state lets its unit run.
pub open spec fn lets_run(state: EnableState) -> bool {
    state is Enabled || state is Static
}

/// The state that follows from what is known of the units' files, or the unit to ask about.
pub open spec fn enabled_state(
    plasma_rc: Option<EnableState>,
    wakehook: Option<EnableState>,
) -> CecQuery {
    match plasma_rc {
        None => CecQuery::Ask(CecUnit::PlasmaRc),
        Some(state) => if lets_run(state) {
            match wakehook {
                None => CecQuery::Ask(CecUnit::Wakehook),
                Some(state) => if lets_run(state) {
                    CecQuery::State(HdmiCecState::ControlAndWake)
                } else {
                    CecQuery::State(HdmiCecState::ControlOnly)
                },
            }
        } else {
            CecQuery::State(HdmiCecState::Disabled)
        },
    }
}

/// The steps that bring a state about.
pub open spec fn steps_to(state: HdmiCecState) -> Seq<CecStep> {
    match state {
        HdmiCecState::Disabled => seq![
            CecStep::Mask(CecUnit::PlasmaRc),
            CecStep::Stop(CecUnit::PlasmaRc),
            CecStep::Mask(CecUnit::Wakehook),
            CecStep::Stop(CecUnit::Wakehook),
            CecStep::DaemonReload,
        ],
        HdmiCecState::ControlOnly => seq![
            CecStep::Mask(CecUnit::Wakehook),
            CecStep::Stop(CecUnit::Wakehook),
            CecStep::Unmask(CecUnit::PlasmaRc),
            CecStep::DaemonReload,
            CecStep::Start(CecUnit::PlasmaRc),
        ],
        HdmiCecState::ControlAndWake => seq![
            CecStep::Unmask(CecUnit::PlasmaRc),
            CecStep::Unmask(CecUnit::Wakehook),
            CecStep::DaemonReload,
            CecStep::Start(CecUnit::PlasmaRc),
            CecStep::Start(CecUnit::Wakehook),
        ],
    }
}

/// Reads and sets how far the device takes part.
pub struct HdmiCecControl {}

impl HdmiCecControl {
    /// The state that follows from what is known of the units' files, or the unit to ask about
    /// next. The wake hook counts only where the remote control's unit can run.
    pub fn get_enabled_state(plasma_rc: Option<EnableState>, wakehook: Option<EnableState>) -> (r:
        CecQuery)
        ensures
            r == enabled_state(plasma_rc, wakehook),
    {
        match plasma_rc {
            None => CecQuery::Ask(CecUnit::PlasmaRc),
            Some(EnableState::Enabled) | Some(EnableState::Static) => match wakehook {
                None => CecQuery::Ask(CecUnit::Wakehook),
                Some(EnableState::Enabled) | Some(EnableState::Static) => CecQuery::State(
                    HdmiCecState::ControlAndWake,
                ),
                _ => CecQuery::State(HdmiCecState::ControlOnly),
            },
            _ => CecQuery::State(HdmiCecState::Disabled),
        }
    }

    /// The steps that bring `state` about, in order; the first that fails ends them.
    pub fn set_enabled_state(state: HdmiCecState) -> (r: Vec<CecStep>)
        ensures
            r@ == steps_to(state),
    {
        let r = match state {
            HdmiCecState::Disabled => vec![
                CecStep::Mask(CecUnit::PlasmaRc),
                CecStep::Stop(CecUnit::PlasmaRc),
                CecStep::Mask(CecUnit::Wakehook),
                CecStep::Stop(CecUnit::Wakehook),
                CecStep::DaemonReload,
            ],
            HdmiCecState::ControlOnly => vec![
                CecStep::Mask(CecUnit::Wakehook),
                CecStep::Stop(CecUnit::Wakehook),
                CecStep::Unmask(CecUnit::PlasmaRc),
                CecStep::DaemonReload,
                CecStep::Start(CecUnit::PlasmaRc),
            ],
            HdmiCecState::ControlAndWake => vec![
                CecStep::Unmask(CecUnit::PlasmaRc),
                CecStep::Unmask(CecUnit::Wakehook),
                CecStep::DaemonReload,
                CecStep::Start(CecUnit::PlasmaRc),
                CecStep::Start(CecUnit::Wakehook),
            ],
        };
        assert(r@ =~= steps_to(state));
        r
    }
}

/// A unit as systemd sees it.
pub struct UnitState {
    /// Whether the unit file is masked.
    pub masked: bool,
    /// Whether it was masked when systemd last read it.
    pub loaded_masked: bool,
    /// The state of the unit file when it is not masked.
    pub file: EnableState,
    /// Whether the unit runs.
    pub active: bool,
}

impl UnitState {
    /// What systemd says of the unit file.
    pub open spec fn enabled(self) -> EnableState {
        if self.masked {
            EnableState::Masked
        } else {
            self.file
        }
    }
}

/// The units of Consumer Electronics Control as systemd sees them.
pub struct CecUnits {
    pub plasma_rc: UnitState,
    pub wakehook: UnitState,
}

impl CecUnits {
    /// The units with `unit` replaced.
    pub open spec fn with(self, unit: CecUnit, state: UnitState) -> CecUnits {
        match unit {
            CecUnit::PlasmaRc => CecUnits { plasma_rc: state, ..self },
            CecUnit::Wakehook => CecUnits { wakehook: state, ..self },
        }
    }

    /// One of the units.
    pub open spec fn unit(self, unit: CecUnit) -> UnitState {
        match unit {
            CecUnit::PlasmaRc => self.plasma_rc,
            CecUnit::Wakehook => self.wakehook,
        }
    }

    /// The units after a step. A unit that systemd knows as masked does not start.
    #[verifier::opaque]
    pub open spec fn after(self, step: CecStep) -> CecUnits {
        match step {
            CecStep::Mask(u) => self.with(u, UnitState { masked: true, ..self.unit(u) }),
            CecStep::Unmask(u) => self.with(u, UnitState { masked: false, ..self.unit(u) }),
            CecStep::Start(u) => if self.unit(u).loaded_masked {
                self
            } else {
                self.with(u, UnitState { active: true, ..self.unit(u) })
            },
            CecStep::Stop(u) => self.with(u, UnitState { active: false, ..self.unit(u) }),
            CecStep::DaemonReload => CecUnits {
                plasma_rc: UnitState {
                    loaded_masked: self.plasma_rc.masked,
                    ..self.plasma_rc
                },
                wakehook: UnitState { loaded_masked: self.wakehook.masked, ..self.wakehook },
            },
        }
    }

    /// The units after several steps.
    pub open spec fn after_all(self, steps: Seq<CecStep>) -> CecUnits
        decreases steps.len(),
    {
        if steps.len() == 0 {
            self
        } else {
            self.after_all(steps.drop_last()).after(steps.last())
        }
    }

    /// The state that is read from the units.
    pub open spec fn state(self) -> CecQuery {
        enabled_state(Some(self.plasma_rc.enabled()), Some(self.wakehook.enabled()))
    }
}

/// Whether, after the steps to a state, that state is read back, the remote control's unit runs
/// unless the state is disabled, and the wake hook runs where the device is to be woken.
pub open spec fn read_back(units: CecUnits, state: HdmiCecState) -> bool {
    let after = units.after_all(steps_to(state));
    &&& after.state() == CecQuery::State(state)
    &&& after.plasma_rc.active <==> !(state is Disabled)
    &&& after.wakehook.active <==> state is ControlAndWake
}

/// Whatever the units are like before, as long as their files let them run when they are not
/// masked: after the steps to a state that state is read back, the remote control's unit runs
/// unless the state is disabled, and the wake hook runs where the device is to be woken.
pub proof fn law_cec_state_read_back(units: CecUnits, state: HdmiCecState)
    requires
        lets_run(units.plasma_rc.file),
        lets_run(units.wakehook.file),
    ensures
        read_back(units, state),
{
    match state {
        HdmiCecState::Disabled => lemma_disabled_read_back(units),
        HdmiCecState::ControlOnly => lemma_control_only_read_back(units),
        HdmiCecState::ControlAndWake => lemma_control_and_wake_read_back(units),
    }
}

/// Both units are masked and stopped.
proof fn lemma_disabled_read_back(units: CecUnits)
    requires
        lets_run(units.plasma_rc.file),
        lets_run(units.wakehook.file),
    ensures
        read_back(units, HdmiCecState::Disabled),
{
    let s = steps_to(HdmiCecState::Disabled);
    let u1 = units.after(CecStep::Mask(CecUnit::PlasmaRc));
    let u2 = u1.after(CecStep::Stop(CecUnit::PlasmaRc));
    let u3 = u2.after(CecStep::Mask(CecUnit::Wakehook));
    let u4 = u3.after(CecStep::Stop(CecUnit::Wakehook));
    let u5 = u4.after(CecStep::DaemonReload);
    lemma_five_steps(units, s);
    assert(units.after_all(s) == u5);
    lemma_disabled_units(units, u1, u2, u3, u4, u5);
}

/// The units one step after the other on the way to that state.
proof fn lemma_disabled_units(
    u0: CecUnits,
    u1: CecUnits,
    u2: CecUnits,
    u3: CecUnits,
    u4: CecUnits,
    u5: CecUnits,
)
    requires
        lets_run(u0.plasma_rc.file),
        lets_run(u0.wakehook.file),
        u1 == u0.after(CecStep::Mask(CecUnit::PlasmaRc)),
        u2 == u1.after(CecStep::Stop(CecUnit::PlasmaRc)),
        u3 == u2.after(CecStep::Mask(CecUnit::Wakehook)),
        u4 == u3.after(CecStep::Stop(CecUnit::Wakehook)),
        u5 == u4.after(CecStep::DaemonReload),
    ensures
        u5.state() == CecQuery::State(HdmiCecState::Disabled),
        u5.plasma_rc.active == false,
        u5.wakehook.active == false,
{
    reveal(CecUnits::after);
    assert(u1.plasma_rc == (UnitState { masked: true, ..u0.plasma_rc }));
    assert(u1.wakehook == u0.wakehook);
    assert(u2.plasma_rc == (UnitState { active: false, ..u1.plasma_rc }));
    assert(u2.wakehook == u1.wakehook);
    assert(u3.plasma_rc == u2.plasma_rc);
    assert(u3.wakehook == (UnitState { masked: true, ..u2.wakehook }));
    assert(u4.plasma_rc == u3.plasma_rc);
    assert(u4.wakehook == (UnitState { active: false, ..u3.wakehook }));
    assert(u5.plasma_rc == (UnitState { loaded_masked: u4.plasma_rc.masked, ..u4.plasma_rc }));
    assert(u5.wakehook == (UnitState { loaded_masked: u4.wakehook.masked, ..u4.wakehook }));
}

/// The wake hook is masked and stopped, and the other unit runs.
proof fn lemma_control_only_read_back(units: CecUnits)
    requires
        lets_run(units.plasma_rc.file),
        lets_run(units.wakehook.file),
    ensures
        read_back(units, HdmiCecState::ControlOnly),
{
    let s = steps_to(HdmiCecState::ControlOnly);
    let u1 = units.after(CecStep::Mask(CecUnit::Wakehook));
    let u2 = u1.after(CecStep::Stop(CecUnit::Wakehook));
    let u3 = u2.after(CecStep::Unmask(CecUnit::PlasmaRc));
    let u4 = u3.after(CecStep::DaemonReload);
    let u5 = u4.after(CecStep::Start(CecUnit::PlasmaRc));
    lemma_five_steps(units, s);
    assert(units.after_all(s) == u5);
    lemma_control_only_units(units, u1, u2, u3, u4, u5);
}

/// The units one step after the other on the way to that state.
proof fn lemma_control_only_units(
    u0: CecUnits,
    u1: CecUnits,
    u2: CecUnits,
    u3: CecUnits,
    u4: CecUnits,
    u5: CecUnits,
)
    requires
        lets_run(u0.plasma_rc.file),
        lets_run(u0.wakehook.file),
        u1 == u0.after(CecStep::Mask(CecUnit::Wakehook)),
        u2 == u1.after(CecStep::Stop(CecUnit::Wakehook)),
        u3 == u2.after(CecStep::Unmask(CecUnit::PlasmaRc)),
        u4 == u3.after(CecStep::DaemonReload),
        u5 == u4.after(CecStep::Start(CecUnit::PlasmaRc)),
    ensures
        u5.state() == CecQuery::State(HdmiCecState::ControlOnly),
        u5.plasma_rc.active == true,
        u5.wakehook.active == false,
{
    reveal(CecUnits::after);
    assert(u1.plasma_rc == u0.plasma_rc);
    assert(u1.wakehook == (UnitState { masked: true, ..u0.wakehook }));
    assert(u2.plasma_rc == u1.plasma_rc);
    assert(u2.wakehook == (UnitState { active: false, ..u1.wakehook }));
    assert(u3.plasma_rc == (UnitState { masked: false, ..u2.plasma_rc }));
    assert(u3.wakehook == u2.wakehook);
    assert(u4.plasma_rc == (UnitState { loaded_masked: u3.plasma_rc.masked, ..u3.plasma_rc }));
    assert(u4.wakehook == (UnitState { loaded_masked: u3.wakehook.masked, ..u3.wakehook }));
    assert(u5.plasma_rc == (UnitState { active: true, ..u4.plasma_rc }));
    assert(u5.wakehook == u4.wakehook);
}

/// Neither unit is masked, and both run.
proof fn lemma_control_and_wake_read_back(units: CecUnits)
    requires
        lets_run(units.plasma_rc.file),
        lets_run(units.wakehook.file),
    ensures
        read_back(units, HdmiCecState::ControlAndWake),
{
    let s = steps_to(HdmiCecState::ControlAndWake);
    let u1 = units.after(CecStep::Unmask(CecUnit::PlasmaRc));
    let u2 = u1.after(CecStep::Unmask(CecUnit::Wakehook));
    let u3 = u2.after(CecStep::DaemonReload);
    let u4 = u3.after(CecStep::Start(CecUnit::PlasmaRc));
    let u5 = u4.after(CecStep::Start(CecUnit::Wakehook));
    lemma_five_steps(units, s);
    assert(units.after_all(s) == u5);
    lemma_control_and_wake_units(units, u1, u2, u3, u4, u5);
}

/// The units one step after the other on the way to that state.
proof fn lemma_control_and_wake_units(
    u0: CecUnits,
    u1: CecUnits,
    u2: CecUnits,
    u3: CecUnits,
    u4: CecUnits,
    u5: CecUnits,
)
    requires
        lets_run(u0.plasma_rc.file),
        lets_run(u0.wakehook.file),
        u1 == u0.after(CecStep::Unmask(CecUnit::PlasmaRc)),
        u2 == u1.after(CecStep::Unmask(CecUnit::Wakehook)),
        u3 == u2.after(CecStep::DaemonReload),
        u4 == u3.after(CecStep::Start(CecUnit::PlasmaRc)),
        u5 == u4.after(CecStep::Start(CecUnit::Wakehook)),
    ensures
        u5.state() == CecQuery::State(HdmiCecState::ControlAndWake),
        u5.plasma_rc.active == true,
        u5.wakehook.active == true,
{
    reveal(CecUnits::after);
    assert(u1.plasma_rc == (UnitState { masked: false, ..u0.plasma_rc }));
    assert(u1.wakehook == u0.wakehook);
    assert(u2.plasma_rc == u1.plasma_rc);
    assert(u2.wakehook == (UnitState { masked: false, ..u1.wakehook }));
    assert(u3.plasma_rc == (UnitState { loaded_masked: u2.plasma_rc.masked, ..u2.plasma_rc }));
    assert(u3.wakehook == (UnitState { loaded_masked: u2.wakehook.masked, ..u2.wakehook }));
    assert(u4.plasma_rc == (UnitState { active: true, ..u3.plasma_rc }));
    assert(u4.wakehook == u3.wakehook);
    assert(u5.plasma_rc == u4.plasma_rc);
    assert(u5.wakehook == (UnitState { active: true, ..u4.wakehook }));
}

/// Five steps, one after the other.
proof fn lemma_five_steps(units: CecUnits, s: Seq<CecStep>)
    requires
        s.len() == 5,
    ensures
        units.after_all(s) == units.after(s[0]).after(s[1]).after(s[2]).after(s[3]).after(s[4]),
{
    lemma_last_step(units, s, 0);
    lemma_last_step(units, s, 1);
    lemma_last_step(units, s, 2);
    lemma_last_step(units, s, 3);
    lemma_last_step(units, s, 4);
    assert(s.take(0) =~= Seq::<CecStep>::empty());
    assert(s.take(5) =~= s);
}

/// The last of several steps is taken after the others.
proof fn lemma_last_step(units: CecUnits, s: Seq<CecStep>, i: int)
    requires
        0 <= i < s.len(),
    ensures
        units.after_all(s.take(i + 1)) == units.after_all(s.take(i)).after(s[i]),
{
    assert(s.take(i + 1).drop_last() =~= s.take(i));
}

/// What is known of the two units decides: the wake hook is asked about only where the other
/// unit can run, and both enabled and static units can.
pub proof fn law_cec_query(plasma_rc: EnableState, wakehook: EnableState)
    ensures
        enabled_state(None, Some(wakehook)) == CecQuery::Ask(CecUnit::PlasmaRc),
        enabled_state(None, None) == CecQuery::Ask(CecUnit::PlasmaRc),
        enabled_state(Some(EnableState::Disabled), Some(wakehook)) == CecQuery::State(
            HdmiCecState::Disabled,
        ),
        enabled_state(Some(EnableState::Masked), Some(wakehook)) == CecQuery::State(
            HdmiCecState::Disabled,
        ),
        enabled_state(Some(EnableState::Disabled), None) == CecQuery::State(HdmiCecState::Disabled),
        enabled_state(Some(EnableState::Masked), None) == CecQuery::State(HdmiCecState::Disabled),
        plasma_rc is Enabled || plasma_rc is Static ==> {
            &&& enabled_state(Some(plasma_rc), None) == CecQuery::Ask(CecUnit::Wakehook)
            &&& enabled_state(Some(plasma_rc), Some(EnableState::Enabled)) == CecQuery::State(
                HdmiCecState::ControlAndWake,
            )
            &&& enabled_state(Some(plasma_rc), Some(EnableState::Static)) == CecQuery::State(
                HdmiCecState::ControlAndWake,
            )
            &&& enabled_state(Some(plasma_rc), Some(EnableState::Disabled)) == CecQuery::State(
                HdmiCecState::ControlOnly,
            )
            &&& enabled_state(Some(plasma_rc), Some(EnableState::Masked)) == CecQuery::State(
                HdmiCecState::ControlOnly,
            )
        },
{
}

/// A number stands for a state if and only if it is that state's number.
pub proof fn law_cec_numbers(state: HdmiCecState, v: int)
    ensures
        HdmiCecState::of_number(v) == Ok::<HdmiCecState, Seq<char>>(state) <==> v
            == state.number(),
{
}

/// On the way to a state no unit is both started and stopped or masked, every unit that is
/// started was unmasked before, and systemd reloads its units between the two.
pub proof fn law_cec_steps_order(state: HdmiCecState, unit: CecUnit, i: int)
    requires
        0 <= i < steps_to(state).len(),
        steps_to(state)[i] == CecStep::Start(unit),
    ensures
        exists|j: int, k: int|
            0 <= j < k < i && #[trigger] steps_to(state)[j] == CecStep::Unmask(unit)
                && #[trigger] steps_to(state)[k] is DaemonReload,
        forall|j: int|
            0 <= j < steps_to(state).len() ==> #[trigger] steps_to(state)[j] != CecStep::Stop(unit)
                && steps_to(state)[j] != CecStep::Mask(unit),
{
    let s = steps_to(state);
    match state {
        HdmiCecState::Disabled => {},
        HdmiCecState::ControlOnly => {
            assert(s[2] == CecStep::Unmask(unit) && s[3] is DaemonReload);
        },
        HdmiCecState::ControlAndWake => {
            assert(s[0] == CecStep::Unmask(CecUnit::PlasmaRc));
            assert(s[1] == CecStep::Unmask(CecUnit::Wakehook));
            assert(s[2] is DaemonReload);
        },
    }
}

/// The words for each state, and no others, name it.
pub proof fn law_cec_words(s: Seq<char>)
    ensures
        HdmiCecState::of_text(s) == Ok::<HdmiCecState, Seq<char>>(HdmiCecState::Disabled) <==> seq![
            "disable"@,
            "disabled"@,
            "off"@,
        ].contains(s),
        HdmiCecState::of_text(s) == Ok::<HdmiCecState, Seq<char>>(HdmiCecState::ControlOnly)
            <==> seq!["control-only"@, "ControlOnly"@].contains(s),
        HdmiCecState::of_text(s) == Ok::<HdmiCecState, Seq<char>>(HdmiCecState::ControlAndWake)
            <==> seq!["control-wake"@, "control-and-wake"@, "ControlAndWake"@].contains(s),
        HdmiCecState::of_text(s) is Err ==> HdmiCecState::of_text(s) == Err::<
            HdmiCecState,
            Seq<char>,
        >("No enum match for value "@ + s),
{
    reveal_strlit("disable");
    reveal_strlit("disabled");
    reveal_strlit("off");
    reveal_strlit("control-only");
    reveal_strlit("ControlOnly");
    reveal_strlit("control-wake");
    reveal_strlit("control-and-wake");
    reveal_strlit("ControlAndWake");
    let disabled = seq!["disable"@, "disabled"@, "off"@];
    let only = seq!["control-only"@, "ControlOnly"@];
    let wake = seq!["control-wake"@, "control-and-wake"@, "ControlAndWake"@];
    assert(disabled[0] == "disable"@ && disabled[1] == "disabled"@ && disabled[2] == "off"@);
    assert(only[0] == "control-only"@ && only[1] == "ControlOnly"@);
    assert(wake[0] == "control-wake"@ && wake[1] == "control-and-wake"@);
    assert(wake[2] == "ControlAndWake"@);
    assert("disable"@.len() == 7 && "disabled"@.len() == 8 && "off"@.len() == 3);
    assert("control-only"@.len() == 12 && "ControlOnly"@.len() == 11);
    assert("control-wake"@.len() == 12 && "control-and-wake"@.len() == 16);
    assert("ControlAndWake"@.len() == 14);
    assert("control-only"@[8] == 'o' && "control-wake"@[8] == 'w');
}

} // verus!

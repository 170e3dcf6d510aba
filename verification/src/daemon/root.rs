//! The daemon with the rights of the system.

use vstd::prelude::*;

verus! {

/// The directory of the configuration that the user of the system can change.
pub const USER_CONFIG_PATH: &'static str = "/etc/steamos-manager";

/// The directory of the configuration that comes with the system.
pub const SYSTEM_CONFIG_PATH: &'static str = "/usr/share/steamos-manager/system.d";

/// Whether the mice of game controllers are to be inhibited while a game uses them.
#[derive(Clone, Copy, Debug, PartialEq, Eq, Structural)]
pub struct DsInhibit {
    pub enabled: bool,
}

impl Default for DsInhibit {
    /// They are, unless someone decided otherwise.
    fn default() -> (r: DsInhibit)
        ensures
            r.enabled,
    {
        DsInhibit { enabled: true }
    }
}

/// The state of the services.
#[derive(Clone, Copy, Debug, PartialEq, Eq, Structural)]
pub struct RootServicesState {
    pub ds_inhibit: DsInhibit,
}

impl Default for RootServicesState {
    /// Each service in its default state.
    fn default() -> (r: RootServicesState)
        ensures
            r.ds_inhibit.enabled,
    {
        RootServicesState { ds_inhibit: DsInhibit::default() }
    }
}

/// The state that the daemon keeps from one run to the next.
#[derive(Clone, Copy, Debug, PartialEq, Eq, Structural)]
pub struct RootState {
    pub services: RootServicesState,
}

impl Default for RootState {
    /// Each service in its default state.
    fn default() -> (r: RootState)
        ensures
            r.services.ds_inhibit.enabled,
    {
        RootState { services: RootServicesState::default() }
    }
}

/// The commands of this daemon.
#[derive(Clone, Copy, Debug, PartialEq, Eq, Structural)]
pub enum RootCommand {
    /// Inhibit, or do not.
    SetDsInhibit(bool),
    /// Tell whether mice are being inhibited.
    GetDsInhibit,
}

/// What to do about the service that inhibits.
#[derive(Clone, Copy, Debug, PartialEq, Eq, Structural)]
pub enum InhibitStep {
    /// Cancel it.
    Cancel,
    /// Start it; where that succeeds, `RootContext::ds_inhibit_started` is due.
    Start,
    /// Leave it.
    Nothing,
}

/// What to do about a command.
#[derive(Clone, Copy, Debug, PartialEq, Eq, Structural)]
pub enum RootStep {
    /// Do this about the service that inhibits; where it succeeds, have the state written.
    Inhibit(InhibitStep),
    /// Answer this.
    Answer(bool),
}

/// What the daemon remembers.
#[derive(Clone, Copy, Debug, PartialEq, Eq, Structural)]
pub struct RootContext {
    pub state: RootState,
    /// Whether the service that inhibits was started and not cancelled.
    pub ds_inhibit: bool,
}

/// What to do about the service that inhibits, by whether it is wanted and whether it runs.
pub open spec fn inhibit_step(enabled: bool, running: bool) -> InhibitStep {
    if enabled == running {
        InhibitStep::Nothing
    } else if running {
        InhibitStep::Cancel
    } else {
        InhibitStep::Start
    }
}

impl RootContext {
    /// A daemon that has not started yet.
    pub fn new() -> (r: RootContext)
        ensures
            r.state.services.ds_inhibit.enabled,
            !r.ds_inhibit,
    {
        RootContext { state: RootState::default(), ds_inhibit: false }
    }

    /// Whether inhibiting is wanted.
    pub open spec fn enabled(self) -> bool {
        self.state.services.ds_inhibit.enabled
    }

    /// The context once inhibiting is wanted or not: a service that is not wanted counts as
    /// cancelled at once, one that is wanted runs only when it was started.
    pub open spec fn after(self, state: RootState) -> RootContext {
        RootContext {
            state,
            ds_inhibit: self.ds_inhibit && state.services.ds_inhibit.enabled,
        }
    }

    /// What to do about the service that inhibits.
    pub fn reload_ds_inhibit(&mut self) -> (r: InhibitStep)
        ensures
            r == inhibit_step(old(self).enabled(), old(self).ds_inhibit),
            *final(self) == old(self).after(old(self).state),
    {
        match (self.state.services.ds_inhibit.enabled, self.ds_inhibit) {
            (false, true) => {
                self.ds_inhibit = false;
                InhibitStep::Cancel
            },
            (true, false) => InhibitStep::Start,
            _ => InhibitStep::Nothing,
        }
    }

    /// Takes note that the service that inhibits was started.
    pub fn ds_inhibit_started(&mut self)
        ensures
            *final(self) == (RootContext { ds_inhibit: true, ..*old(self) }),
    {
        self.ds_inhibit = true;
    }

    /// The state to write.
    pub fn state(&self) -> (r: RootState)
        ensures
            r == self.state,
    {
        self.state
    }

    /// Starts with the state that was read.
    pub fn start(&mut self, state: RootState) -> (r: InhibitStep)
        ensures
            r == inhibit_step(state.services.ds_inhibit.enabled, old(self).ds_inhibit),
            *final(self) == old(self).after(state),
    {
        self.state = state;
        self.reload_ds_inhibit()
    }

    /// The state in which inhibiting is wanted, or is not.
    pub open spec fn with_inhibit(state: RootState, enable: bool) -> RootState {
        RootState {
            services: RootServicesState { ds_inhibit: DsInhibit { enabled: enable }, ..state.services },
            ..state
        }
    }

    /// What to do about a command.
    pub fn handle_command(&mut self, command: RootCommand) -> (r: RootStep)
        ensures
            match command {
                RootCommand::SetDsInhibit(enable) => {
                    &&& r == RootStep::Inhibit(inhibit_step(enable, old(self).ds_inhibit))
                    &&& *final(self) == old(self).after(
                        RootContext::with_inhibit(old(self).state, enable),
                    )
                },
                RootCommand::GetDsInhibit => {
                    &&& r == RootStep::Answer(old(self).ds_inhibit)
                    &&& *final(self) == *old(self)
                },
            },
    {
        match command {
            RootCommand::SetDsInhibit(enable) => {
                self.state.services.ds_inhibit.enabled = enable;
                RootStep::Inhibit(self.reload_ds_inhibit())
            },
            RootCommand::GetDsInhibit => RootStep::Answer(self.ds_inhibit),
        }
    }
}

/// The context after a command to inhibit or not, where the service could be started if it had
/// to be.
pub open spec fn inhibit_set(context: RootContext, enable: bool) -> RootContext {
    let after = context.after(RootContext::with_inhibit(context.state, enable));
    if inhibit_step(enable, context.ds_inhibit) is Start {
        RootContext { ds_inhibit: true, ..after }
    } else {
        after
    }
}

/// What is set is what the daemon then answers and what it writes to its state; setting it
/// again changes nothing.
pub proof fn law_ds_inhibit_read_back(context: RootContext, enable: bool)
    ensures
        inhibit_set(context, enable).ds_inhibit == enable,
        inhibit_set(context, enable).enabled() == enable,
        inhibit_step(enable, inhibit_set(context, enable).ds_inhibit) is Nothing,
        inhibit_set(inhibit_set(context, enable), enable) == inhibit_set(context, enable),
{
}

/// A daemon starts with the state that was read, and inhibits if and only if that state says so;
/// a service that runs and is wanted is left alone.
pub proof fn law_start_takes_state(context: RootContext, state: RootState)
    ensures
        context.after(state).state == state,
        inhibit_step(true, false) is Start,
        inhibit_step(false, true) is Cancel,
        inhibit_step(true, true) is Nothing,
        inhibit_step(false, false) is Nothing,
        context.ds_inhibit && state.services.ds_inhibit.enabled ==> context.after(state).ds_inhibit,
        !context.ds_inhibit ==> !context.after(state).ds_inhibit,
        RootContext::with_inhibit(state, true).services.ds_inhibit.enabled,
        !RootContext::with_inhibit(state, false).services.ds_inhibit.enabled,
{
}

} // verus!

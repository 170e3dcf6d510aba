//! The daemons: their life, their configuration and their state.

use vstd::prelude::*;

use crate::error::{outcome, Failure};

pub mod config;
pub mod root;
pub mod user;

verus! {

/// What a daemon can be told.
#[derive(Clone, Copy, Debug, PartialEq, Eq, Structural)]
pub enum DaemonCommand<C> {
    /// A command for the daemon's own kind.
    ContextCommand(C),
    /// Read the configuration again.
    ReadConfig,
    /// Write the state.
    WriteState,
}

/// What happens to a daemon.
#[derive(Debug)]
pub enum DaemonEvent<C> {
    /// A service ended.
    ServiceEnded(Result<(), Failure>),
    /// The daemon was interrupted from its terminal.
    CtrlC,
    /// The signal to terminate arrived, or, if not so, can arrive no more.
    Sigterm(bool),
    /// The signal to hang up arrived, or, if not so, can arrive no more.
    Sighup(bool),
    /// A command arrived, or none can arrive any more.
    Message(Option<DaemonCommand<C>>),
    /// The signal to quit arrived.
    Sigquit,
}

/// What a daemon does next.
#[derive(Debug)]
pub enum DaemonStep<C> {
    /// Waits for the next event.
    Continue,
    /// Reads the configuration, and then goes by `Daemon::config_read`.
    ReadConfig,
    /// Writes its state, and then goes by `Daemon::done`.
    WriteState,
    /// Carries out a command of its own kind, and then goes by `Daemon::done`.
    Command(C),
    /// Reloads with the configuration that was read, and then goes by `Daemon::done`.
    Reload,
    /// Shuts down, having come to this.
    Stop(Result<(), Failure>),
}

/// A `DaemonStep` with its failures seen as text.
pub enum DaemonStepView<C> {
    Continue,
    ReadConfig,
    WriteState,
    Command(C),
    Reload,
    Stop(Result<(), Seq<char>>),
}

impl<C> View for DaemonStep<C> {
    type V = DaemonStepView<C>;

    open spec fn view(&self) -> DaemonStepView<C> {
        match self {
            DaemonStep::Continue => DaemonStepView::Continue,
            DaemonStep::ReadConfig => DaemonStepView::ReadConfig,
            DaemonStep::WriteState => DaemonStepView::WriteState,
            DaemonStep::Command(c) => DaemonStepView::Command(*c),
            DaemonStep::Reload => DaemonStepView::Reload,
            DaemonStep::Stop(r) => DaemonStepView::Stop(outcome(*r)),
        }
    }
}

/// What a daemon does once something was done: it goes on unless that failed.
pub open spec fn step_after<C>(result: Result<(), Seq<char>>) -> DaemonStepView<C> {
    match result {
        Ok(_) => DaemonStepView::Continue,
        Err(e) => DaemonStepView::Stop(Err(e)),
    }
}

/// What a daemon does about an event.
pub open spec fn step_on<C>(event: DaemonEvent<C>) -> DaemonStepView<C> {
    match event {
        DaemonEvent::ServiceEnded(result) => step_after(outcome(result)),
        DaemonEvent::CtrlC => DaemonStepView::Stop(Ok(())),
        DaemonEvent::Sigterm(true) => DaemonStepView::Continue,
        DaemonEvent::Sigterm(false) => DaemonStepView::Stop(Err("SIGTERM machine broke"@)),
        DaemonEvent::Sighup(true) => DaemonStepView::ReadConfig,
        DaemonEvent::Sighup(false) => DaemonStepView::Stop(Err("SIGHUP machine broke"@)),
        DaemonEvent::Message(Some(DaemonCommand::ContextCommand(c))) => DaemonStepView::Command(c),
        DaemonEvent::Message(Some(DaemonCommand::ReadConfig)) => DaemonStepView::ReadConfig,
        DaemonEvent::Message(Some(DaemonCommand::WriteState)) => DaemonStepView::WriteState,
        DaemonEvent::Message(None) => DaemonStepView::Stop(Err("All senders have been closed"@)),
        DaemonEvent::Sigquit => DaemonStepView::Stop(Err("Got SIGQUIT"@)),
    }
}

/// How far the start of a daemon has come. `S` is its state and `K` its configuration.
#[derive(Debug)]
pub enum StartEvent<S, K> {
    /// It is to run, with this many services.
    Begin(usize),
    /// Reading its state came to this.
    StateRead(Result<S, Failure>),
    /// With this state, reading its configuration came to this.
    ConfigRead(S, Result<K, Failure>),
    /// Starting its context came to this.
    Started(Result<(), Failure>),
}

/// What a daemon that is starting does next.
#[derive(Debug)]
pub enum StartStep<S, K> {
    /// Reads its state.
    ReadState,
    /// Reads its configuration, and keeps this state for later.
    ReadConfig(S),
    /// Starts its context with this state and this configuration.
    Start(S, K),
    /// Waits for events.
    Run,
    /// Ends at once, with nothing to shut down.
    Fail(Failure),
}

/// A `StartStep` with its failure seen as text.
pub enum StartStepView<S, K> {
    ReadState,
    ReadConfig(S),
    Start(S, K),
    Run,
    Fail(Seq<char>),
}

impl<S, K> View for StartStep<S, K> {
    type V = StartStepView<S, K>;

    open spec fn view(&self) -> StartStepView<S, K> {
        match self {
            StartStep::ReadState => StartStepView::ReadState,
            StartStep::ReadConfig(s) => StartStepView::ReadConfig(*s),
            StartStep::Start(s, k) => StartStepView::Start(*s, *k),
            StartStep::Run => StartStepView::Run,
            StartStep::Fail(e) => StartStepView::Fail(e@),
        }
    }
}

/// Whether a daemon with this many services can run.
pub open spec fn services_checked(services: usize) -> Result<(), Seq<char>> {
    if services > 0 {
        Ok(())
    } else {
        Err("Can't run a daemon with no services attached."@)
    }
}

/// What a daemon that is starting does next: whatever fails ends it with that failure.
pub open spec fn start_on<S, K>(event: StartEvent<S, K>) -> StartStepView<S, K> {
    match event {
        StartEvent::Begin(services) => match services_checked(services) {
            Ok(_) => StartStepView::ReadState,
            Err(e) => StartStepView::Fail(e),
        },
        StartEvent::StateRead(Ok(state)) => StartStepView::ReadConfig(state),
        StartEvent::StateRead(Err(e)) => StartStepView::Fail(e@),
        StartEvent::ConfigRead(state, Ok(config)) => StartStepView::Start(state, config),
        StartEvent::ConfigRead(_, Err(e)) => StartStepView::Fail(e@),
        StartEvent::Started(Ok(_)) => StartStepView::Run,
        StartEvent::Started(Err(e)) => StartStepView::Fail(e@),
    }
}

/// How far a daemon comes that has so many services, whose state and configuration are read
/// with these results: to the start of its context or to a failure.
pub open spec fn start_with<S, K>(
    services: usize,
    state: Result<S, Failure>,
    config: Result<K, Failure>,
) -> StartStepView<S, K> {
    match start_on(StartEvent::<S, K>::Begin(services)) {
        StartStepView::ReadState => match start_on(StartEvent::<S, K>::StateRead(state)) {
            StartStepView::ReadConfig(state) => start_on(StartEvent::ConfigRead(state, config)),
            step => step,
        },
        step => step,
    }
}

/// The context of a daemon is started if and only if there are services and both its state and
/// its configuration could be read, and then with these; else the daemon ends with the first
/// failure, in this order.
pub proof fn law_context_started_iff_all_read<S, K>(
    services: usize,
    state: Result<S, Failure>,
    config: Result<K, Failure>,
)
    ensures
        start_with(services, state, config) == if services == 0 {
            StartStepView::Fail("Can't run a daemon with no services attached."@)
        } else if state is Err {
            StartStepView::Fail(state->Err_0@)
        } else if config is Err {
            StartStepView::Fail(config->Err_0@)
        } else {
            StartStepView::Start(state->Ok_0, config->Ok_0)
        },
{
}

/// The life of a daemon.
pub struct Daemon {}

impl Daemon {
    /// A daemon needs at least one service to run.
    pub fn check_services(services: usize) -> (r: Result<(), Failure>)
        ensures
            outcome(r) == services_checked(services),
    {
        if services == 0 {
            return Err(Failure::new("Can't run a daemon with no services attached."));
        }
        Ok(())
    }

    /// What to do next while the daemon starts. A state or a configuration that cannot be read
    /// ends the daemon before its context starts.
    pub fn start<S, K>(event: StartEvent<S, K>) -> (r: StartStep<S, K>)
        ensures
            r@ == start_on(event),
    {
        match event {
            StartEvent::Begin(services) => match Daemon::check_services(services) {
                Ok(()) => StartStep::ReadState,
                Err(e) => StartStep::Fail(e),
            },
            StartEvent::StateRead(Ok(state)) => StartStep::ReadConfig(state),
            StartEvent::StateRead(Err(e)) => StartStep::Fail(e),
            StartEvent::ConfigRead(state, Ok(config)) => StartStep::Start(state, config),
            StartEvent::ConfigRead(_, Err(e)) => StartStep::Fail(e),
            StartEvent::Started(Ok(())) => StartStep::Run,
            StartEvent::Started(Err(e)) => StartStep::Fail(e),
        }
    }

    /// What to do about an event.
    pub fn run<C>(event: DaemonEvent<C>) -> (r: DaemonStep<C>)
        ensures
            r@ == step_on(event),
    {
        match event {
            DaemonEvent::ServiceEnded(result) => Daemon::done(result),
            DaemonEvent::CtrlC => DaemonStep::Stop(Ok(())),
            DaemonEvent::Sigterm(received) => if received {
                DaemonStep::Continue
            } else {
                DaemonStep::Stop(Err(Failure::new("SIGTERM machine broke")))
            },
            DaemonEvent::Sighup(received) => if received {
                DaemonStep::ReadConfig
            } else {
                DaemonStep::Stop(Err(Failure::new("SIGHUP machine broke")))
            },
            DaemonEvent::Message(Some(command)) => Daemon::handle_message(command),
            DaemonEvent::Message(None) => DaemonStep::Stop(
                Err(Failure::new("All senders have been closed")),
            ),
            DaemonEvent::Sigquit => DaemonStep::Stop(Err(Failure::new("Got SIGQUIT"))),
        }
    }

    /// What to do about a command.
    pub fn handle_message<C>(command: DaemonCommand<C>) -> (r: DaemonStep<C>)
        ensures
            r@ == step_on(DaemonEvent::Message(Some(command))),
    {
        match command {
            DaemonCommand::ContextCommand(c) => DaemonStep::Command(c),
            DaemonCommand::ReadConfig => DaemonStep::ReadConfig,
            DaemonCommand::WriteState => DaemonStep::WriteState,
        }
    }

    /// What to do once the configuration was read: a configuration that cannot be read is left
    /// aside, and the daemon goes on with the one that it has.
    pub fn config_read<C>(read: bool) -> (r: DaemonStep<C>)
        ensures
            r@ == if read {
                DaemonStepView::Reload::<C>
            } else {
                DaemonStepView::Continue
            },
    {
        if read {
            DaemonStep::Reload
        } else {
            DaemonStep::Continue
        }
    }

    /// What to do once something was done.
    pub fn done<C>(result: Result<(), Failure>) -> (r: DaemonStep<C>)
        ensures
            r@ == step_after::<C>(outcome(result)),
    {
        match result {
            Ok(()) => DaemonStep::Continue,
            Err(e) => DaemonStep::Stop(Err(e)),
        }
    }
}

/// A daemon goes on while its services end well and what it is told succeeds; a failure, whether
/// of a service or of something that it was told to do, ends it with that very failure. What it
/// is told is carried out as it is.
pub proof fn law_daemon_ends_by_failure<C>(e: Failure, c: C)
    ensures
        step_on(DaemonEvent::<C>::ServiceEnded(Err(e))) == DaemonStepView::<C>::Stop(Err(e@)),
        step_on(DaemonEvent::<C>::ServiceEnded(Ok(()))) is Continue,
        step_after::<C>(Err(e@)) == DaemonStepView::<C>::Stop(Err(e@)),
        step_after::<C>(Ok(())) is Continue,
        step_on(DaemonEvent::Message(Some(DaemonCommand::ContextCommand(c))))
            == DaemonStepView::Command(c),
        step_on(DaemonEvent::Message(Some(DaemonCommand::<C>::ReadConfig))) == step_on(
            DaemonEvent::<C>::Sighup(true),
        ),
        step_on(DaemonEvent::Message(Some(DaemonCommand::<C>::WriteState))) is WriteState,
        step_on(DaemonEvent::<C>::Sighup(true)) is ReadConfig,
        step_on(DaemonEvent::<C>::CtrlC) == DaemonStepView::<C>::Stop(Ok(())),
        step_on(DaemonEvent::<C>::Sigterm(true)) is Continue,
        step_on(DaemonEvent::<C>::Sigterm(false)) is Stop,
        step_on(DaemonEvent::<C>::Sighup(false)) is Stop,
        step_on(DaemonEvent::<C>::Message(None)) is Stop,
        step_on(DaemonEvent::<C>::Sigquit) is Stop,
{
}

/// A daemon waits for events if and only if its context was started, and ends with the failure
/// to start it otherwise.
pub proof fn law_daemon_runs_when_started<S, K>(e: Failure)
    ensures
        start_on(StartEvent::<S, K>::Started(Ok(()))) is Run,
        start_on(StartEvent::<S, K>::Started(Err(e))) == StartStepView::<S, K>::Fail(e@),
{
}

/// What ends a daemon with a failure says what it was: the quit signal, a signal that can no
/// longer be waited for, or that nobody is left to send a command.
pub proof fn law_daemon_last_words<C>()
    ensures
        step_on::<C>(DaemonEvent::Sigquit) == DaemonStepView::<C>::Stop(Err("Got SIGQUIT"@)),
        step_on::<C>(DaemonEvent::Sigterm(false)) == DaemonStepView::<C>::Stop(
            Err("SIGTERM machine broke"@),
        ),
        step_on::<C>(DaemonEvent::Sighup(false)) == DaemonStepView::<C>::Stop(
            Err("SIGHUP machine broke"@),
        ),
        step_on::<C>(DaemonEvent::Message(None)) == DaemonStepView::<C>::Stop(
            Err("All senders have been closed"@),
        ),
{
}

} // verus!

//! The life of a service of a daemon.

use vstd::prelude::*;

use crate::error::{outcome, Failure};

verus! {

/// How a service stopped running.
#[derive(Debug)]
pub enum ServiceEnd {
    /// It came to this by itself.
    Ran(Result<(), Failure>),
    /// It was cancelled.
    Cancelled,
}

/// What running a service came to: to be cancelled is no failure.
pub open spec fn run_outcome(end: ServiceEnd) -> Result<(), Seq<char>> {
    match end {
        ServiceEnd::Ran(result) => outcome(result),
        ServiceEnd::Cancelled => Ok(()),
    }
}

/// What a service comes to that ran and then shut down: a failure to shut down goes before a
/// failure to run.
pub open spec fn service_outcome(
    run: Result<(), Seq<char>>,
    shutdown: Result<(), Seq<char>>,
) -> Result<(), Seq<char>> {
    match shutdown {
        Ok(_) => run,
        Err(e) => Err(e),
    }
}

/// A service that has stopped running and is to shut down.
#[derive(Debug)]
pub struct Stopped {
    /// What running it came to.
    pub res: Result<(), Failure>,
    /// Whether its token is to be cancelled, so that all that hangs on it ends too.
    pub cancel: bool,
}

impl Stopped {
    /// A service stopped running.
    pub fn new(end: ServiceEnd) -> (r: Stopped)
        ensures
            outcome(r.res) == run_outcome(end),
            r.cancel == run_outcome(end) is Err,
    {
        let res = match end {
            ServiceEnd::Ran(result) => result,
            ServiceEnd::Cancelled => Ok(()),
        };
        let cancel = res.is_err();
        Stopped { res, cancel }
    }

    /// What the service comes to once it has shut down.
    pub fn start(self, shutdown: Result<(), Failure>) -> (r: Result<(), Failure>)
        ensures
            outcome(r) == service_outcome(outcome(self.res), outcome(shutdown)),
    {
        match shutdown {
            Ok(()) => self.res,
            Err(e) => Err(e),
        }
    }
}

/// A service succeeds if and only if neither running it nor shutting it down failed, and a
/// failure to shut down is never lost.
pub proof fn law_service_succeeds(end: ServiceEnd, shutdown: Result<(), Seq<char>>)
    ensures
        service_outcome(run_outcome(end), shutdown) is Ok <==> run_outcome(end) is Ok
            && shutdown is Ok,
        shutdown is Err ==> service_outcome(run_outcome(end), shutdown) == shutdown,
{
}

/// A service that shuts down well comes to what running it came to, with that very failure; one
/// that was cancelled has not failed.
pub proof fn law_service_failure_kept(e: Failure)
    ensures
        run_outcome(ServiceEnd::Ran(Err(e))) == Err::<(), Seq<char>>(e@),
        run_outcome(ServiceEnd::Ran(Ok(()))) is Ok,
        run_outcome(ServiceEnd::Cancelled) is Ok,
        service_outcome(Err(e@), Ok(())) == Err::<(), Seq<char>>(e@),
{
}

} // verus!

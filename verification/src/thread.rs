//! Waiting for a thread without blocking.

use vstd::prelude::*;

verus! {

/// What a thread and whoever waits for it share, under a lock. `W` wakes the waiting task.
#[derive(Debug)]
pub struct JoinContext<W> {
    /// Wakes the task that looked last.
    pub waker: Option<W>,
    /// Whether the thread has exited.
    pub exited: bool,
}

/// A handle on a thread.
#[derive(Debug)]
pub struct AsyncJoinHandle {
    /// Whether the thread was not joined yet.
    pub joinable: bool,
}

impl<W> JoinContext<W> {
    /// What is shared with a thread that was just started.
    pub fn spawn() -> (r: (JoinContext<W>, AsyncJoinHandle))
        ensures
            r.0.waker is None,
            !r.0.exited,
            r.1.joinable,
    {
        (JoinContext { waker: None, exited: false }, AsyncJoinHandle { joinable: true })
    }

    /// What is shared after a look at the thread.
    pub open spec fn after_poll(self, waker: W) -> JoinContext<W> {
        JoinContext { waker: Some(waker), ..self }
    }

    /// What is shared after the thread exited.
    pub open spec fn after_exit(self) -> JoinContext<W> {
        JoinContext { waker: None, exited: true }
    }

    /// The thread exits: whom to wake.
    pub fn exit(&mut self) -> (r: Option<W>)
        ensures
            r == old(self).waker,
            *final(self) == old(self).after_exit(),
    {
        self.exited = true;
        self.waker.take()
    }
}

impl AsyncJoinHandle {
    /// Whether the thread can be joined without blocking for long, so that a look at it is the
    /// last one. `finished` is whether the thread is known to have finished.
    pub open spec fn ready<W>(self, context: JoinContext<W>, finished: bool) -> bool {
        self.joinable && (finished || context.exited)
    }

    /// Looks at the thread: whether to join it now. If not, `waker` is used when it exits.
    pub fn poll<W>(&mut self, context: &mut JoinContext<W>, finished: bool, waker: W) -> (r: bool)
        ensures
            r == old(self).ready(*old(context), finished),
            *final(context) == old(context).after_poll(waker),
            final(self).joinable == (old(self).joinable && !r),
    {
        context.waker = Some(waker);
        if self.joinable {
            if finished || context.exited {
                self.joinable = false;
                return true;
            }
        }
        false
    }
}

/// No wake-up is lost, whichever of the two comes first: a thread that exits after a look
/// wakes the task that looked, and a look after the thread exited says to join it.
pub proof fn law_no_lost_wakeup<W>(
    handle: AsyncJoinHandle,
    context: JoinContext<W>,
    waker: W,
    finished: bool,
)
    requires
        handle.joinable,
    ensures
        context.after_poll(waker).waker == Some(waker),
        handle.ready(context.after_poll(waker).after_exit(), finished),
        handle.ready(context.after_exit(), finished),
{
}

/// A look says to join the thread if and only if it was not joined yet and has exited or is
/// known to have finished; looking never makes a thread exit.
pub proof fn law_joined_iff_over<W>(
    handle: AsyncJoinHandle,
    context: JoinContext<W>,
    finished: bool,
    waker: W,
)
    ensures
        handle.ready(context, finished) <==> handle.joinable && (finished || context.exited),
        context.after_poll(waker).exited == context.exited,
        context.after_exit().exited,
        context.after_exit().waker is None,
{
}

} // verus!

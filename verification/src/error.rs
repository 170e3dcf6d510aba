//! Errors as messages.

use vstd::prelude::*;

use crate::text::joined;

verus! {

/// What went wrong, in words.
#[derive(Clone, Debug)]
pub struct Failure {
    /// The words.
    pub message: String,
}

impl View for Failure {
    type V = Seq<char>;

    open spec fn view(&self) -> Seq<char> {
        self.message@
    }
}

impl Failure {
    /// An error that says `message`.
    pub fn new(message: &str) -> (r: Failure)
        ensures
            r@ == message@,
    {
        Failure { message: message.to_owned() }
    }

    /// An error that says `prefix` and then `detail`.
    pub fn with_detail(prefix: &str, detail: &str) -> (r: Failure)
        ensures
            r@ == prefix@ + detail@,
    {
        Failure { message: joined(prefix, detail) }
    }

    /// What the error says.
    pub fn to_string(&self) -> (r: String)
        ensures
            r@ == self@,
    {
        self.message.clone()
    }
}

/// A result with the error seen as its message.
pub open spec fn outcome<T>(r: Result<T, Failure>) -> Result<T, Seq<char>> {
    match r {
        Ok(v) => Ok(v),
        Err(e) => Err(e@),
    }
}

/// What a caller on the bus is told of a request that failed.
#[derive(Debug)]
pub enum BusError {
    /// The request failed.
    Failed(String),
    /// The arguments are not valid.
    InvalidArgs(String),
    /// The request is not supported.
    NotSupported(String),
}

/// A `BusError` with its words seen as text.
pub enum BusErrorView {
    Failed(Seq<char>),
    InvalidArgs(Seq<char>),
    NotSupported(Seq<char>),
}

impl View for BusError {
    type V = BusErrorView;

    open spec fn view(&self) -> BusErrorView {
        match self {
            BusError::Failed(m) => BusErrorView::Failed(m@),
            BusError::InvalidArgs(m) => BusErrorView::InvalidArgs(m@),
            BusError::NotSupported(m) => BusErrorView::NotSupported(m@),
        }
    }
}

/// A result with the error seen as text.
pub open spec fn bus_outcome<T>(r: Result<T, BusError>) -> Result<T, BusErrorView> {
    match r {
        Ok(v) => Ok(v),
        Err(e) => Err(e@),
    }
}

/// A result with the value and the error seen as text.
pub open spec fn bus_view<T: View>(r: Result<T, BusError>) -> Result<T::V, BusErrorView> {
    match r {
        Ok(v) => Ok(v@),
        Err(e) => Err(e@),
    }
}

/// A failure as it is told on the bus.
pub open spec fn failed<T>(r: Result<T, Seq<char>>) -> Result<T, BusErrorView> {
    match r {
        Ok(v) => Ok(v),
        Err(e) => Err(BusErrorView::Failed(e)),
    }
}

/// A failure that lies in the arguments as it is told on the bus.
pub open spec fn invalid_args<T>(r: Result<T, Seq<char>>) -> Result<T, BusErrorView> {
    match r {
        Ok(v) => Ok(v),
        Err(e) => Err(BusErrorView::InvalidArgs(e)),
    }
}

/// Tells a failure on the bus.
pub fn to_bus_error<T>(r: Result<T, Failure>) -> (b: Result<T, BusError>)
    ensures
        bus_outcome(b) == failed(outcome(r)),
{
    match r {
        Ok(v) => Ok(v),
        Err(e) => Err(BusError::Failed(e.message)),
    }
}

/// Tells a failure that lies in the arguments on the bus.
pub fn to_invalid_args<T>(r: Result<T, Failure>) -> (b: Result<T, BusError>)
    ensures
        bus_outcome(b) == invalid_args(outcome(r)),
{
    match r {
        Ok(v) => Ok(v),
        Err(e) => Err(BusError::InvalidArgs(e.message)),
    }
}

/// What several attempts come to that are all made whatever becomes of them: `res`, or the
/// last failure.
pub open spec fn last_failure(
    res: Result<(), Seq<char>>,
    ends: Seq<Result<(), Seq<char>>>,
) -> Result<(), Seq<char>>
    decreases ends.len(),
{
    if ends.len() == 0 {
        res
    } else {
        match ends.last() {
            Err(e) => Err(e),
            Ok(_) => last_failure(res, ends.drop_last()),
        }
    }
}

/// What several attempts come to that are all made whatever becomes of them.
#[derive(Debug)]
pub struct LastFailure {
    /// What they come to so far.
    pub res: Result<(), Failure>,
}

impl LastFailure {
    /// Nothing was attempted yet beyond what came to `res`.
    pub fn new(res: Result<(), Failure>) -> (r: LastFailure)
        ensures
            outcome(r.res) == last_failure(outcome(res), seq![]),
    {
        LastFailure { res }
    }

    /// Something was attempted: a failure takes the place of what was before.
    pub fn record(&mut self, end: Result<(), Failure>)
        ensures
            outcome(final(self).res) == last_failure(outcome(old(self).res), seq![outcome(end)]),
    {
        proof {
            let ends = seq![outcome(end)];
            assert(ends.drop_last() =~= seq![]);
            reveal_with_fuel(last_failure, 2);
        }
        match end {
            Err(e) => {
                self.res = Err(e);
            },
            Ok(()) => {},
        }
    }
}

/// Attempts that are recorded in two parts count like attempts that are recorded in one.
pub proof fn law_last_failure_in_parts(
    res: Result<(), Seq<char>>,
    a: Seq<Result<(), Seq<char>>>,
    b: Seq<Result<(), Seq<char>>>,
)
    ensures
        last_failure(res, a + b) == last_failure(last_failure(res, a), b),
    decreases b.len(),
{
    if b.len() == 0 {
        assert(a + b =~= a);
    } else {
        assert((a + b).drop_last() =~= a + b.drop_last());
        assert((a + b).last() == b.last());
        law_last_failure_in_parts(res, a, b.drop_last());
    }
}

/// All is well if and only if nothing failed; else the last failure is what counts.
pub proof fn law_last_failure(
    res: Result<(), Seq<char>>,
    ends: Seq<Result<(), Seq<char>>>,
)
    ensures
        last_failure(res, ends) is Ok <==> res is Ok && forall|i: int|
            0 <= i < ends.len() ==> (#[trigger] ends[i]) is Ok,
        forall|i: int|
            0 <= i < ends.len() && (#[trigger] ends[i]) is Err && (forall|j: int|
                i < j < ends.len() ==> (#[trigger] ends[j]) is Ok) ==> last_failure(res, ends)
                == ends[i],
    decreases ends.len(),
{
    if ends.len() > 0 {
        let init = ends.drop_last();
        law_last_failure(res, init);
        assert forall|i: int| 0 <= i < init.len() implies init[i] == ends[i] by {}
        if ends.last() is Ok {
            assert(last_failure(res, ends) == last_failure(res, init));
            if last_failure(res, init) is Ok {
                assert forall|i: int| 0 <= i < ends.len() implies (#[trigger] ends[i]) is Ok by {
                    if i < init.len() {
                        assert(init[i] is Ok);
                    }
                }
            }
            if res is Ok && (forall|i: int| 0 <= i < ends.len() ==> (#[trigger] ends[i]) is Ok) {
                assert forall|i: int| 0 <= i < init.len() implies (#[trigger] init[i]) is Ok by {
                    assert(ends[i] is Ok);
                }
            }
            assert forall|i: int|
                0 <= i < ends.len() && (#[trigger] ends[i]) is Err && (forall|j: int|
                    i < j < ends.len() ==> (#[trigger] ends[j]) is Ok) implies last_failure(
                res,
                ends,
            ) == ends[i] by {
                assert(init[i] is Err);
                assert forall|j: int| i < j < init.len() implies (#[trigger] init[j]) is Ok by {
                    assert(ends[j] is Ok);
                }
            }
        } else {
            assert(ends[ends.len() - 1] is Err);
        }
    }
}

/// Errors keep their words, as failures and on the bus, and successes are untouched.
pub proof fn law_words_kept<T>(v: T, e: Failure, words: Seq<char>)
    ensures
        outcome(Ok::<T, Failure>(v)) == Ok::<T, Seq<char>>(v),
        outcome(Err::<T, Failure>(e)) == Err::<T, Seq<char>>(e.message@),
        failed(Ok::<T, Seq<char>>(v)) == Ok::<T, BusErrorView>(v),
        failed(Err::<T, Seq<char>>(words)) == Err::<T, BusErrorView>(BusErrorView::Failed(words)),
        invalid_args(Ok::<T, Seq<char>>(v)) == Ok::<T, BusErrorView>(v),
        invalid_args(Err::<T, Seq<char>>(words)) == Err::<T, BusErrorView>(
            BusErrorView::InvalidArgs(words),
        ),
{
}

} // verus!

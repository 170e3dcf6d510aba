//! What the end of a process says.

use vstd::prelude::*;

use crate::error::{outcome, Failure};
use crate::number::{decimal_of_signed, decimal_signed};

verus! {

/// The exit code, unless a signal ended the process and it has none.
pub open spec fn exit_code_outcome(code: Option<i32>) -> Result<i32, Seq<char>> {
    match code {
        Some(code) => Ok(code),
        None => Err("Killed by signal"@),
    }
}

/// Success is the exit code zero; another code, or a process without one, is an error.
pub open spec fn script_outcome(code: Result<i32, Seq<char>>) -> Result<(), Seq<char>> {
    match code {
        Ok(code) => if code == 0 {
            Ok(())
        } else {
            Err("Exited "@ + decimal_signed(code as int))
        },
        Err(message) => Err(message),
    }
}

/// The exit code of a script that has ended with the status `code`, which is `None` for a
/// script that a signal ended.
pub fn script_exit_code(code: Option<i32>) -> (r: Result<i32, Failure>)
    ensures
        outcome(r) == exit_code_outcome(code),
{
    match code {
        Some(code) => Ok(code),
        None => Err(Failure::new("Killed by signal")),
    }
}

/// Whether a script that ended with `code` did what it was run for.
pub fn run_script(code: Result<i32, Failure>) -> (r: Result<(), Failure>)
    ensures
        outcome(r) == script_outcome(outcome(code)),
{
    match code {
        Ok(code) => if code == 0 {
            Ok(())
        } else {
            let number = decimal_of_signed(code);
            Err(Failure::with_detail("Exited ", number.as_str()))
        },
        Err(message) => Err(message),
    }
}

/// A script has succeeded if and only if it exited with zero; any other code is told, and a
/// script without a code fails with its own reason.
pub proof fn law_script_succeeds_iff_zero(code: i32, reason: Seq<char>)
    ensures
        script_outcome(Ok(code)) is Ok <==> code == 0,
        code > 0 ==> script_outcome(Ok(code)) == Err::<(), Seq<char>>(
            "Exited "@ + crate::number::decimal(code as nat),
        ),
        code < 0 ==> script_outcome(Ok(code)) == Err::<(), Seq<char>>(
            "Exited "@ + (seq!['-'] + crate::number::decimal((-code) as nat)),
        ),
        script_outcome(Err(reason)) == Err::<(), Seq<char>>(reason),
        exit_code_outcome(Some(code)) == Ok::<i32, Seq<char>>(code),
        exit_code_outcome(None) is Err,
{
    crate::number::law_decimal_signed(code as int);
}

/// A process without exit code was killed, and says so, also as a script.
pub proof fn law_killed_is_told()
    ensures
        exit_code_outcome(None) == Err::<i32, Seq<char>>("Killed by signal"@),
        script_outcome(exit_code_outcome(None)) == Err::<(), Seq<char>>("Killed by signal"@),
{
}

} // verus!

//! The error type of the stack.

use crate::runtime::text::{signed_decimal, to_signed_decimal};
use vstd::prelude::*;

verus! {

/// What a [`Fail`] says: an error number and the text of its cause.
#[verifier::ext_equal]
pub struct FailView {
    pub errno: i32,
    pub cause: Seq<char>,
}

impl FailView {
    /// The failure in one line: its error number and its cause.
    pub open spec fn description(self) -> Seq<char> {
        "Error "@ + signed_decimal(self.errno as int) + ": "@ + self.cause
    }
}

/// A failed operation.
#[derive(Debug)]
pub struct Fail {
    /// Error number, one of those in [`crate::runtime::errno`].
    pub errno: i32,
    /// Cause, for a human reader.
    pub cause: String,
}

impl View for Fail {
    type V = FailView;

    open spec fn view(&self) -> FailView {
        FailView { errno: self.errno, cause: self.cause@ }
    }
}

impl Fail {
    /// Creates a failure out of an error number and a cause.
    pub fn new(errno: i32, cause: &str) -> (fail: Fail)
        ensures
            fail@ == fail_view(errno, cause@),
    {
        Fail { errno, cause: cause.to_owned() }
    }

    /// The failure in one line: its error number and its cause.
    pub fn describe(&self) -> (text: String)
        ensures
            text@ == self@.description(),
    {
        let number = to_signed_decimal(self.errno);
        "Error ".to_owned().concat(number.as_str()).concat(": ").concat(self.cause.as_str())
    }
}

impl Clone for Fail {
    fn clone(&self) -> (fail: Fail)
        ensures
            fail@ == self@,
    {
        Fail { errno: self.errno, cause: self.cause.clone() }
    }
}

/// The view of a failure with error number `errno` and cause `cause`.
pub open spec fn fail_view(errno: i32, cause: Seq<char>) -> FailView {
    FailView { errno, cause }
}

/// A result whose failure is taken by its view.
pub open spec fn result_view<T>(result: Result<T, Fail>) -> Result<T, FailView> {
    match result {
        Ok(value) => Ok(value),
        Err(fail) => Err(fail@),
    }
}

/// Copies a result.
pub fn clone_result<T: Copy>(result: &Result<T, Fail>) -> (copy: Result<T, Fail>)
    ensures
        result_view(copy) == result_view(*result),
{
    match result {
        Ok(value) => Ok(*value),
        Err(fail) => Err(fail.clone()),
    }
}

/// The line that describes a failure starts with the word Error and the error number and ends with the cause.
pub proof fn law_description(fail: FailView)
    ensures
        ({
            let number = signed_decimal(fail.errno as int);
            let line = fail.description();
            &&& line.len() == 8 + number.len() + fail.cause.len()
            &&& line.take(6) == "Error "@
            &&& line.subrange(6, 6 + number.len() as int) == number
            &&& line.subrange(6 + number.len() as int, 8 + number.len() as int) == ": "@
            &&& line.skip(8 + number.len() as int) == fail.cause
        }),
{
    reveal_strlit("Error ");
    reveal_strlit(": ");
    let number = signed_decimal(fail.errno as int);
    let line = fail.description();
    assert(line.take(6) =~= "Error "@);
    assert(line.subrange(6, 6 + number.len() as int) =~= number);
    assert(line.subrange(6 + number.len() as int, 8 + number.len() as int) =~= ": "@);
    assert(line.skip(8 + number.len() as int) =~= fail.cause);
}

/// A failure has the error number and the cause that it was made of, and a result keeps it.
pub proof fn law_failures_are_kept(errno: i32, cause: Seq<char>, result: Result<u64, Fail>)
    ensures
        fail_view(errno, cause).errno == errno,
        fail_view(errno, cause).cause == cause,
        match result {
            Ok(value) => result_view(result) == Ok::<u64, FailView>(value),
            Err(fail) => result_view(result) == Err::<u64, FailView>(fail_view(fail.errno, fail.cause@)),
        },
{
}

} // verus!

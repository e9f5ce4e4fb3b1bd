//! The C++ runtime's exception entry points.

use vstd::prelude::*;
use vstd::string::StringExecFns;
use crate::hostlib::stat::path_at;
use crate::rt::access::{effective, Access};
use crate::rt::caller::{terminated, Caller, GuestException};
use crate::text::pieces::{from_utf8_lossy, push_signed, signed_decimal};

verus! {

/// The exception entry points a module built with `-fexceptions` imports.
///
/// Emscripten's JavaScript glue keeps a stack of thrown objects and hands the
/// current one back to `__cxa_begin_catch`; this is the same. What it does not do
/// is invent a type match: the personality code in the module decides.
#[derive(Debug, Clone, PartialEq, Eq)]
pub struct Cxx {
    /// Exceptions thrown and not yet caught, innermost last.
    pub thrown: Vec<GuestException>,
    /// Those currently being caught, innermost last.
    pub caught: Vec<GuestException>,
}

/// Whether an exception is the innermost of a list with that pointer.
pub open spec fn innermost(list: Seq<GuestException>, pointer: i32, at: int) -> bool {
    &&& 0 <= at < list.len()
    &&& list[at].exception == pointer
    &&& forall|i: int| at < i < list.len() ==> (#[trigger] list[i]).exception != pointer
}

impl Default for Cxx {
    /// Nothing in flight.
    fn default() -> (cxx: Self)
        ensures
            cxx.thrown@ == Seq::<GuestException>::empty(),
            cxx.caught@ == Seq::<GuestException>::empty(),
    {
        Cxx { thrown: Vec::new(), caught: Vec::new() }
    }
}

impl Cxx {
    /// `__cxa_throw(exception, info, destructor)`: records the exception and hands
    /// it back for whoever drives the guest to raise.
    pub fn throw(&mut self, exception: i32, info: i32) -> (thrown: GuestException)
        ensures
            thrown == (GuestException { exception, info }),
            final(self).thrown@ == old(self).thrown@.push(thrown),
            final(self).caught == old(self).caught,
    {
        let thrown: GuestException = GuestException { exception, info };
        self.thrown.push(thrown);
        thrown
    }

    /// `__cxa_begin_catch(pointer)`. Returns the pointer it was given, and moves the
    /// exception to the caught list.
    pub fn begin_catch(&mut self, pointer: i32) -> (same: i32)
        ensures
            same == pointer,
            forall|at: int|
                innermost(old(self).thrown@, pointer, at) ==> final(self).thrown@ == old(
                    self,
                ).thrown@.remove(at) && final(self).caught@ == old(self).caught@.push(
                    old(self).thrown@[at],
                ),
            (forall|i: int|
                0 <= i < old(self).thrown@.len() ==> (#[trigger] old(self).thrown@[i]).exception
                    != pointer) ==> final(self).thrown@ == old(self).thrown@ && final(self).caught@
                == old(self).caught@,
    {
        let ghost before = self.thrown@;
        let mut at: usize = self.thrown.len();
        while at > 0
            invariant
                at <= self.thrown@.len(),
                self.thrown@ == before,
                self.caught@ == old(self).caught@,
                before == old(self).thrown@,
                forall|i: int| at <= i < before.len() ==> (#[trigger] before[i]).exception
                    != pointer,
            decreases at,
        {
            at = at - 1;
            if self.thrown[at].exception == pointer {
                let exception: GuestException = self.thrown.remove(at);
                self.caught.push(exception);
                proof {
                    assert forall|other: int| innermost(before, pointer, other) implies other
                        == at by {
                        if other < at {
                            assert(before[at as int].exception != pointer);
                        }
                    }
                    assert(before[at as int].exception == pointer);
                }
                return pointer;
            }
        }
        pointer
    }

    /// `__cxa_end_catch`.
    pub fn end_catch(&mut self)
        ensures
            final(self).thrown == old(self).thrown,
            final(self).caught@ == if old(self).caught@.len() > 0 {
                old(self).caught@.drop_last()
            } else {
                old(self).caught@
            },
    {
        let _ = self.caught.pop();
    }

    /// `__cxa_rethrow`, and `__resumeException`: takes the exception to raise again,
    /// the one being caught first. `None` where there is nothing to rethrow, which
    /// is a bug in the module and traps.
    pub fn rethrow(&mut self) -> (again: Option<GuestException>)
        ensures
            if old(self).caught@.len() > 0 {
                &&& again == Some(old(self).caught@.last())
                &&& final(self).caught@ == old(self).caught@.drop_last()
                &&& final(self).thrown@ == old(self).thrown@
            } else if old(self).thrown@.len() > 0 {
                &&& again == Some(old(self).thrown@.last())
                &&& final(self).caught@ == old(self).caught@
                &&& final(self).thrown@ == old(self).thrown@.drop_last()
            } else {
                &&& again is None
                &&& final(self).caught@ == old(self).caught@
                &&& final(self).thrown@ == old(self).thrown@
            },
    {
        match self.caught.pop() {
            Some(exception) => Some(exception),
            None => self.thrown.pop(),
        }
    }

    /// `__cxa_uncaught_exceptions`.
    pub fn uncaught(&self) -> (count: i32)
        ensures
            count == (self.thrown@.len() as usize) as i32,
    {
        self.thrown.len() as i32
    }

    /// The exception currently in flight, or 0.
    ///
    /// Not enough to answer `__cxa_find_matching_catch_N`: matching a throw against
    /// a catch clause means comparing types. This is the exception, not the
    /// decision.
    pub fn in_flight(&self) -> (pointer: i32)
        ensures
            pointer == if self.caught@.len() > 0 {
                self.caught@.last().exception
            } else if self.thrown@.len() > 0 {
                self.thrown@.last().exception
            } else {
                0
            },
    {
        if self.caught.len() > 0 {
            self.caught[self.caught.len() - 1].exception
        } else if self.thrown.len() > 0 {
            self.thrown[self.thrown.len() - 1].exception
        } else {
            0
        }
    }
}

/// A failed assertion, in a form a person can read.
pub open spec fn assertion_text(
    expression: Seq<char>,
    file: Seq<char>,
    line: i32,
    function: Seq<char>,
) -> Seq<char> {
    "assertion failed: "@ + expression + " at "@ + file + ":"@ + signed_decimal(line as int)
        + " in "@ + function
}

/// A failed assertion, in a form a person can read.
pub fn describe_assertion(expression: &str, file: &str, line: i32, function: &str) -> (text: String)
    ensures
        text@ == assertion_text(expression@, file@, line, function@),
{
    let mut text: String = "assertion failed: ".to_owned();
    text.append(expression);
    text.append(" at ");
    text.append(file);
    text.append(":");
    push_signed(&mut text, line as i64);
    text.append(" in ");
    text.append(function);
    text
}

/// What `__assert_fail` was told, in a form a person can read.
///
/// A failed assertion in the guest is not something a host can carry on from:
/// whoever drives the guest stops with this text.
pub fn assert_fail<M: Access>(
    caller: &Caller<'_, M>,
    expression: i32,
    file: i32,
    line: i32,
    function: i32,
) -> (text: String)
    requires
        terminated(caller.contents(), effective(expression, 0)),
        terminated(caller.contents(), effective(file, 0)),
        terminated(caller.contents(), effective(function, 0)),
    ensures
        text@ == assertion_text(
            path_at(caller.contents(), expression),
            path_at(caller.contents(), file),
            line,
            path_at(caller.contents(), function),
        ),
{
    let expression: String = from_utf8_lossy(caller.cstring(expression).as_slice());
    let file: String = from_utf8_lossy(caller.cstring(file).as_slice());
    let function: String = from_utf8_lossy(caller.cstring(function).as_slice());
    describe_assertion(expression.as_str(), file.as_str(), line, function.as_str())
}

/// An exception that was just thrown is the innermost with its pointer, and taking
/// it out leaves what was thrown before it.
pub proof fn catching_what_was_thrown(
    thrown: Seq<GuestException>,
    exception: GuestException,
)
    ensures
        innermost(thrown.push(exception), exception.exception, thrown.len() as int),
        thrown.push(exception).remove(thrown.len() as int) == thrown,
{
    assert(thrown.push(exception).remove(thrown.len() as int) =~= thrown);
}

} // verus!

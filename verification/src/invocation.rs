//! The choice between the two things this program does.

use vstd::prelude::*;

verus! {

/// What one run of the program is for.
#[derive(Clone, Copy, Debug, PartialEq, Eq, Structural)]
pub enum Invocation {
    /// Register this program as the handler of the URL scheme.
    Register,
    /// Dispatch the URL given on the command line.
    Dispatch,
}

/// Chooses what to do from the length of the process's argument list, the
/// program's own name counted: a program started with nothing behind its name
/// registers itself, and any other start is a dispatch.
pub fn choose_invocation(argument_count: usize) -> (invocation: Invocation)
    ensures
        invocation == if argument_count == 1 {
            Invocation::Register
        } else {
            Invocation::Dispatch
        },
{
    if argument_count == 1 {
        Invocation::Register
    } else {
        Invocation::Dispatch
    }
}

} // verus!

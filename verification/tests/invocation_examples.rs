use protolaunch::invocation::{choose_invocation, Invocation};

#[test]
fn bare_start_registers() {
    assert_eq!(choose_invocation(1), Invocation::Register);
}

#[test]
fn start_with_arguments_dispatches() {
    assert_eq!(choose_invocation(2), Invocation::Dispatch);
    assert_eq!(choose_invocation(3), Invocation::Dispatch);
    assert_eq!(choose_invocation(usize::MAX), Invocation::Dispatch);
}

#[test]
fn start_without_program_name_dispatches() {
    assert_eq!(choose_invocation(0), Invocation::Dispatch);
}

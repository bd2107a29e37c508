//! The two calls into `iced_native::Command` that the library makes. The
//! module is private to the crate; its functions are `pub` only so that the
//! public contracts of the library can speak of their results through
//! `call_ensures`.
use vstd::prelude::*;
use iced_native::command::Action;
use iced_native::Command;

verus! {

/// `iced_native::Command::actions`: the actions of a command, in order. What
/// they are is not stated here; the library's contracts refer to them through
/// `call_ensures` on this function.
#[verifier::external_body]
pub fn command_actions<T>(command: Command<T>) -> Vec<Action<T>> {
    command.actions()
}

/// `iced_native::Command::none`: a command with no actions. Claimed: every
/// result that `command_actions` can give for it is empty (its `actions`
/// matches `Internal::None` and returns `Vec::new()`).
#[verifier::external_body]
pub fn command_none<T>() -> (command: Command<T>)
    ensures
        forall|actions: Vec<Action<T>>|
            #[trigger] call_ensures(command_actions::<T>, (command,), actions) ==> actions@.len() == 0,
{
    Command::none()
}

} // verus!

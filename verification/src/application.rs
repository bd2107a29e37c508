//! The user's application: the trait that an Iced program implements to be
//! hosted inside the engine, and the component that owns an instance of it.
use vstd::prelude::*;
use iced_native::{Command, Element};

use crate::commands::{command_actions, command_none};

verus! {

/// `iced_native::Command`, carried opaque.
#[verifier::external_type_specification]
#[verifier::external_body]
#[verifier::reject_recursive_types(T)]
pub struct ExCommand<T>(Command<T>);

/// `iced_native::Element`, carried opaque.
#[verifier::external_type_specification]
#[verifier::external_body]
#[verifier::reject_recursive_types(Message)]
#[verifier::reject_recursive_types(Renderer)]
pub struct ExElement<'a, Message, Renderer>(Element<'a, Message, Renderer>);

/// An Iced program that can be hosted inside the engine.
///
/// `Renderer` is the renderer that the program's view is drawn with; the
/// engine integration uses `iced_wgpu::Renderer`.
pub trait BevyIcedApplication: Sized + Send + Sync {
    /// Flags used to set the default state of the application
    type Flags: Send + Sync;
    /// Units of changes that are produced by the view or by external systems
    /// that will be used to update the state of this UI application
    type Message: std::fmt::Debug + Send + Sync;
    /// The renderer that the view is drawn with.
    type Renderer;

    fn new(flags: Self::Flags) -> (Self, Command<Self::Message>);

    /// Applies a message. The provided version leaves the application as it
    /// is and returns a command without actions.
    fn update(&mut self, _message: Self::Message) -> (command: Command<Self::Message>)
        default_ensures
            *final(self) == *old(self),
            forall|actions: Vec<iced_native::command::Action<Self::Message>>|
                #[trigger] call_ensures(command_actions::<Self::Message>, (command,), actions)
                    ==> actions@.len() == 0,
    {
        command_none()
    }

    fn view(&mut self) -> Element<'_, Self::Message, Self::Renderer>;
}

/// The component that owns one running application.
#[derive(Debug)]
pub struct IcedInstance<A: BevyIcedApplication>(pub A);

impl<A: BevyIcedApplication> IcedInstance<A> {
    /// Wraps `application` unchanged.
    pub fn new(application: A) -> (res: Self)
        ensures
            res.0 == application,
    {
        IcedInstance(application)
    }
}

} // verus!

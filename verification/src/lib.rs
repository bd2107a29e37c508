//! Hosting Iced user interfaces inside a Bevy application.
//!
//! The library holds the integration's own logic: how the engine's window
//! input becomes user-interface events ([`input`]), how an application's
//! interface is run for a frame while its layout cache is kept between frames
//! ([`user_interface`], [`systems`]), and the channel through which messages
//! from finished tasks reach the application ([`messages`]).
use vstd::prelude::*;

pub mod application;
mod channel;
mod commands;
mod interface;
pub mod input;
pub mod messages;
pub mod systems;
pub mod user_interface;

pub use application::{BevyIcedApplication, IcedInstance};
pub use iced_native::event::Event as IcedEvent;
pub use iced_native::Command;
pub use messages::IcedUiMessages;
pub use user_interface::IcedCache;

verus! {

/// The plugin that installs the Iced integration into a Bevy application.
#[derive(Debug, Default)]
pub struct IcedPlugin;

} // verus!

//! The calls into `iced_native::UserInterface` that the library makes. The
//! module is private to the crate; its functions are `pub` only so that the
//! public contracts of the library can speak of their results through
//! `call_ensures`. The renderer is passed by value (a mutable reference moved
//! in and handed back) for the same reason.
use vstd::prelude::*;
use iced_native::clipboard::Null;
use iced_native::user_interface::Cache;
use iced_native::{Element, Event, Point, Size, UserInterface};
use std::ops::DerefMut;

verus! {

/// `iced_native::user_interface::Cache::new`: an empty layout cache.
#[verifier::external_body]
pub fn new_cache() -> Cache {
    Cache::new()
}

/// `iced_native::clipboard::Null`: a clipboard that holds nothing.
#[verifier::external_body]
pub fn null_clipboard() -> Null {
    Null
}

/// `iced_native::UserInterface::build`: lays out `root` within `bounds`, with
/// the renderer that `renderer` points to; the reference is handed back.
/// Nothing is stated of the result.
#[verifier::external_body]
pub fn build_interface<'a, M, R: iced_native::Renderer, X: DerefMut<Target = R>>(
    root: Element<'a, M, R>,
    bounds: Size,
    cache: Cache,
    renderer: X,
) -> (UserInterface<'a, M, R>, X) {
    let mut renderer = renderer;
    let ui = UserInterface::build(root, bounds, cache, &mut *renderer);
    (ui, renderer)
}

/// `iced_native::UserInterface::update`: feeds `events` to the widgets with
/// the cursor at `cursor_position`; they publish their messages into the
/// buffer, which is handed back with the interface, the renderer reference and
/// the clipboard. The buffer is handed in empty; which messages end up there
/// depends on the widgets and is not stated.
#[verifier::external_body]
pub fn update_interface<'a, M, R: iced_native::Renderer, X: DerefMut<Target = R>>(
    ui: UserInterface<'a, M, R>,
    events: &Vec<Event>,
    cursor_position: Point,
    renderer: X,
    clipboard: Null,
    messages: Vec<M>,
) -> (UserInterface<'a, M, R>, X, Null, Vec<M>)
    requires
        messages@.len() == 0,
{
    let (mut ui, mut renderer, mut clipboard, mut messages) = (ui, renderer, clipboard, messages);
    ui.update(events.as_slice(), cursor_position, &mut *renderer, &mut clipboard, &mut messages);
    (ui, renderer, clipboard, messages)
}

/// `iced_native::UserInterface::draw`: records the interface's primitives in
/// the renderer. The mouse interaction it returns is not used.
#[verifier::external_body]
pub fn draw_interface<'a, M, R: iced_native::Renderer>(
    ui: &mut UserInterface<'a, M, R>,
    renderer: &mut R,
    cursor_position: Point,
) {
    ui.draw(renderer, cursor_position);
}

/// `iced_native::UserInterface::into_cache`: the layout cache of a finished
/// interface.
#[verifier::external_body]
pub fn interface_cache<'a, M, R: iced_native::Renderer>(ui: UserInterface<'a, M, R>) -> Cache {
    ui.into_cache()
}

/// Whether `published` is what an interface update publishes when it is fed
/// `events` with the cursor at `cursor_position`, starting from an empty
/// buffer.
pub open spec fn publishes<M, R: iced_native::Renderer>(
    events: &Vec<Event>,
    cursor_position: Point,
    published: Vec<M>,
) -> bool {
    exists|
        ui: UserInterface<M, R>,
        renderer: &mut R,
        clipboard: Null,
        buffer: Vec<M>,
        ui_after: UserInterface<M, R>,
        renderer_after: &mut R,
        clipboard_after: Null,
    |
        buffer@.len() == 0 && #[trigger] call_ensures(
            update_interface::<M, R, &mut R>,
            (ui, events, cursor_position, renderer, clipboard, buffer),
            (ui_after, renderer_after, clipboard_after, published),
        )
}

} // verus!

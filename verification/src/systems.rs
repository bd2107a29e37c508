//! The per-frame work of the integration that does not touch the engine's
//! world directly: starting an application from its flags, and running one
//! application's user interface for a frame.
use vstd::prelude::*;
use iced_native::command::Action;
use iced_native::{Command, Event, Point, Size};

use crate::application::{BevyIcedApplication, IcedInstance};
use crate::channel::unbounded_channel;
use crate::interface::publishes;
use crate::messages::IcedUiMessages;
use crate::user_interface::{
    applied_in_order, apply_messages, blocks_of_commands, collect_actions, joined_actions,
    lemma_applied_in_order_split, IcedCache,
};

verus! {

/// Starts an application from its flags: the instance holds the application
/// that `A::new` made from `flags`, the layout cache is ready for the first
/// frame, and the message channel is a fresh one. The command that the
/// application returns on start is dropped.
pub fn start_application<A: BevyIcedApplication>(flags: A::Flags) -> (res: (
    IcedInstance<A>,
    IcedCache,
    IcedUiMessages<A::Message>,
))
    ensures
        exists|command: Command<A::Message>| #[trigger] call_ensures(A::new, (flags,), (res.0.0, command)),
        res.1.has_cache(),
        call_ensures(unbounded_channel::<A::Message>, (), (res.2.tx, res.2.rx)),
{
    let ghost given = flags;
    let (app, _command) = A::new(flags);
    let instance = IcedInstance::new(app);
    let cache = IcedCache::default();
    let messages = IcedUiMessages::default();
    let res = (instance, cache, messages);
    assert(call_ensures(A::new, (given,), (res.0.0, _command)));
    res
}

/// What one frame can give: the messages applied are exactly the ones that
/// `pending_messages` took from `ui_messages` (in arrival order), followed by
/// those that the interface published when fed `events` with the cursor at
/// `cursor_position` (in publishing order); they are applied, in order, once each, to
/// the application as its `view` left it (`view` takes it by `&mut`), leaving
/// `end`; and `actions` are the actions of the resulting commands, command by
/// command.
pub open spec fn frame_outcome<A: BevyIcedApplication>(
    ui_messages: &IcedUiMessages<A::Message>,
    events: &Vec<Event>,
    cursor_position: Point,
    end: A,
    actions: Seq<Action<A::Message>>,
) -> bool where A::Renderer: iced_native::Renderer {
    exists|
        viewed: A,
        pending: Vec<A::Message>,
        published: Vec<A::Message>,
        messages: Seq<A::Message>,
        commands: Seq<Command<A::Message>>,
        blocks: Seq<Vec<Action<A::Message>>>,
    |
        #![trigger call_ensures(IcedUiMessages::<A::Message>::pending_messages, (ui_messages,), pending), publishes::<A::Message, A::Renderer>(events, cursor_position, published), applied_in_order(viewed, messages, commands, end), blocks_of_commands(commands, blocks)]
        {
            &&& call_ensures(IcedUiMessages::<A::Message>::pending_messages, (ui_messages,), pending)
            &&& publishes::<A::Message, A::Renderer>(events, cursor_position, published)
            &&& messages == pending@ + published@
            &&& pending@.len() <= messages.len()
            &&& messages.subrange(0, pending@.len() as int) == pending@
            &&& applied_in_order(viewed, messages, commands, end)
            &&& blocks_of_commands(commands, blocks)
            &&& actions == joined_actions(blocks)
        }
}

/// One frame of one application: takes the messages that arrived through
/// `ui_messages` since the last frame, runs the interface (see
/// [`IcedCache::collect_messages`]), applies every resulting message to the
/// application, pending ones first, in order, and returns the application
/// with the actions of the commands that it produced, command by command. The
/// cache is present again afterwards.
pub fn update_user_interface<A: BevyIcedApplication>(
    application: A,
    cache: &mut IcedCache,
    ui_messages: &IcedUiMessages<A::Message>,
    renderer: &mut A::Renderer,
    size: Size,
    events: &Vec<Event>,
    cursor_position: Point,
) -> (res: (A, Vec<Action<A::Message>>)) where A::Renderer: iced_native::Renderer
    requires
        old(cache).has_cache(),
    ensures
        final(cache).has_cache(),
        frame_outcome(ui_messages, events, cursor_position, res.0, res.1@),
{
    let mut application = application;
    let pending = ui_messages.pending_messages();
    let ghost received = pending;
    let messages = cache.collect_messages(&mut application, renderer, size, events, cursor_position, pending);
    let ghost applied = messages@;
    let ghost viewed = application;
    let ghost published = choose|published: Vec<A::Message>|
        #[trigger] publishes::<A::Message, A::Renderer>(events, cursor_position, published)
            && applied == received@ + published@;
    let (application, commands) = apply_messages(application, messages);
    let ghost produced = commands@;
    let actions = collect_actions(commands);
    proof {
        let blocks = choose|blocks: Seq<Vec<Action<A::Message>>>|
            blocks_of_commands(produced, blocks) && actions@ == joined_actions(blocks);
        assert(call_ensures(IcedUiMessages::<A::Message>::pending_messages, (ui_messages,), received));
        assert(publishes::<A::Message, A::Renderer>(events, cursor_position, published));
        assert(applied == received@ + published@);
        assert(applied_in_order(viewed, applied, produced, application));
        assert(blocks_of_commands(produced, blocks));
    }
    (application, actions)
}

/// In a frame, the messages that were waiting in the channel come first: the
/// application passes through a state `middle` at which every one of them has
/// been applied, in arrival order, and none of the interface's; from there the
/// interface's messages are applied, in publishing order, leaving `end`.
pub proof fn lemma_frame_applies_pending_first<A: BevyIcedApplication>(
    ui_messages: &IcedUiMessages<A::Message>,
    events: &Vec<Event>,
    cursor_position: Point,
    end: A,
    actions: Seq<Action<A::Message>>,
) where A::Renderer: iced_native::Renderer
    requires
        frame_outcome(ui_messages, events, cursor_position, end, actions),
    ensures
        exists|
            viewed: A,
            pending: Vec<A::Message>,
            published: Vec<A::Message>,
            middle: A,
            first_commands: Seq<Command<A::Message>>,
            second_commands: Seq<Command<A::Message>>,
        |
            #![trigger call_ensures(IcedUiMessages::<A::Message>::pending_messages, (ui_messages,), pending), publishes::<A::Message, A::Renderer>(events, cursor_position, published), applied_in_order(viewed, pending@, first_commands, middle), applied_in_order(middle, published@, second_commands, end)]
            {
                &&& call_ensures(IcedUiMessages::<A::Message>::pending_messages, (ui_messages,), pending)
                &&& publishes::<A::Message, A::Renderer>(events, cursor_position, published)
                &&& applied_in_order(viewed, pending@, first_commands, middle)
                &&& applied_in_order(middle, published@, second_commands, end)
            },
{
    let (viewed, pending, published, messages, commands, blocks) = choose|
        viewed: A,
        pending: Vec<A::Message>,
        published: Vec<A::Message>,
        messages: Seq<A::Message>,
        commands: Seq<Command<A::Message>>,
        blocks: Seq<Vec<Action<A::Message>>>,
    |
        #![trigger call_ensures(IcedUiMessages::<A::Message>::pending_messages, (ui_messages,), pending), publishes::<A::Message, A::Renderer>(events, cursor_position, published), applied_in_order(viewed, messages, commands, end), blocks_of_commands(commands, blocks)]
        {
            &&& call_ensures(IcedUiMessages::<A::Message>::pending_messages, (ui_messages,), pending)
            &&& publishes::<A::Message, A::Renderer>(events, cursor_position, published)
            &&& messages == pending@ + published@
            &&& pending@.len() <= messages.len()
            &&& messages.subrange(0, pending@.len() as int) == pending@
            &&& applied_in_order(viewed, messages, commands, end)
            &&& blocks_of_commands(commands, blocks)
            &&& actions == joined_actions(blocks)
        };
    lemma_applied_in_order_split(viewed, pending@, published@, commands, end);
    let n = pending@.len() as int;
    let middle = choose|middle: A|
        #![trigger applied_in_order(viewed, pending@, commands.take(n), middle)]
        applied_in_order(viewed, pending@, commands.take(n), middle)
            && applied_in_order(middle, published@, commands.skip(n), end);
    assert(applied_in_order(viewed, pending@, commands.take(n), middle));
    assert(applied_in_order(middle, published@, commands.skip(n), end));
}

} // verus!

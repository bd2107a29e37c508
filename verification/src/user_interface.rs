//! Building, updating and tearing down an application's user interface once
//! per frame, keeping Iced's layout cache between frames.
use vstd::prelude::*;
use iced_native::clipboard::Null;
use iced_native::command::Action;
use iced_native::user_interface::Cache;
use iced_native::{Command, Element, Event, Point, Size, UserInterface};

use crate::application::BevyIcedApplication;
use crate::commands::command_actions;
use crate::interface::{
    build_interface, draw_interface, interface_cache, new_cache, null_clipboard, publishes,
    update_interface,
};

verus! {

/// `iced_native::user_interface::Cache`, carried opaque.
#[verifier::external_type_specification]
#[verifier::external_body]
pub struct ExCache(Cache);

/// `iced_native::UserInterface`, carried opaque.
#[verifier::external_type_specification]
#[verifier::external_body]
#[verifier::reject_recursive_types(Message)]
#[verifier::reject_recursive_types(Renderer)]
pub struct ExUserInterface<'a, Message, Renderer>(UserInterface<'a, Message, Renderer>);

/// `iced_native::Size`, carried opaque.
#[verifier::external_type_specification]
#[verifier::external_body]
#[verifier::reject_recursive_types(T)]
pub struct ExSize<T>(Size<T>);

/// `iced_native::Point`, carried opaque.
#[verifier::external_type_specification]
#[verifier::external_body]
pub struct ExPoint(Point);

/// `iced_native::Event`, carried opaque.
#[verifier::external_type_specification]
#[verifier::external_body]
pub struct ExEvent(Event);

/// `iced_native::clipboard::Null`, carried opaque.
#[verifier::external_type_specification]
#[verifier::external_body]
pub struct ExNull(Null);

/// `iced_native::command::Action`, carried opaque.
#[verifier::external_type_specification]
#[verifier::external_body]
#[verifier::reject_recursive_types(T)]
pub struct ExAction<T>(Action<T>);

/// The layout cache of one application's user interface. It is present
/// between frames and lent to the interface while one is built.
pub struct IcedCache(Option<Cache>);

impl IcedCache {
    /// Whether the cache is present, so that an interface can be built.
    pub closed spec fn has_cache(&self) -> bool {
        self.0 is Some
    }

    /// Whether the cache is present, so that an interface can be built.
    pub fn is_ready(&self) -> (res: bool)
        ensures
            res == self.has_cache(),
    {
        self.0.is_some()
    }

    /// Builds the interface of `application` within `size`, lending it the
    /// cache, which is then absent until the interface is destroyed.
    pub fn build_user_interface<'a, A: BevyIcedApplication>(
        &mut self,
        application: &'a mut A,
        renderer: &mut A::Renderer,
        size: Size,
    ) -> (ui: UserInterface<'a, A::Message, A::Renderer>) where A::Renderer: iced_native::Renderer
        requires
            old(self).has_cache(),
        ensures
            !final(self).has_cache(),
    {
        let cache = self.0.take().unwrap();
        let view = application.view();
        let (ui, _renderer) = build_interface(view, size, cache, renderer);
        ui
    }

    /// Takes the cache back from a finished interface.
    pub fn destroy_user_interface<Msg, R: iced_native::Renderer>(
        &mut self,
        ui: UserInterface<'_, Msg, R>,
    )
        ensures
            final(self).has_cache(),
    {
        let cache = interface_cache(ui);
        self.0 = Some(cache);
    }

    /// Runs the user interface of `application` for one frame: builds it
    /// within `size`, feeds it `events` with the cursor at `cursor_position`,
    /// draws it and takes the cache back. Returns the messages to apply:
    /// `pending` first, in order, then those the interface published.
    pub fn collect_messages<A: BevyIcedApplication>(
        &mut self,
        application: &mut A,
        renderer: &mut A::Renderer,
        size: Size,
        events: &Vec<Event>,
        cursor_position: Point,
        pending: Vec<A::Message>,
    ) -> (messages: Vec<A::Message>) where A::Renderer: iced_native::Renderer
        requires
            old(self).has_cache(),
        ensures
            final(self).has_cache(),
            pending@.len() <= messages@.len(),
            messages@.subrange(0, pending@.len() as int) == pending@,
            exists|published: Vec<A::Message>|
                #[trigger] publishes::<A::Message, A::Renderer>(events, cursor_position, published)
                    && messages@ == pending@ + published@,
    {
        let ui = self.build_user_interface(application, renderer, size);
        let clipboard = null_clipboard();
        let buffer: Vec<A::Message> = Vec::new();
        let ghost (ui_in, renderer_in, clipboard_in, buffer_in) = (ui, renderer, clipboard, buffer);
        let (mut ui, renderer, _clipboard, mut published) = update_interface(
            ui,
            events,
            cursor_position,
            renderer,
            clipboard,
            buffer,
        );
        proof {
            assert(call_ensures(
                update_interface::<A::Message, A::Renderer, &mut A::Renderer>,
                (ui_in, events, cursor_position, renderer_in, clipboard_in, buffer_in),
                (ui, renderer, _clipboard, published),
            ));
            assert(publishes::<A::Message, A::Renderer>(events, cursor_position, published));
        }
        draw_interface(&mut ui, renderer, cursor_position);
        self.destroy_user_interface(ui);
        let ghost from_interface = published;
        let mut messages = pending;
        messages.append(&mut published);
        proof {
            assert(messages@ == pending@ + from_interface@);
        }
        messages
    }
}

impl Default for IcedCache {
    fn default() -> (res: Self)
        ensures
            res.has_cache(),
    {
        IcedCache(Some(new_cache()))
    }
}

/// Applies one message to `application` and returns the application with the
/// command that its `update` produced.
pub fn apply_message<A: BevyIcedApplication>(application: A, message: A::Message) -> (A, Command<
    A::Message,
>) {
    let mut application = application;
    let command = application.update(message);
    (application, command)
}

/// Whether applying `messages` one by one, in order, to `start` through
/// [`apply_message`] can give the commands `commands`, one per message, and
/// leave the application as `end`.
pub open spec fn applied_in_order<A: BevyIcedApplication>(
    start: A,
    messages: Seq<A::Message>,
    commands: Seq<Command<A::Message>>,
    end: A,
) -> bool {
    exists|states: Seq<A>|
        #![trigger states.len()]
        {
            &&& states.len() == messages.len() + 1
            &&& commands.len() == messages.len()
            &&& states[0] == start
            &&& states[messages.len() as int] == end
            &&& forall|i: int|
                0 <= i < messages.len() ==> #[trigger] call_ensures(
                    apply_message::<A>,
                    (states[i], messages[i]),
                    (states[i + 1], commands[i]),
                )
        }
}

/// Applies each message to `application`, in order, once each, and returns
/// the application with the command that each update produced, in the same
/// order.
pub fn apply_messages<A: BevyIcedApplication>(application: A, messages: Vec<A::Message>) -> (res: (
    A,
    Vec<Command<A::Message>>,
))
    ensures
        applied_in_order(application, messages@, res.1@, res.0),
{
    let ghost all = messages@;
    let mut remaining = messages;
    let mut current = application;
    let mut commands: Vec<Command<A::Message>> = Vec::new();
    let ghost mut states: Seq<A> = seq![current];
    proof {
        assert(all.skip(0) =~= all);
    }
    while remaining.len() > 0
        invariant
            commands@.len() + remaining@.len() == all.len(),
            remaining@ == all.skip(commands@.len() as int),
            states.len() == commands@.len() + 1,
            states[0] == application,
            states[commands@.len() as int] == current,
            forall|i: int|
                0 <= i < commands@.len() ==> #[trigger] call_ensures(
                    apply_message::<A>,
                    (states[i], all[i]),
                    (states[i + 1], commands@[i]),
                ),
        decreases remaining@.len(),
    {
        let ghost k = commands@.len() as int;
        let message = remaining.remove(0);
        assert(message == all[k]);
        let ghost before = current;
        let (next, command) = apply_message(current, message);
        assert(call_ensures(apply_message::<A>, (before, all[k]), (next, command)));
        proof {
            assert(all.skip(k + 1) =~= remaining@);
            states = states.push(next);
        }
        current = next;
        commands.push(command);
    }
    proof {
        assert(commands@.len() == all.len());
        assert(states.len() == all.len() + 1);
    }
    (current, commands)
}

/// The actions of a sequence of per-command action lists, joined in order.
pub open spec fn joined_actions<T>(blocks: Seq<Vec<Action<T>>>) -> Seq<Action<T>> {
    blocks.map_values(|block: Vec<Action<T>>| block@).flatten()
}

/// Whether each block is what `command_actions` gives for the command at the
/// same position.
pub open spec fn blocks_of_commands<T>(commands: Seq<Command<T>>, blocks: Seq<Vec<Action<T>>>) -> bool {
    &&& blocks.len() == commands.len()
    &&& forall|i: int|
        0 <= i < commands.len() ==> #[trigger] call_ensures(
            command_actions::<T>,
            (commands[i],),
            blocks[i],
        )
}

/// All the actions of `commands`, command by command: one block per command,
/// in command order, each block being the actions of that command; as many
/// actions come out as the blocks hold together.
pub fn collect_actions<T>(commands: Vec<Command<T>>) -> (actions: Vec<Action<T>>)
    ensures
        exists|blocks: Seq<Vec<Action<T>>>|
            blocks_of_commands(commands@, blocks) && actions@ == #[trigger] joined_actions(blocks)
                && actions@.len() == blocks_len(blocks),
{
    let ghost all = commands@;
    let mut remaining = commands;
    let mut actions: Vec<Action<T>> = Vec::new();
    let ghost mut blocks: Seq<Vec<Action<T>>> = Seq::empty();
    proof {
        assert(joined_actions(blocks) =~= Seq::empty());
        assert(all.skip(0) =~= all);
    }
    while remaining.len() > 0
        invariant
            blocks.len() + remaining@.len() == all.len(),
            remaining@ == all.skip(blocks.len() as int),
            blocks_of_commands(all.take(blocks.len() as int), blocks),
            actions@ == joined_actions(blocks),
        decreases remaining@.len(),
    {
        let ghost k = blocks.len() as int;
        let command = remaining.remove(0);
        assert(command == all[k]);
        let mut more = command_actions(command);
        let ghost block = more;
        proof {
            let mapped = blocks.map_values(|b: Vec<Action<T>>| b@);
            mapped.lemma_flatten_push(block@);
            assert(blocks.push(block).map_values(|b: Vec<Action<T>>| b@) =~= mapped.push(block@));
            assert(all.skip(k + 1) =~= remaining@);
            let next = blocks.push(block);
            assert forall|i: int| 0 <= i < k + 1 implies #[trigger] call_ensures(
                command_actions::<T>,
                (all.take(k + 1)[i],),
                next[i],
            ) by {
                if i < k {
                    assert(all.take(k + 1)[i] == all.take(k)[i]);
                }
            }
            blocks = next;
        }
        actions.append(&mut more);
    }
    proof {
        assert(all.take(blocks.len() as int) =~= all);
        lemma_joined_actions_len(blocks);
    }
    actions
}

/// Joining no blocks gives no actions.
pub proof fn lemma_joined_actions_empty<T>()
    ensures
        joined_actions(Seq::<Vec<Action<T>>>::empty()) == Seq::<Action<T>>::empty(),
{
    assert(Seq::<Vec<Action<T>>>::empty().map_values(|block: Vec<Action<T>>| block@) =~= Seq::<
        Seq<Action<T>>,
    >::empty());
}

/// Joining keeps every action of every block, in order: adding a block adds
/// exactly its actions, after the others.
pub proof fn lemma_joined_actions_push<T>(blocks: Seq<Vec<Action<T>>>, block: Vec<Action<T>>)
    ensures
        joined_actions(blocks.push(block)) == joined_actions(blocks) + block@,
{
    let mapped = blocks.map_values(|b: Vec<Action<T>>| b@);
    mapped.lemma_flatten_push(block@);
    assert(blocks.push(block).map_values(|b: Vec<Action<T>>| b@) =~= mapped.push(block@));
}

/// As many actions come out as the blocks hold together.
pub proof fn lemma_joined_actions_len<T>(blocks: Seq<Vec<Action<T>>>)
    ensures
        joined_actions(blocks).len() == blocks_len(blocks),
    decreases blocks.len(),
{
    if blocks.len() == 0 {
        lemma_joined_actions_empty::<T>();
    } else {
        let rest = blocks.drop_last();
        assert(rest.push(blocks.last()) =~= blocks);
        lemma_joined_actions_push(rest, blocks.last());
        lemma_joined_actions_len(rest);
    }
}

/// The total number of actions that `blocks` hold.
pub open spec fn blocks_len<T>(blocks: Seq<Vec<Action<T>>>) -> nat
    decreases blocks.len(),
{
    if blocks.len() == 0 {
        0
    } else {
        blocks_len(blocks.drop_last()) + blocks.last()@.len()
    }
}

/// No commands go with no blocks, and a further command goes with a further
/// block exactly when that block is what `command_actions` gives for it.
pub proof fn lemma_blocks_of_commands_push<T>(
    commands: Seq<Command<T>>,
    blocks: Seq<Vec<Action<T>>>,
    command: Command<T>,
    block: Vec<Action<T>>,
)
    ensures
        blocks_of_commands(Seq::<Command<T>>::empty(), Seq::<Vec<Action<T>>>::empty()),
        blocks_of_commands(commands.push(command), blocks.push(block)) <==> (blocks_of_commands(
            commands,
            blocks,
        ) && call_ensures(command_actions::<T>, (command,), block)),
{
    let cs = commands.push(command);
    let bs = blocks.push(block);
    if blocks_of_commands(cs, bs) {
        assert(blocks.len() == commands.len());
        assert forall|i: int| 0 <= i < commands.len() implies #[trigger] call_ensures(
            command_actions::<T>,
            (commands[i],),
            blocks[i],
        ) by {
            assert(cs[i] == commands[i] && bs[i] == blocks[i]);
        }
        assert(cs[commands.len() as int] == command && bs[commands.len() as int] == block);
    }
    if blocks_of_commands(commands, blocks) && call_ensures(command_actions::<T>, (command,), block) {
        assert forall|i: int| 0 <= i < cs.len() implies #[trigger] call_ensures(
            command_actions::<T>,
            (cs[i],),
            bs[i],
        ) by {
            if i < commands.len() {
                assert(cs[i] == commands[i] && bs[i] == blocks[i]);
            }
        }
    }
}

/// Applying no messages gives no commands and leaves the application as it
/// was.
pub proof fn lemma_applied_in_order_empty<A: BevyIcedApplication>(start: A, end: A)
    ensures
        applied_in_order(start, Seq::<A::Message>::empty(), Seq::<Command<A::Message>>::empty(), end)
            <==> start == end,
{
    let ms = Seq::<A::Message>::empty();
    let cs = Seq::<Command<A::Message>>::empty();
    if start == end {
        let states = seq![start];
        assert(states.len() == ms.len() + 1);
    }
    if applied_in_order(start, ms, cs, end) {
        let states = choose|states: Seq<A>|
            #![trigger states.len()]
            {
                &&& states.len() == ms.len() + 1
                &&& cs.len() == ms.len()
                &&& states[0] == start
                &&& states[ms.len() as int] == end
                &&& forall|i: int|
                    0 <= i < ms.len() ==> #[trigger] call_ensures(
                        apply_message::<A>,
                        (states[i], ms[i]),
                        (states[i + 1], cs[i]),
                    )
            };
        assert(states.len() == 1);
    }
}

/// Applying one more message means applying the others first, in order, and
/// then applying it once, through [`apply_message`], to the application they
/// left, giving one more command.
pub proof fn lemma_applied_in_order_push<A: BevyIcedApplication>(
    start: A,
    messages: Seq<A::Message>,
    commands: Seq<Command<A::Message>>,
    middle: A,
    message: A::Message,
    command: Command<A::Message>,
    end: A,
)
    requires
        applied_in_order(start, messages, commands, middle),
        call_ensures(apply_message::<A>, (middle, message), (end, command)),
    ensures
        applied_in_order(start, messages.push(message), commands.push(command), end),
{
    let states = choose|states: Seq<A>|
        #![trigger states.len()]
        {
            &&& states.len() == messages.len() + 1
            &&& commands.len() == messages.len()
            &&& states[0] == start
            &&& states[messages.len() as int] == middle
            &&& forall|i: int|
                0 <= i < messages.len() ==> #[trigger] call_ensures(
                    apply_message::<A>,
                    (states[i], messages[i]),
                    (states[i + 1], commands[i]),
                )
        };
    let ms = messages.push(message);
    let cs = commands.push(command);
    let next = states.push(end);
    assert(next.len() == ms.len() + 1);
    assert forall|i: int| 0 <= i < ms.len() implies #[trigger] call_ensures(
        apply_message::<A>,
        (next[i], ms[i]),
        (next[i + 1], cs[i]),
    ) by {
        if i < messages.len() {
            assert(next[i] == states[i] && next[i + 1] == states[i + 1]);
            assert(ms[i] == messages[i] && cs[i] == commands[i]);
        }
    }
}

/// Conversely, a run over one more message splits into a run over the others
/// and one application of the last message to the application they left.
pub proof fn lemma_applied_in_order_last<A: BevyIcedApplication>(
    start: A,
    messages: Seq<A::Message>,
    message: A::Message,
    commands: Seq<Command<A::Message>>,
    end: A,
)
    requires
        applied_in_order(start, messages.push(message), commands, end),
    ensures
        commands.len() == messages.len() + 1,
        exists|middle: A|
            applied_in_order(start, messages, commands.drop_last(), middle) && #[trigger] call_ensures(
                apply_message::<A>,
                (middle, message),
                (end, commands.last()),
            ),
{
    let ms = messages.push(message);
    let states = choose|states: Seq<A>|
        #![trigger states.len()]
        {
            &&& states.len() == ms.len() + 1
            &&& commands.len() == ms.len()
            &&& states[0] == start
            &&& states[ms.len() as int] == end
            &&& forall|i: int|
                0 <= i < ms.len() ==> #[trigger] call_ensures(
                    apply_message::<A>,
                    (states[i], ms[i]),
                    (states[i + 1], commands[i]),
                )
        };
    let n = messages.len() as int;
    let middle = states[n];
    let prefix = states.take(n + 1);
    let cs = commands.drop_last();
    assert(prefix.len() == messages.len() + 1);
    assert forall|i: int| 0 <= i < messages.len() implies #[trigger] call_ensures(
        apply_message::<A>,
        (prefix[i], messages[i]),
        (prefix[i + 1], cs[i]),
    ) by {
        assert(ms[i] == messages[i]);
        assert(call_ensures(apply_message::<A>, (states[i], ms[i]), (states[i + 1], commands[i])));
    }
    assert(applied_in_order(start, messages, cs, middle));
    assert(call_ensures(apply_message::<A>, (states[n], ms[n]), (states[n + 1], commands[n])));
}

/// Applying two runs of messages in turn is one run over both: the first run
/// from `start` to `middle`, the second from `middle` to `end`, make a run
/// over `first + second` from `start` to `end` whose commands are those of
/// the first run followed by those of the second.
pub proof fn lemma_applied_in_order_join<A: BevyIcedApplication>(
    start: A,
    first: Seq<A::Message>,
    first_commands: Seq<Command<A::Message>>,
    middle: A,
    second: Seq<A::Message>,
    second_commands: Seq<Command<A::Message>>,
    end: A,
)
    requires
        applied_in_order(start, first, first_commands, middle),
        applied_in_order(middle, second, second_commands, end),
    ensures
        applied_in_order(start, first + second, first_commands + second_commands, end),
{
    let s1 = choose|states: Seq<A>|
        #![trigger states.len()]
        {
            &&& states.len() == first.len() + 1
            &&& first_commands.len() == first.len()
            &&& states[0] == start
            &&& states[first.len() as int] == middle
            &&& forall|i: int|
                0 <= i < first.len() ==> #[trigger] call_ensures(
                    apply_message::<A>,
                    (states[i], first[i]),
                    (states[i + 1], first_commands[i]),
                )
        };
    let s2 = choose|states: Seq<A>|
        #![trigger states.len()]
        {
            &&& states.len() == second.len() + 1
            &&& second_commands.len() == second.len()
            &&& states[0] == middle
            &&& states[second.len() as int] == end
            &&& forall|i: int|
                0 <= i < second.len() ==> #[trigger] call_ensures(
                    apply_message::<A>,
                    (states[i], second[i]),
                    (states[i + 1], second_commands[i]),
                )
        };
    let n = first.len() as int;
    let ms = first + second;
    let cs = first_commands + second_commands;
    let states = s1 + s2.skip(1);
    assert(states.len() == ms.len() + 1);
    assert(states[0] == start);
    assert(states[ms.len() as int] == s2[second.len() as int]);
    assert forall|i: int| 0 <= i < ms.len() implies #[trigger] call_ensures(
        apply_message::<A>,
        (states[i], ms[i]),
        (states[i + 1], cs[i]),
    ) by {
        if i < n {
            assert(states[i] == s1[i] && states[i + 1] == s1[i + 1]);
            assert(ms[i] == first[i] && cs[i] == first_commands[i]);
        } else {
            let j = i - n;
            assert(states[i] == s2[j]);
            assert(states[i + 1] == s2[j + 1]);
            assert(ms[i] == second[j] && cs[i] == second_commands[j]);
        }
    }
}

/// Conversely, a run over `first + second` passes through an application
/// `middle` at which every message of `first` has been applied and none of
/// `second`: it is a run over `first` to `middle` followed by a run over
/// `second` from `middle`.
pub proof fn lemma_applied_in_order_split<A: BevyIcedApplication>(
    start: A,
    first: Seq<A::Message>,
    second: Seq<A::Message>,
    commands: Seq<Command<A::Message>>,
    end: A,
)
    requires
        applied_in_order(start, first + second, commands, end),
    ensures
        commands.len() == first.len() + second.len(),
        exists|middle: A|
            #![trigger applied_in_order(start, first, commands.take(first.len() as int), middle)]
            applied_in_order(start, first, commands.take(first.len() as int), middle)
                && applied_in_order(middle, second, commands.skip(first.len() as int), end),
{
    let ms = first + second;
    let states = choose|states: Seq<A>|
        #![trigger states.len()]
        {
            &&& states.len() == ms.len() + 1
            &&& commands.len() == ms.len()
            &&& states[0] == start
            &&& states[ms.len() as int] == end
            &&& forall|i: int|
                0 <= i < ms.len() ==> #[trigger] call_ensures(
                    apply_message::<A>,
                    (states[i], ms[i]),
                    (states[i + 1], commands[i]),
                )
        };
    let n = first.len() as int;
    let middle = states[n];
    let s1 = states.take(n + 1);
    let s2 = states.skip(n);
    let c1 = commands.take(n);
    let c2 = commands.skip(n);
    assert(s1.len() == first.len() + 1);
    assert forall|i: int| 0 <= i < first.len() implies #[trigger] call_ensures(
        apply_message::<A>,
        (s1[i], first[i]),
        (s1[i + 1], c1[i]),
    ) by {
        assert(ms[i] == first[i]);
        assert(call_ensures(apply_message::<A>, (states[i], ms[i]), (states[i + 1], commands[i])));
    }
    assert(applied_in_order(start, first, c1, middle));
    assert(s2.len() == second.len() + 1);
    assert(s2[second.len() as int] == end);
    assert forall|i: int| 0 <= i < second.len() implies #[trigger] call_ensures(
        apply_message::<A>,
        (s2[i], second[i]),
        (s2[i + 1], c2[i]),
    ) by {
        assert(ms[n + i] == second[i]);
        assert(call_ensures(
            apply_message::<A>,
            (states[n + i], ms[n + i]),
            (states[n + i + 1], commands[n + i]),
        ));
    }
    assert(applied_in_order(middle, second, c2, end));
}

} // verus!

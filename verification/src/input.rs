//! Turning the engine's window input into user-interface events.
//!
//! The engine reports input as separate streams (cursor moves, cursor
//! entering and leaving the window, mouse buttons, keys and typed
//! characters). Each frame they become one ordered batch of
//! user-interface events, and the tracked cursor position is updated.
//!
//! Positions (`P`) and key codes (`K`) are carried through unchanged: the
//! caller hands in positions already expressed in the user interface's
//! coordinate frame and key codes already expressed in its key set.
use vstd::prelude::*;

verus! {

/// A mouse button as the game engine reports it.
#[derive(Debug, Clone, Copy, PartialEq, Eq, Structural)]
pub enum MouseButton {
    Left,
    Right,
    Middle,
    Other(u16),
}

/// A mouse button that the user interface reacts to.
#[derive(Debug, Clone, Copy, PartialEq, Eq, Structural)]
pub enum UiButton {
    Left,
    Right,
    Middle,
}

/// A mouse button changing state.
#[derive(Debug, Clone, Copy, PartialEq, Eq, Structural)]
pub struct ButtonInput {
    pub button: MouseButton,
    pub pressed: bool,
}

/// A key changing state; `key_code` is absent for keys that have no code.
#[derive(Debug, Clone, Copy, PartialEq, Eq)]
pub struct KeyInput<K> {
    pub key_code: Option<K>,
    pub pressed: bool,
}

/// Everything the engine reported since the previous frame, stream by stream,
/// each stream in the order the engine delivered it.
#[derive(Debug, Clone, PartialEq, Eq)]
pub struct InputFrame<P, K> {
    /// New cursor positions, in the user interface's coordinate frame.
    pub cursor_moves: Vec<P>,
    /// How many times the cursor entered the window.
    pub cursor_entries: usize,
    /// How many times the cursor left the window.
    pub cursor_exits: usize,
    pub buttons: Vec<ButtonInput>,
    pub keys: Vec<KeyInput<K>>,
    pub characters: Vec<char>,
}

/// An event delivered to the user interface.
#[derive(Debug, Clone, Copy, PartialEq, Eq)]
pub enum UiEvent<P, K> {
    CursorMoved(P),
    CursorEntered,
    CursorLeft,
    ButtonPressed(UiButton),
    ButtonReleased(UiButton),
    KeyPressed(K),
    KeyReleased(K),
    CharacterReceived(char),
}

/// The user-interface button that an engine button stands for, if any.
pub open spec fn ui_button_of(button: MouseButton) -> Option<UiButton> {
    match button {
        MouseButton::Left => Some(UiButton::Left),
        MouseButton::Right => Some(UiButton::Right),
        MouseButton::Middle => Some(UiButton::Middle),
        MouseButton::Other(_) => None,
    }
}

/// The event that a button change produces, if the button is one the user
/// interface reacts to.
pub open spec fn button_event<P, K>(input: ButtonInput) -> Option<UiEvent<P, K>> {
    match ui_button_of(input.button) {
        Some(b) => Some(if input.pressed { UiEvent::ButtonPressed(b) } else { UiEvent::ButtonReleased(b) }),
        None => None,
    }
}

/// The event that a key change produces, if the key has a code.
pub open spec fn key_event<P, K>(input: KeyInput<K>) -> Option<UiEvent<P, K>> {
    match input.key_code {
        Some(k) => Some(if input.pressed { UiEvent::KeyPressed(k) } else { UiEvent::KeyReleased(k) }),
        None => None,
    }
}

/// `n` copies of one event.
pub open spec fn repeated<P, K>(n: nat, e: UiEvent<P, K>) -> Seq<UiEvent<P, K>> {
    Seq::new(n, |i: int| e)
}

pub open spec fn move_events<P, K>(moves: Seq<P>) -> Seq<UiEvent<P, K>> {
    moves.map_values(|p: P| UiEvent::<P, K>::CursorMoved(p))
}

pub open spec fn button_events<P, K>(buttons: Seq<ButtonInput>) -> Seq<UiEvent<P, K>> {
    buttons.filter_map(|b: ButtonInput| button_event::<P, K>(b))
}

pub open spec fn key_events<P, K>(keys: Seq<KeyInput<K>>) -> Seq<UiEvent<P, K>> {
    keys.filter_map(|k: KeyInput<K>| key_event::<P, K>(k))
}

pub open spec fn character_events<P, K>(typed: Seq<char>) -> Seq<UiEvent<P, K>>
    decreases typed.len(),
{
    if typed.len() == 0 {
        Seq::empty()
    } else {
        character_events::<P, K>(typed.drop_last()).push(UiEvent::CharacterReceived(typed.last()))
    }
}

/// The events of one frame: all cursor moves, then the entries, then the
/// exits, then the recognised button changes, then the key changes that carry
/// a key code, then the typed characters; each group in delivery order.
pub open spec fn frame_events<P, K>(frame: InputFrame<P, K>) -> Seq<UiEvent<P, K>> {
    move_events::<P, K>(frame.cursor_moves@)
        + repeated::<P, K>(frame.cursor_entries as nat, UiEvent::CursorEntered)
        + repeated::<P, K>(frame.cursor_exits as nat, UiEvent::CursorLeft)
        + button_events::<P, K>(frame.buttons@)
        + key_events::<P, K>(frame.keys@)
        + character_events::<P, K>(frame.characters@)
}

/// Where the cursor is after a frame: at the last reported position, or where
/// it was if it did not move.
pub open spec fn cursor_after<P>(cursor: P, moves: Seq<P>) -> P {
    if moves.len() == 0 {
        cursor
    } else {
        moves.last()
    }
}

/// Maps an engine mouse button to the user-interface button; other buttons
/// have none.
pub fn ui_button(button: MouseButton) -> (res: Option<UiButton>)
    ensures
        res == ui_button_of(button),
{
    match button {
        MouseButton::Left => Some(UiButton::Left),
        MouseButton::Right => Some(UiButton::Right),
        MouseButton::Middle => Some(UiButton::Middle),
        MouseButton::Other(_) => None,
    }
}

/// Appends a cursor-moved event for each position, in order.
fn push_moves<P: Copy, K: Copy>(events: &mut Vec<UiEvent<P, K>>, moves: &Vec<P>)
    ensures
        final(events)@ == old(events)@ + move_events::<P, K>(moves@),
{
    let ghost start = events@;
    let n = moves.len();
    let mut i: usize = 0;
    while i < n
        invariant
            i <= n,
            n == moves@.len(),
            events@ == start + move_events::<P, K>(moves@.take(i as int)),
        decreases n - i,
    {
        let p = moves[i];
        events.push(UiEvent::CursorMoved(p));
        proof {
            assert(moves@.take(i + 1) =~= moves@.take(i as int).push(p));
            assert(move_events::<P, K>(moves@.take(i + 1)) =~= move_events::<P, K>(
                moves@.take(i as int),
            ).push(UiEvent::CursorMoved(p)));
        }
        i = i + 1;
    }
    proof {
        assert(moves@.take(n as int) =~= moves@);
    }
}

/// Appends `count` copies of `event`.
fn push_repeated<P: Copy, K: Copy>(events: &mut Vec<UiEvent<P, K>>, count: usize, event: UiEvent<P, K>)
    ensures
        final(events)@ == old(events)@ + repeated::<P, K>(count as nat, event),
{
    let ghost start = events@;
    let mut j: usize = 0;
    while j < count
        invariant
            j <= count,
            events@ == start + repeated::<P, K>(j as nat, event),
        decreases count - j,
    {
        events.push(event);
        j = j + 1;
        proof {
            assert(repeated::<P, K>(j as nat, event) =~= repeated::<P, K>((j - 1) as nat, event).push(
                event,
            ));
        }
    }
}

/// Appends the event of each recognised button change, in order.
fn push_buttons<P: Copy, K: Copy>(events: &mut Vec<UiEvent<P, K>>, buttons: &Vec<ButtonInput>)
    ensures
        final(events)@ == old(events)@ + button_events::<P, K>(buttons@),
{
    let ghost start = events@;
    let n = buttons.len();
    let mut b: usize = 0;
    while b < n
        invariant
            b <= n,
            n == buttons@.len(),
            events@ == start + button_events::<P, K>(buttons@.take(b as int)),
        decreases n - b,
    {
        let input = buttons[b];
        proof {
            buttons@.lemma_filter_map_take_succ(|x: ButtonInput| button_event::<P, K>(x), b as int);
        }
        match ui_button(input.button) {
            Some(button) => {
                if input.pressed {
                    events.push(UiEvent::ButtonPressed(button));
                } else {
                    events.push(UiEvent::ButtonReleased(button));
                }
            },
            None => {},
        }
        b = b + 1;
    }
    proof {
        assert(buttons@.take(n as int) =~= buttons@);
    }
}

/// Appends the event of each key change that carries a key code, in order.
fn push_keys<P: Copy, K: Copy>(events: &mut Vec<UiEvent<P, K>>, keys: &Vec<KeyInput<K>>)
    ensures
        final(events)@ == old(events)@ + key_events::<P, K>(keys@),
{
    let ghost start = events@;
    let n = keys.len();
    let mut k: usize = 0;
    while k < n
        invariant
            k <= n,
            n == keys@.len(),
            events@ == start + key_events::<P, K>(keys@.take(k as int)),
        decreases n - k,
    {
        let input = keys[k];
        proof {
            keys@.lemma_filter_map_take_succ(|x: KeyInput<K>| key_event::<P, K>(x), k as int);
        }
        match input.key_code {
            Some(code) => {
                if input.pressed {
                    events.push(UiEvent::KeyPressed(code));
                } else {
                    events.push(UiEvent::KeyReleased(code));
                }
            },
            None => {},
        }
        k = k + 1;
    }
    proof {
        assert(keys@.take(n as int) =~= keys@);
    }
}

/// The event for one typed character.
fn character_event<P, K>(ch: char) -> (e: UiEvent<P, K>)
    ensures
        e == UiEvent::<P, K>::CharacterReceived(ch),
{
    UiEvent::CharacterReceived(ch)
}

/// Appends a character event for each typed character, in order.
fn push_characters<P: Copy, K: Copy>(events: &mut Vec<UiEvent<P, K>>, typed: &Vec<char>)
    ensures
        final(events)@ == old(events)@ + character_events::<P, K>(typed@),
{
    let ghost start = events@;
    let n = typed.len();
    let mut i: usize = 0;
    while i < n
        invariant
            i <= n,
            n == typed@.len(),
            events@ == start + character_events::<P, K>(typed@.take(i as int)),
        decreases n - i,
    {
        let ch = typed[i];
        events.push(character_event(ch));
        proof {
            assert(typed@.take(i + 1).drop_last() =~= typed@.take(i as int));
            assert(typed@.take(i + 1).last() == ch);
        }
        i = i + 1;
    }
    proof {
        assert(typed@.take(n as int) =~= typed@);
    }
}

/// The cursor position after a frame's moves.
fn last_position<P: Copy>(cursor: P, moves: &Vec<P>) -> (res: P)
    ensures
        res == cursor_after(cursor, moves@),
{
    let n = moves.len();
    if n == 0 {
        cursor
    } else {
        moves[n - 1]
    }
}

/// Turns one frame of engine input into user-interface events, and
/// returns them with the cursor position after the frame.
pub fn interpret_input<P: Copy, K: Copy>(cursor: P, frame: &InputFrame<P, K>) -> (res: (
    Vec<UiEvent<P, K>>,
    P,
))
    ensures
        res.0@ == frame_events(*frame),
        res.1 == cursor_after(cursor, frame.cursor_moves@),
{
    let mut events: Vec<UiEvent<P, K>> = Vec::new();
    push_moves(&mut events, &frame.cursor_moves);
    push_repeated(&mut events, frame.cursor_entries, UiEvent::CursorEntered);
    push_repeated(&mut events, frame.cursor_exits, UiEvent::CursorLeft);
    push_buttons(&mut events, &frame.buttons);
    push_keys(&mut events, &frame.keys);
    push_characters(&mut events, &frame.characters);
    let position = last_position(cursor, &frame.cursor_moves);
    proof {
        assert(events@ =~= frame_events(*frame));
    }
    (events, position)
}

/// Whether the user interface reacts to a button change.
pub open spec fn is_recognised(input: ButtonInput) -> bool {
    ui_button_of(input.button) is Some
}

/// Whether a key change carries a key code.
pub open spec fn has_key_code<K>(input: KeyInput<K>) -> bool {
    input.key_code is Some
}

proof fn lemma_button_events_len<P, K>(buttons: Seq<ButtonInput>)
    ensures
        button_events::<P, K>(buttons).len() == buttons.filter(|b: ButtonInput| is_recognised(b)).len(),
    decreases buttons.len(),
{
    reveal(Seq::filter);
    if buttons.len() > 0 {
        lemma_button_events_len::<P, K>(buttons.drop_last());
    }
}

proof fn lemma_key_events_len<P, K>(keys: Seq<KeyInput<K>>)
    ensures
        key_events::<P, K>(keys).len() == keys.filter(|k: KeyInput<K>| has_key_code(k)).len(),
    decreases keys.len(),
{
    reveal(Seq::filter);
    if keys.len() > 0 {
        lemma_key_events_len::<P, K>(keys.drop_last());
    }
}

proof fn lemma_character_events_len<P, K>(typed: Seq<char>)
    ensures
        character_events::<P, K>(typed).len() == typed.len(),
    decreases typed.len(),
{
    if typed.len() > 0 {
        lemma_character_events_len::<P, K>(typed.drop_last());
        let rest = character_events::<P, K>(typed.drop_last());
        let e = UiEvent::<P, K>::CharacterReceived(typed.last());
        vstd::seq::axiom_seq_push_len(rest, e);
    }
}

/// One event per input that the user interface reacts to: every cursor move,
/// entry, exit and typed character gives exactly one event, every change of a
/// left, right or middle button gives one, every key change with a key code
/// gives one, and nothing else gives any.
pub proof fn lemma_one_event_per_recognised_input<P, K>(frame: InputFrame<P, K>)
    ensures
        frame_events(frame).len() == frame.cursor_moves@.len() + frame.cursor_entries
            + frame.cursor_exits + frame.buttons@.filter(|b: ButtonInput| is_recognised(b)).len()
            + frame.keys@.filter(|k: KeyInput<K>| has_key_code(k)).len() + frame.characters@.len(),
{
    lemma_button_events_len::<P, K>(frame.buttons@);
    lemma_key_events_len::<P, K>(frame.keys@);
    lemma_character_events_len::<P, K>(frame.characters@);
}

/// Tracking the cursor frame by frame ends where tracking all the moves of
/// both frames at once does: the cursor is at the last reported position.
pub proof fn lemma_cursor_tracking_composes<P>(cursor: P, first: Seq<P>, second: Seq<P>)
    ensures
        cursor_after(cursor_after(cursor, first), second) == cursor_after(cursor, first + second),
{
}

proof fn lemma_filter_map_add<A, B>(a: Seq<A>, b: Seq<A>, f: spec_fn(A) -> Option<B>)
    ensures
        (a + b).filter_map(f) == a.filter_map(f) + b.filter_map(f),
    decreases b.len(),
{
    if b.len() == 0 {
        assert(a + b =~= a);
        assert(a.filter_map(f) + b.filter_map(f) =~= a.filter_map(f));
    } else {
        let rest = b.drop_last();
        lemma_filter_map_add(a, rest, f);
        assert((a + b).drop_last() =~= a + rest);
        assert((a + b).last() == b.last());
        match f(b.last()) {
            Some(x) => {
                assert(a.filter_map(f) + b.filter_map(f) =~= (a.filter_map(f) + rest.filter_map(f)).push(x));
            },
            None => {},
        }
    }
}

proof fn lemma_character_events_add<P, K>(a: Seq<char>, b: Seq<char>)
    ensures
        character_events::<P, K>(a + b) == character_events::<P, K>(a) + character_events::<P, K>(b),
    decreases b.len(),
{
    if b.len() == 0 {
        assert(a + b =~= a);
        assert(character_events::<P, K>(a) + character_events::<P, K>(b) =~= character_events::<P, K>(a));
    } else {
        let rest = b.drop_last();
        lemma_character_events_add::<P, K>(a, rest);
        assert((a + b).drop_last() =~= a + rest);
        assert((a + b).last() == b.last());
        let e = UiEvent::<P, K>::CharacterReceived(b.last());
        let x = character_events::<P, K>(a);
        let y = character_events::<P, K>(rest);
        let l = (x + y).push(e);
        let r = x + y.push(e);
        vstd::seq::axiom_seq_push_len(y, e);
        vstd::seq::axiom_seq_push_len(x + y, e);
        vstd::seq::axiom_seq_add_len(x, y);
        vstd::seq::axiom_seq_add_len(x, y.push(e));
        assert forall|i: int| 0 <= i < l.len() implies l[i] == r[i] by {
            if i < x.len() + y.len() {
                vstd::seq::axiom_seq_push_index_different(x + y, e, i);
                if i < x.len() {
                    vstd::seq::axiom_seq_add_index1(x, y, i);
                    vstd::seq::axiom_seq_add_index1(x, y.push(e), i);
                } else {
                    vstd::seq::axiom_seq_add_index2(x, y, i);
                    vstd::seq::axiom_seq_add_index2(x, y.push(e), i);
                    vstd::seq::axiom_seq_push_index_different(y, e, i - x.len());
                }
            } else {
                vstd::seq::axiom_seq_push_index_same(x + y, e, i);
                vstd::seq::axiom_seq_add_index2(x, y.push(e), i);
                vstd::seq::axiom_seq_push_index_same(y, e, i - x.len());
            }
        }
        assert(l.len() == r.len());
        vstd::seq::axiom_seq_ext_equal(l, r);
        assert(l =~= r);
    }
}

/// Whether a frame carries no input at all.
pub open spec fn is_empty_frame<P, K>(f: InputFrame<P, K>) -> bool {
    &&& f.cursor_moves@.len() == 0
    &&& f.cursor_entries == 0
    &&& f.cursor_exits == 0
    &&& f.buttons@.len() == 0
    &&& f.keys@.len() == 0
    &&& f.characters@.len() == 0
}

/// Whether a frame carries cursor moves and nothing else (possibly none).
pub open spec fn only_moves<P, K>(f: InputFrame<P, K>) -> bool {
    &&& f.cursor_entries == 0
    &&& f.cursor_exits == 0
    &&& f.buttons@.len() == 0
    &&& f.keys@.len() == 0
    &&& f.characters@.len() == 0
}

/// Whether a frame carries cursor entries and nothing else (possibly none).
pub open spec fn only_entries<P, K>(f: InputFrame<P, K>) -> bool {
    &&& f.cursor_moves@.len() == 0
    &&& f.cursor_exits == 0
    &&& f.buttons@.len() == 0
    &&& f.keys@.len() == 0
    &&& f.characters@.len() == 0
}

/// Whether a frame carries cursor exits and nothing else (possibly none).
pub open spec fn only_exits<P, K>(f: InputFrame<P, K>) -> bool {
    &&& f.cursor_moves@.len() == 0
    &&& f.cursor_entries == 0
    &&& f.buttons@.len() == 0
    &&& f.keys@.len() == 0
    &&& f.characters@.len() == 0
}

/// Whether a frame carries button changes and nothing else (possibly none).
pub open spec fn only_buttons<P, K>(f: InputFrame<P, K>) -> bool {
    &&& f.cursor_moves@.len() == 0
    &&& f.cursor_entries == 0
    &&& f.cursor_exits == 0
    &&& f.keys@.len() == 0
    &&& f.characters@.len() == 0
}

/// Whether a frame carries key changes and nothing else (possibly none).
pub open spec fn only_keys<P, K>(f: InputFrame<P, K>) -> bool {
    &&& f.cursor_moves@.len() == 0
    &&& f.cursor_entries == 0
    &&& f.cursor_exits == 0
    &&& f.buttons@.len() == 0
    &&& f.characters@.len() == 0
}

/// Whether a frame carries typed characters and nothing else (possibly none).
pub open spec fn only_characters<P, K>(f: InputFrame<P, K>) -> bool {
    &&& f.cursor_moves@.len() == 0
    &&& f.cursor_entries == 0
    &&& f.cursor_exits == 0
    &&& f.buttons@.len() == 0
    &&& f.keys@.len() == 0
}

proof fn lemma_empty_streams<P, K>()
    ensures
        move_events::<P, K>(Seq::<P>::empty()) == Seq::<UiEvent<P, K>>::empty(),
        repeated::<P, K>(0, UiEvent::CursorEntered) == Seq::<UiEvent<P, K>>::empty(),
        repeated::<P, K>(0, UiEvent::CursorLeft) == Seq::<UiEvent<P, K>>::empty(),
        button_events::<P, K>(Seq::<ButtonInput>::empty()) == Seq::<UiEvent<P, K>>::empty(),
        key_events::<P, K>(Seq::<KeyInput<K>>::empty()) == Seq::<UiEvent<P, K>>::empty(),
        character_events::<P, K>(Seq::<char>::empty()) == Seq::<UiEvent<P, K>>::empty(),
{
    assert(move_events::<P, K>(Seq::<P>::empty()) =~= Seq::<UiEvent<P, K>>::empty());
    assert(repeated::<P, K>(0, UiEvent::CursorEntered) =~= Seq::<UiEvent<P, K>>::empty());
    assert(repeated::<P, K>(0, UiEvent::CursorLeft) =~= Seq::<UiEvent<P, K>>::empty());
}

/// An empty frame gives no events.
pub proof fn lemma_empty_frame_no_events<P, K>(f: InputFrame<P, K>)
    requires
        is_empty_frame(f),
    ensures
        frame_events(f) == Seq::<UiEvent<P, K>>::empty(),
{
    lemma_empty_streams::<P, K>();
    assert(f.cursor_moves@ =~= Seq::<P>::empty());
    assert(f.buttons@ =~= Seq::<ButtonInput>::empty());
    assert(f.keys@ =~= Seq::<KeyInput<K>>::empty());
    assert(f.characters@ =~= Seq::<char>::empty());
    assert(frame_events(f) =~= Seq::<UiEvent<P, K>>::empty());
}

/// The events of a frame that carries one stream only are that stream's
/// events.
proof fn lemma_single_stream_events<P, K>(f: InputFrame<P, K>)
    ensures
        only_moves(f) ==> frame_events(f) == move_events::<P, K>(f.cursor_moves@),
        only_entries(f) ==> frame_events(f) == repeated::<P, K>(
            f.cursor_entries as nat,
            UiEvent::CursorEntered,
        ),
        only_exits(f) ==> frame_events(f) == repeated::<P, K>(f.cursor_exits as nat, UiEvent::CursorLeft),
        only_buttons(f) ==> frame_events(f) == button_events::<P, K>(f.buttons@),
        only_keys(f) ==> frame_events(f) == key_events::<P, K>(f.keys@),
        only_characters(f) ==> frame_events(f) == character_events::<P, K>(f.characters@),
{
    lemma_empty_streams::<P, K>();
    let m = move_events::<P, K>(f.cursor_moves@);
    let e = repeated::<P, K>(f.cursor_entries as nat, UiEvent::CursorEntered);
    let x = repeated::<P, K>(f.cursor_exits as nat, UiEvent::CursorLeft);
    let b = button_events::<P, K>(f.buttons@);
    let k = key_events::<P, K>(f.keys@);
    let c = character_events::<P, K>(f.characters@);
    if f.cursor_moves@.len() == 0 {
        assert(f.cursor_moves@ =~= Seq::<P>::empty());
    }
    if f.buttons@.len() == 0 {
        assert(f.buttons@ =~= Seq::<ButtonInput>::empty());
    }
    if f.keys@.len() == 0 {
        assert(f.keys@ =~= Seq::<KeyInput<K>>::empty());
    }
    if f.characters@.len() == 0 {
        assert(f.characters@ =~= Seq::<char>::empty());
    }
    if only_moves(f) {
        assert(frame_events(f) =~= m);
    }
    if only_entries(f) {
        assert(frame_events(f) =~= e);
    }
    if only_exits(f) {
        assert(frame_events(f) =~= x);
    }
    if only_buttons(f) {
        assert(frame_events(f) =~= b);
    }
    if only_keys(f) {
        assert(frame_events(f) =~= k);
    }
    if only_characters(f) {
        assert(frame_events(f) =~= c);
    }
}

/// Each stream of a frame is interpreted on its own: a frame's events are
/// the events of its cursor moves, then of its entries, of its exits, of its
/// button changes, of its key changes and of its typed characters, each as
/// if that stream had come alone.
pub proof fn lemma_frame_splits_into_streams<P, K>(
    f: InputFrame<P, K>,
    moves: InputFrame<P, K>,
    entries: InputFrame<P, K>,
    exits: InputFrame<P, K>,
    buttons: InputFrame<P, K>,
    keys: InputFrame<P, K>,
    characters: InputFrame<P, K>,
)
    requires
        only_moves(moves) && moves.cursor_moves@ == f.cursor_moves@,
        only_entries(entries) && entries.cursor_entries == f.cursor_entries,
        only_exits(exits) && exits.cursor_exits == f.cursor_exits,
        only_buttons(buttons) && buttons.buttons@ == f.buttons@,
        only_keys(keys) && keys.keys@ == f.keys@,
        only_characters(characters) && characters.characters@ == f.characters@,
    ensures
        frame_events(f) == frame_events(moves) + frame_events(entries) + frame_events(exits)
            + frame_events(buttons) + frame_events(keys) + frame_events(characters),
{
    lemma_single_stream_events(moves);
    lemma_single_stream_events(entries);
    lemma_single_stream_events(exits);
    lemma_single_stream_events(buttons);
    lemma_single_stream_events(keys);
    lemma_single_stream_events(characters);
}

/// A single button change alone gives the event of that very button in its
/// new state: a left, right or middle button pressed gives its press,
/// released gives its release; any other button gives nothing.
pub proof fn lemma_one_button<P, K>(f: InputFrame<P, K>, b: ButtonInput)
    requires
        only_buttons(f),
        f.buttons@ == seq![b],
    ensures
        b.button == MouseButton::Left && b.pressed ==> frame_events(f) == seq![
            UiEvent::<P, K>::ButtonPressed(UiButton::Left),
        ],
        b.button == MouseButton::Left && !b.pressed ==> frame_events(f) == seq![
            UiEvent::<P, K>::ButtonReleased(UiButton::Left),
        ],
        b.button == MouseButton::Right && b.pressed ==> frame_events(f) == seq![
            UiEvent::<P, K>::ButtonPressed(UiButton::Right),
        ],
        b.button == MouseButton::Right && !b.pressed ==> frame_events(f) == seq![
            UiEvent::<P, K>::ButtonReleased(UiButton::Right),
        ],
        b.button == MouseButton::Middle && b.pressed ==> frame_events(f) == seq![
            UiEvent::<P, K>::ButtonPressed(UiButton::Middle),
        ],
        b.button == MouseButton::Middle && !b.pressed ==> frame_events(f) == seq![
            UiEvent::<P, K>::ButtonReleased(UiButton::Middle),
        ],
        b.button is Other ==> frame_events(f) == Seq::<UiEvent<P, K>>::empty(),
{
    lemma_single_stream_events(f);
    let bs = f.buttons@;
    assert(bs.drop_last() =~= Seq::<ButtonInput>::empty());
    assert(bs.last() == b);
    let rest = Seq::<ButtonInput>::empty().filter_map(|x: ButtonInput| button_event::<P, K>(x));
    assert(rest =~= Seq::<UiEvent<P, K>>::empty());
    match button_event::<P, K>(b) {
        Some(ev) => {
            assert(button_events::<P, K>(bs) == rest + seq![ev]);
            assert(rest + seq![ev] =~= seq![ev]);
        },
        None => {},
    }
}

/// A single key change alone gives the press or release of its key code,
/// or nothing for a key without a code.
pub proof fn lemma_one_key<P, K>(f: InputFrame<P, K>, k: KeyInput<K>)
    requires
        only_keys(f),
        f.keys@ == seq![k],
    ensures
        k.key_code is Some && k.pressed ==> frame_events(f) == seq![
            UiEvent::<P, K>::KeyPressed(k.key_code->0),
        ],
        k.key_code is Some && !k.pressed ==> frame_events(f) == seq![
            UiEvent::<P, K>::KeyReleased(k.key_code->0),
        ],
        k.key_code is None ==> frame_events(f) == Seq::<UiEvent<P, K>>::empty(),
{
    lemma_single_stream_events(f);
    let ks = f.keys@;
    assert(ks.drop_last() =~= Seq::<KeyInput<K>>::empty());
    assert(ks.last() == k);
    let rest = Seq::<KeyInput<K>>::empty().filter_map(|x: KeyInput<K>| key_event::<P, K>(x));
    assert(rest =~= Seq::<UiEvent<P, K>>::empty());
    match key_event::<P, K>(k) {
        Some(ev) => {
            assert(key_events::<P, K>(ks) == rest + seq![ev]);
            assert(rest + seq![ev] =~= seq![ev]);
        },
        None => {},
    }
}

/// A single typed character alone gives exactly that character.
pub proof fn lemma_one_character<P, K>(f: InputFrame<P, K>, ch: char)
    requires
        only_characters(f),
        f.characters@ == seq![ch],
    ensures
        frame_events(f) == seq![UiEvent::<P, K>::CharacterReceived(ch)],
{
    lemma_single_stream_events(f);
    let cs = f.characters@;
    assert(cs.drop_last() =~= Seq::<char>::empty());
    assert(cs.last() == ch);
    lemma_empty_streams::<P, K>();
    let e = UiEvent::<P, K>::CharacterReceived(ch);
    assert(Seq::<UiEvent<P, K>>::empty().push(e) =~= seq![e]);
}

/// A single cursor move alone gives a move to that position, and the cursor
/// ends there, wherever it was.
pub proof fn lemma_one_move<P, K>(f: InputFrame<P, K>, p: P, cursor: P)
    requires
        only_moves(f),
        f.cursor_moves@ == seq![p],
    ensures
        frame_events(f) == seq![UiEvent::<P, K>::CursorMoved(p)],
        cursor_after(cursor, f.cursor_moves@) == p,
{
    lemma_single_stream_events(f);
    assert(move_events::<P, K>(f.cursor_moves@) =~= seq![UiEvent::<P, K>::CursorMoved(p)]);
}

/// A frame without cursor moves leaves the cursor where it was.
pub proof fn lemma_no_move_keeps_cursor<P>(cursor: P, moves: Seq<P>)
    requires
        moves.len() == 0,
    ensures
        cursor_after(cursor, moves) == cursor,
{
}

/// Every entry of the cursor gives one entered event and every exit one left
/// event, and nothing else comes of them.
pub proof fn lemma_entries_and_exits<P, K>(f: InputFrame<P, K>)
    ensures
        only_entries(f) ==> frame_events(f).len() == f.cursor_entries && forall|i: int|
            0 <= i < f.cursor_entries ==> #[trigger] frame_events(f)[i] == UiEvent::<P, K>::CursorEntered,
        only_exits(f) ==> frame_events(f).len() == f.cursor_exits && forall|i: int|
            0 <= i < f.cursor_exits ==> #[trigger] frame_events(f)[i] == UiEvent::<P, K>::CursorLeft,
{
    lemma_single_stream_events(f);
}

/// Button changes are interpreted one after another: the events of two
/// batches delivered in turn are those of the first batch followed by those
/// of the second.
pub proof fn lemma_buttons_in_turn<P, K>(
    first: InputFrame<P, K>,
    second: InputFrame<P, K>,
    both: InputFrame<P, K>,
)
    requires
        only_buttons(first),
        only_buttons(second),
        only_buttons(both),
        both.buttons@ == first.buttons@ + second.buttons@,
    ensures
        frame_events(both) == frame_events(first) + frame_events(second),
{
    lemma_single_stream_events(first);
    lemma_single_stream_events(second);
    lemma_single_stream_events(both);
    lemma_filter_map_add(first.buttons@, second.buttons@, |x: ButtonInput| button_event::<P, K>(x));
}

/// Key changes are interpreted one after another: the events of two batches
/// delivered in turn are those of the first batch followed by those of the
/// second.
pub proof fn lemma_keys_in_turn<P, K>(
    first: InputFrame<P, K>,
    second: InputFrame<P, K>,
    both: InputFrame<P, K>,
)
    requires
        only_keys(first),
        only_keys(second),
        only_keys(both),
        both.keys@ == first.keys@ + second.keys@,
    ensures
        frame_events(both) == frame_events(first) + frame_events(second),
{
    lemma_single_stream_events(first);
    lemma_single_stream_events(second);
    lemma_single_stream_events(both);
    lemma_filter_map_add(first.keys@, second.keys@, |x: KeyInput<K>| key_event::<P, K>(x));
}

/// Typed characters are interpreted one after another: the events of two
/// runs of text typed in turn are those of the first followed by those of the
/// second.
pub proof fn lemma_characters_in_turn<P, K>(
    first: InputFrame<P, K>,
    second: InputFrame<P, K>,
    both: InputFrame<P, K>,
)
    requires
        only_characters(first),
        only_characters(second),
        only_characters(both),
        both.characters@ == first.characters@ + second.characters@,
    ensures
        frame_events(both) == frame_events(first) + frame_events(second),
{
    lemma_single_stream_events(first);
    lemma_single_stream_events(second);
    lemma_single_stream_events(both);
    lemma_character_events_add::<P, K>(first.characters@, second.characters@);
}

/// Cursor moves are interpreted one after another: the events of two runs of
/// moves in turn are those of the first followed by those of the second.
pub proof fn lemma_moves_in_turn<P, K>(
    first: InputFrame<P, K>,
    second: InputFrame<P, K>,
    both: InputFrame<P, K>,
)
    requires
        only_moves(first),
        only_moves(second),
        only_moves(both),
        both.cursor_moves@ == first.cursor_moves@ + second.cursor_moves@,
    ensures
        frame_events(both) == frame_events(first) + frame_events(second),
{
    lemma_single_stream_events(first);
    lemma_single_stream_events(second);
    lemma_single_stream_events(both);
    assert(move_events::<P, K>(both.cursor_moves@) =~= move_events::<P, K>(first.cursor_moves@)
        + move_events::<P, K>(second.cursor_moves@));
}

} // verus!

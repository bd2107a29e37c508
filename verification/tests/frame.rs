use bevy_iced::application::{BevyIcedApplication, IcedInstance};
use bevy_iced::messages::IcedUiMessages;
use bevy_iced::systems::{start_application, update_user_interface};
use bevy_iced::user_interface::{apply_message, apply_messages, collect_actions, IcedCache};
use bevy_iced::IcedPlugin;
use iced_native::command::Action;
use iced_native::renderer::Null;
use iced_native::widget::{button, Button, Text};
use iced_native::{mouse, Command, Element, Event, Point, Size};

#[derive(Debug, Clone, PartialEq)]
enum Msg {
    Increment,
    Add(i32),
    Fetch,
}

struct Counter {
    value: i32,
    button: button::State,
}

impl BevyIcedApplication for Counter {
    type Flags = i32;
    type Message = Msg;
    type Renderer = Null;

    fn new(flags: i32) -> (Self, Command<Msg>) {
        (Counter { value: flags, button: button::State::new() }, Command::none())
    }

    fn update(&mut self, message: Msg) -> Command<Msg> {
        match message {
            Msg::Increment => {
                self.value += 1;
                Command::none()
            }
            Msg::Add(n) => {
                self.value += n;
                Command::none()
            }
            Msg::Fetch => Command::perform(async { 5 }, Msg::Add),
        }
    }

    fn view(&mut self) -> Element<'_, Msg, Null> {
        Button::new(&mut self.button, Text::new("+"))
            .on_press(Msg::Increment)
            .into()
    }
}

/// An application that keeps the default `update`.
struct Still {
    seen: u32,
}

impl BevyIcedApplication for Still {
    type Flags = ();
    type Message = u32;
    type Renderer = Null;

    fn new(_flags: ()) -> (Self, Command<u32>) {
        (Still { seen: 0 }, Command::none())
    }

    fn view(&mut self) -> Element<'_, u32, Null> {
        Text::new("still").into()
    }
}

/// An application that records the messages it is given.
struct Log {
    seen: Vec<u32>,
}
impl BevyIcedApplication for Log {
    type Flags = ();
    type Message = u32;
    type Renderer = Null;
    fn new(_flags: ()) -> (Self, Command<u32>) {
        (Log { seen: vec![] }, Command::none())
    }
    fn update(&mut self, message: u32) -> Command<u32> {
        self.seen.push(message);
        Command::none()
    }
    fn view(&mut self) -> Element<'_, u32, Null> {
        Text::new("log").into()
    }
}

fn click_at(x: f32, y: f32) -> Vec<Event> {
    vec![
        Event::Mouse(mouse::Event::CursorMoved { position: Point::new(x, y) }),
        Event::Mouse(mouse::Event::ButtonPressed(mouse::Button::Left)),
        Event::Mouse(mouse::Event::ButtonReleased(mouse::Button::Left)),
    ]
}

#[test]
fn plugin_can_be_made() {
    let _plugin: IcedPlugin = IcedPlugin::default();
    let _other = IcedPlugin;
}

#[test]
fn instance_holds_the_application() {
    let instance = IcedInstance::new(Counter { value: 41, button: button::State::new() });
    assert_eq!(instance.0.value, 41);
}

#[test]
fn new_cache_is_ready() {
    let cache = IcedCache::default();
    assert!(cache.is_ready());
}

#[test]
fn building_lends_the_cache_and_destroying_returns_it() {
    let mut cache = IcedCache::default();
    let mut app = Counter { value: 0, button: button::State::new() };
    let mut renderer = Null::new();
    let ui = cache.build_user_interface(&mut app, &mut renderer, Size::new(100.0, 100.0));
    assert!(!cache.is_ready());
    cache.destroy_user_interface(ui);
    assert!(cache.is_ready());
}

#[test]
fn collected_messages_start_with_the_pending_ones() {
    let mut cache = IcedCache::default();
    let mut app = Counter { value: 0, button: button::State::new() };
    let mut renderer = Null::new();
    let messages = cache.collect_messages(
        &mut app,
        &mut renderer,
        Size::new(100.0, 100.0),
        &click_at(5.0, 5.0),
        Point::new(5.0, 5.0),
        vec![Msg::Add(3), Msg::Fetch],
    );
    assert_eq!(messages, vec![Msg::Add(3), Msg::Fetch, Msg::Increment]);
    assert!(cache.is_ready());
}

#[test]
fn clicking_outside_the_button_publishes_nothing() {
    let mut cache = IcedCache::default();
    let mut app = Counter { value: 0, button: button::State::new() };
    let mut renderer = Null::new();
    let messages = cache.collect_messages(
        &mut app,
        &mut renderer,
        Size::new(100.0, 100.0),
        &click_at(80.0, 80.0),
        Point::new(80.0, 80.0),
        vec![],
    );
    assert!(messages.is_empty());
}

#[test]
fn every_message_is_applied_in_order() {
    let app = Counter { value: 1, button: button::State::new() };
    let (app, commands) = apply_messages(app, vec![Msg::Add(2), Msg::Increment, Msg::Add(10)]);
    assert_eq!(commands.len(), 3);
    assert_eq!(app.value, 14);
}

#[test]
fn no_messages_no_commands() {
    let app = Counter { value: 1, button: button::State::new() };
    let (app, commands) = apply_messages(app, vec![]);
    assert!(commands.is_empty());
    assert_eq!(app.value, 1);
}

#[test]
fn default_update_does_nothing() {
    let app = Still { seen: 0 };
    let (app, commands) = apply_messages(app, vec![1, 2, 3]);
    assert_eq!(commands.len(), 3);
    assert!(collect_actions(commands).is_empty());
    assert_eq!(app.seen, 0);
}

#[test]
fn actions_are_collected_command_by_command() {
    let app = Counter { value: 0, button: button::State::new() };
    let (_app, commands) = apply_messages(app, vec![Msg::Fetch, Msg::Increment, Msg::Fetch]);
    let actions = collect_actions(commands);
    assert_eq!(actions.len(), 2);
    assert!(actions.iter().all(|a| matches!(a, Action::Future(_))));
}

#[test]
fn starting_gives_a_ready_cache_and_the_flagged_state() {
    let (instance, cache, messages) = start_application::<Counter>(7);
    assert_eq!(instance.0.value, 7);
    assert!(cache.is_ready());
    assert!(messages.pending_messages().is_empty());
}

#[test]
fn a_frame_applies_pending_then_ui_messages() {
    let (instance, mut cache, channel) = start_application::<Counter>(0);
    channel.tx.send(Msg::Add(100)).unwrap();
    let mut renderer = Null::new();
    let (app, actions) = update_user_interface(
        instance.0,
        &mut cache,
        &channel,
        &mut renderer,
        Size::new(100.0, 100.0),
        &click_at(5.0, 5.0),
        Point::new(5.0, 5.0),
    );
    assert_eq!(app.value, 101);
    assert!(actions.is_empty());
    assert!(cache.is_ready());
    assert!(channel.pending_messages().is_empty());
}

#[test]
fn a_frame_returns_the_actions_of_its_commands() {
    let (instance, mut cache, channel) = start_application::<Counter>(0);
    let sender = channel.clone_tx();
    sender.send(Msg::Fetch).unwrap();
    let mut renderer = Null::new();
    let (app, actions) = update_user_interface(
        instance.0,
        &mut cache,
        &channel,
        &mut renderer,
        Size::new(100.0, 100.0),
        &vec![],
        Point::new(0.0, 0.0),
    );
    assert_eq!(actions.len(), 1);
    assert_eq!(app.value, 0);
    assert!(cache.is_ready());
}

#[test]
fn frames_can_follow_each_other() {
    let (instance, mut cache, channel) = start_application::<Counter>(0);
    let mut renderer = Null::new();
    let mut app = instance.0;
    for _ in 0..3 {
        let (next, _actions) = update_user_interface(
            app,
            &mut cache,
            &channel,
            &mut renderer,
            Size::new(100.0, 100.0),
            &click_at(5.0, 5.0),
            Point::new(5.0, 5.0),
        );
        app = next;
    }
    assert_eq!(app.value, 3);
}

#[test]
fn pending_messages_arrive_in_send_order() {
    let channel: IcedUiMessages<u8> = IcedUiMessages::default();
    channel.tx.send(1).unwrap();
    channel.clone_tx().send(2).unwrap();
    channel.tx.send(3).unwrap();
    assert_eq!(channel.pending_messages(), vec![1, 2, 3]);
    assert!(channel.pending_messages().is_empty());
}

#[test]
fn one_message_is_applied_to_the_application() {
    let app = Counter { value: 5, button: button::State::new() };
    let (app, command) = apply_message(app, Msg::Add(3));
    assert_eq!(app.value, 8);
    assert!(collect_actions(vec![command]).is_empty());
    let (app, command) = apply_message(app, Msg::Fetch);
    assert_eq!(app.value, 8);
    assert_eq!(collect_actions(vec![command]).len(), 1);
}

#[test]
fn messages_are_applied_in_order() {
    let (app, commands) = apply_messages(Log { seen: vec![] }, vec![3, 1, 2]);
    assert_eq!(app.seen, vec![3, 1, 2]);
    assert_eq!(commands.len(), 3);
}

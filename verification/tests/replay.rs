use lovebot::command::Command;
use lovebot::command_dispatcher::set_flag;
use lovebot::command_dispatcher::CommandDispatcher;
use lovebot::command_dispatcher::CommandDispatcherBuilder;
use lovebot::command_dispatcher::Directory;
use lovebot::command_dispatcher::UserHandle;
use lovebot::data::ThreadAnonimityMode;
use lovebot::data::User;
use lovebot::error::HandlerError;
use lovebot::error::ReplayError;
use lovebot::event_log::Event;
use lovebot::event_log::PersistenceError;
use lovebot::event_log::ThreadMessageReceivedEvent;
use lovebot::event_log::ThreadStartedEvent;
use lovebot::event_log::ThreadTerminatedEvent;
use lovebot::event_log::UserBannedEvent;
use lovebot::event_log::UserConnectedEvent;
use lovebot::event_log::UserStartedEvent;
use lovebot::event_log::UserStoppedEvent;
use lovebot::event_log::UserUnbannedEvent;
use lovebot::handler::Handler;
use lovebot::handler::HandlerBuilder;
use lovebot::handler::Thread;
use lovebot::string_map::StringMap;

fn user(login: &str) -> User {
    User { login: login.to_string(), first_name: login.to_uppercase(), last_name: None }
}

fn connected(login: &str, chat_id: i64) -> Event {
    Event::UserConnected(UserConnectedEvent { user: user(login), chat_id })
}

fn started(login: &str, other_login: &str, my: &str, other: &str, anon_mode: ThreadAnonimityMode) -> Event {
    Event::ThreadStarted(ThreadStartedEvent {
        login: login.to_string(),
        other_login: other_login.to_string(),
        my_thread_id: my.to_string(),
        other_thread_id: other.to_string(),
        anon_mode,
    })
}

fn message(login: &str, message_id: i32, thread_id: &str) -> Event {
    Event::ThreadMessageReceived(ThreadMessageReceivedEvent {
        login: login.to_string(),
        message_id,
        thread_id: thread_id.to_string(),
    })
}

fn terminated(login: &str, other_login: &str, my: &str, other: &str) -> Event {
    Event::ThreadTerminated(ThreadTerminatedEvent {
        login: login.to_string(),
        other_login: other_login.to_string(),
        my_thread_id: my.to_string(),
        other_thread_id: other.to_string(),
    })
}

fn banned(login: &str, banned_login: &str, thread_id: &str) -> Event {
    Event::UserBanned(UserBannedEvent {
        login: login.to_string(),
        banned_login: banned_login.to_string(),
        banned_thread_id: thread_id.to_string(),
    })
}

fn unbanned(login: &str, unbanned_login: &str) -> Event {
    Event::UserUnbanned(UserUnbannedEvent {
        login: login.to_string(),
        unbanned_login: unbanned_login.to_string(),
    })
}

fn stopped(login: &str) -> Event {
    Event::UserStopped(UserStoppedEvent { login: login.to_string() })
}

fn restarted(login: &str) -> Event {
    Event::UserStarted(UserStartedEvent { login: login.to_string() })
}

fn a_log() -> Vec<Event> {
    vec![
        connected("ann", 1),
        connected("bob", 2),
        connected("cat", 3),
        started("ann", "bob", "@bob", "#x_y", ThreadAnonimityMode::Me),
        started("bob", "ann", "#x_y", "@bob", ThreadAnonimityMode::Them),
        message("ann", 10, "@bob"),
        message("bob", 11, "#x_y"),
        started("cat", "ann", "#a_b", "#c_d", ThreadAnonimityMode::Both),
        started("ann", "cat", "#c_d", "#a_b", ThreadAnonimityMode::Both),
        message("cat", 12, "#a_b"),
        banned("bob", "ann", "#x_y"),
        stopped("cat"),
        terminated("ann", "cat", "#c_d", "#a_b"),
    ]
}

fn replayed(events: Vec<Event>) -> CommandDispatcherBuilder {
    match CommandDispatcherBuilder::from_event_log(events) {
        Ok(builder) => builder,
        Err(error) => panic!("unexpected: {:?}", error),
    }
}

fn refused(events: Vec<Event>) -> ReplayError {
    match CommandDispatcherBuilder::from_event_log(events) {
        Ok(_) => panic!("replayed what should not be"),
        Err(error) => error,
    }
}

fn thread(id: &str, anon_mode: ThreadAnonimityMode, other_id: &str, other_login: &str) -> Thread {
    Thread::new(id.to_string(), anon_mode, other_id.to_string(), other_login.to_string())
}

fn state(handler: &Handler) -> String {
    let mut lines = vec![format!(
        "{} {} {}",
        handler.user_handle().user.login,
        handler.chat_id(),
        handler.is_stopped()
    )];
    for id in ["@bob", "#x_y", "#a_b", "#c_d"] {
        lines.push(format!("{} {:?}", id, handler.thread(id)));
    }
    for message_id in 9..14 {
        lines.push(format!("{} {:?}", message_id, handler.thread_of_message(message_id)));
    }
    for login in ["ann", "bob", "cat"] {
        lines.push(format!("{} {:?}", login, handler.banned_thread(login)));
    }
    lines.push(handler.thread_count().to_string());
    lines.join("\n")
}

#[test]
fn empty_log_is_an_empty_population() {
    let builder = replayed(Vec::new());
    assert_eq!(builder.user_handles().len(), 0);
    assert!(builder.builder("ann").is_none());
    let (dispatcher, handlers) = builder.build();
    assert!(handlers.is_empty());
    assert!(!dispatcher.knows("ann"));
}

#[test]
fn log_is_folded_into_the_actors() {
    let builder = replayed(a_log());
    let ann = builder.builder("ann").unwrap().handler();
    assert_eq!(ann.thread("@bob"), Some(&thread("@bob", ThreadAnonimityMode::Me, "#x_y", "bob")));
    assert_eq!(ann.thread("#c_d"), None);
    assert_eq!(ann.thread_count(), 1);
    assert_eq!(ann.thread_of_message(10), Some(&"@bob".to_string()));
    assert_eq!(ann.chat_id(), 1);
    assert!(!ann.is_stopped());
    let bob = builder.builder("bob").unwrap().handler();
    assert_eq!(bob.thread("#x_y"), None);
    assert_eq!(bob.banned_thread("ann"), Some(&"#x_y".to_string()));
    assert_eq!(bob.thread_of_message(11), Some(&"#x_y".to_string()));
    let cat = builder.builder("cat").unwrap().handler();
    assert!(cat.is_stopped());
    assert_eq!(cat.thread_count(), 0);
    assert_eq!(cat.thread_of_message(12), Some(&"#a_b".to_string()));
    let directory = builder.user_handles();
    assert_eq!(directory.len(), 3);
    assert_eq!(directory.get("cat"), Some(&UserHandle { user: user("cat"), is_stopped: true }));
    assert_eq!(directory.get("ann"), Some(&UserHandle { user: user("ann"), is_stopped: false }));
}

#[test]
fn replay_of_the_same_log_ends_alike() {
    let first = replayed(a_log());
    let second = replayed(a_log());
    for login in ["ann", "bob", "cat"] {
        assert_eq!(
            state(first.builder(login).unwrap().handler()),
            state(second.builder(login).unwrap().handler())
        );
        assert_eq!(first.user_handles().get(login), second.user_handles().get(login));
    }
    let mut broken = a_log();
    broken.push(unbanned("cat", "ann"));
    assert_eq!(refused(broken.clone()), refused(broken));
}

#[test]
fn replay_one_by_one_is_replay_at_once() {
    let at_once = replayed(a_log());
    let mut one_by_one = CommandDispatcherBuilder::new();
    for event in a_log() {
        assert_eq!(one_by_one.apply_event(event), Ok(()));
    }
    for login in ["ann", "bob", "cat"] {
        assert_eq!(
            state(at_once.builder(login).unwrap().handler()),
            state(one_by_one.builder(login).unwrap().handler())
        );
    }
}

#[test]
fn event_of_an_unknown_login_ends_replay() {
    let unknown = ReplayError::UserNotFound("zoe".to_string());
    assert_eq!(refused(vec![started("zoe", "ann", "#a", "#b", ThreadAnonimityMode::Both)]), unknown);
    assert_eq!(refused(vec![connected("ann", 1), message("zoe", 1, "#a")]), unknown);
    assert_eq!(refused(vec![connected("ann", 1), terminated("zoe", "ann", "#a", "#b")]), unknown);
    assert_eq!(refused(vec![banned("zoe", "ann", "#a")]), unknown);
    assert_eq!(refused(vec![unbanned("zoe", "ann")]), unknown);
    assert_eq!(refused(vec![stopped("zoe")]), unknown);
    assert_eq!(refused(vec![restarted("zoe")]), unknown);
    assert_eq!(
        refused(vec![connected("ann", 1), started("ann", "zoe", "#a", "#b", ThreadAnonimityMode::Both)]),
        unknown
    );
}

#[test]
fn both_logins_of_a_closed_thread_must_be_known() {
    let log = vec![
        connected("ann", 1),
        connected("bob", 2),
        started("ann", "bob", "#a", "#b", ThreadAnonimityMode::Both),
        terminated("ann", "zoe", "#a", "#b"),
    ];
    assert_eq!(refused(log), ReplayError::UserNotFound("zoe".to_string()));
}

#[test]
fn end_of_a_thread_that_is_not_there_ends_replay() {
    let mut log = vec![
        connected("ann", 1),
        connected("bob", 2),
        started("ann", "bob", "#a", "#b", ThreadAnonimityMode::Both),
    ];
    log.push(terminated("ann", "bob", "#a", "#b"));
    assert_eq!(refused(log.clone()), ReplayError::ThreadNotFound("#b".to_string()));
    log[3] = terminated("ann", "bob", "#none", "#b");
    assert_eq!(refused(log.clone()), ReplayError::ThreadNotFound("#none".to_string()));
    log[3] = banned("ann", "bob", "#none");
    assert_eq!(refused(log), ReplayError::ThreadNotFound("#none".to_string()));
}

#[test]
fn lifting_a_ban_that_does_not_stand_ends_replay() {
    assert_eq!(
        refused(vec![connected("ann", 1), unbanned("ann", "bob")]),
        ReplayError::UserNotBanned("bob".to_string())
    );
    let log = vec![
        connected("ann", 1),
        connected("bob", 2),
        started("ann", "bob", "#a", "@ann", ThreadAnonimityMode::Them),
        banned("ann", "bob", "#a"),
        unbanned("ann", "bob"),
    ];
    let builder = replayed(log);
    assert_eq!(builder.builder("ann").unwrap().handler().banned_thread("bob"), None);
}

#[test]
fn nothing_after_the_first_bad_event_counts() {
    let log = vec![connected("ann", 1), stopped("zoe"), connected("zoe", 2)];
    assert_eq!(refused(log), ReplayError::UserNotFound("zoe".to_string()));
}

#[test]
fn second_contact_starts_the_actor_over() {
    let log = vec![
        connected("ann", 1),
        connected("bob", 2),
        started("ann", "bob", "#a", "#b", ThreadAnonimityMode::Both),
        stopped("ann"),
        connected("ann", 7),
    ];
    let builder = replayed(log);
    let ann = builder.builder("ann").unwrap().handler();
    assert_eq!(ann.thread_count(), 0);
    assert_eq!(ann.chat_id(), 7);
    assert!(!ann.is_stopped());
    assert_eq!(builder.user_handles().len(), 2);
    assert_eq!(builder.user_handles().get("ann"), Some(&UserHandle { user: user("ann"), is_stopped: false }));
}

#[test]
fn stop_and_start_end_where_the_last_one_says() {
    let builder = replayed(vec![connected("ann", 1), stopped("ann"), restarted("ann"), stopped("ann")]);
    assert!(builder.builder("ann").unwrap().handler().is_stopped());
    assert!(builder.user_handles().get("ann").unwrap().is_stopped);
    let builder = replayed(vec![connected("ann", 1), stopped("ann"), restarted("ann")]);
    assert!(!builder.builder("ann").unwrap().handler().is_stopped());
    assert!(!builder.user_handles().get("ann").unwrap().is_stopped);
}

#[test]
fn builder_of_one_actor_replays_its_events() {
    let mut directory: Directory = StringMap::new();
    directory.insert("bob".to_string(), UserHandle { user: user("bob"), is_stopped: false });
    let mut builder = HandlerBuilder::new(UserHandle { user: user("ann"), is_stopped: false }, 5);
    let start = ThreadStartedEvent {
        login: "ann".to_string(),
        other_login: "bob".to_string(),
        my_thread_id: "#a".to_string(),
        other_thread_id: "@ann".to_string(),
        anon_mode: ThreadAnonimityMode::Them,
    };
    assert_eq!(builder.handle_thread_started(start.clone(), &directory), Ok(()));
    let mut to_nobody = start;
    to_nobody.other_login = "zoe".to_string();
    assert_eq!(
        builder.handle_thread_started(to_nobody, &directory),
        Err(ReplayError::UserNotFound("zoe".to_string()))
    );
    builder.handle_thread_message_received(ThreadMessageReceivedEvent {
        login: "ann".to_string(),
        message_id: 3,
        thread_id: "#a".to_string(),
    });
    assert_eq!(builder.terminate_thread("#b"), Err(ReplayError::ThreadNotFound("#b".to_string())));
    let ban = UserBannedEvent {
        login: "ann".to_string(),
        banned_login: "bob".to_string(),
        banned_thread_id: "#a".to_string(),
    };
    assert_eq!(builder.handle_user_banned(ban.clone()), Ok(()));
    assert_eq!(builder.handle_user_banned(ban), Err(ReplayError::ThreadNotFound("#a".to_string())));
    let lift = UserUnbannedEvent { login: "ann".to_string(), unbanned_login: "cat".to_string() };
    assert_eq!(builder.handle_user_unbanned(lift), Err(ReplayError::UserNotBanned("cat".to_string())));
    builder.handle_user_stopped();
    assert!(builder.handler().is_stopped());
    builder.handle_user_started();
    assert_eq!(builder.chat_id(), 5);
    let handler = builder.build();
    assert!(!handler.is_stopped());
    assert_eq!(handler.thread_of_message(3), Some(&"#a".to_string()));
    assert_eq!(handler.banned_thread("bob"), Some(&"#a".to_string()));
    assert_eq!(handler.thread_count(), 0);
}

#[test]
fn built_population_has_every_actor_once() {
    let (dispatcher, handlers) = replayed(a_log()).build();
    let mut logins: Vec<String> = handlers.iter().map(|h| h.user_handle().user.login.clone()).collect();
    logins.sort();
    assert_eq!(logins, vec!["ann".to_string(), "bob".to_string(), "cat".to_string()]);
    for login in ["ann", "bob", "cat"] {
        assert!(dispatcher.knows(login));
    }
    assert!(!dispatcher.knows("zoe"));
    assert_eq!(dispatcher.user_handles().len(), 3);
    assert!(dispatcher.user_handles().get("cat").unwrap().is_stopped);
    assert!(!dispatcher.user_handles().get("ann").unwrap().is_stopped);
}

#[test]
fn first_contact_makes_one_actor() {
    let mut dispatcher = CommandDispatcher::new();
    let ann = user("ann");
    let first = dispatcher.get_command_sender(&ann, 4).unwrap();
    assert_eq!(first.event, connected("ann", 4));
    assert_eq!(first.handler.thread_count(), 0);
    assert_eq!(first.handler.chat_id(), 4);
    assert_eq!(first.handler.user_handle(), &UserHandle { user: user("ann"), is_stopped: false });
    assert!(dispatcher.knows("ann"));
    assert!(dispatcher.get_command_sender(&ann, 4).is_none());
    assert!(dispatcher.get_command_sender(&ann, 9).is_none());
    assert_eq!(dispatcher.user_handles().len(), 1);
    assert_eq!(
        dispatcher.user_handles().get("ann"),
        Some(&UserHandle { user: user("ann"), is_stopped: false })
    );
}

#[test]
fn command_of_a_new_login_brings_its_actor() {
    let mut dispatcher = CommandDispatcher::new();
    let dispatch = dispatcher.handle_command(&user("ann"), 4, Command::Start);
    assert_eq!(dispatch.login, "ann");
    assert_eq!(dispatch.command, Command::Start);
    assert_eq!(dispatch.spawned.unwrap().event, connected("ann", 4));
    let again = dispatcher.handle_command(&user("ann"), 4, Command::Help);
    assert!(again.spawned.is_none());
    assert_eq!(again.command, Command::Help);
}

#[test]
fn contact_that_is_not_durable_is_not_admitted() {
    let failure = PersistenceError::new("disk full".to_string());
    assert_eq!(
        CommandDispatcher::after_connected(Err(failure.clone())),
        Err(HandlerError::Persistence(failure))
    );
    assert_eq!(CommandDispatcher::after_connected(Ok(())), Ok(()));
}

#[test]
fn directory_shows_who_has_stopped() {
    let mut dispatcher = CommandDispatcher::new();
    dispatcher.get_command_sender(&user("ann"), 4);
    dispatcher.get_command_sender(&user("bob"), 5);
    dispatcher.publish("ann", true);
    dispatcher.publish("zoe", true);
    assert!(dispatcher.user_handles().get("ann").unwrap().is_stopped);
    assert!(!dispatcher.user_handles().get("bob").unwrap().is_stopped);
    assert!(dispatcher.user_handles().get("zoe").is_none());
    assert_eq!(dispatcher.user_handles().len(), 2);
    assert_eq!(dispatcher.user_handles().key(0), "ann");
    dispatcher.publish("ann", false);
    assert!(!dispatcher.user_handles().get("ann").unwrap().is_stopped);
}

#[test]
fn actors_read_what_the_dispatcher_wrote() {
    let mut dispatcher = CommandDispatcher::new();
    dispatcher.get_command_sender(&user("ann"), 4);
    let shared = lovebot::util::Writer::new(dispatcher);
    let reader = shared.reader();
    let held = reader.read();
    assert_eq!(held.borrow().user_handles().len(), 1);
    held.release_read();
    let (mut dispatcher, held) = shared.write();
    assert!(dispatcher.get_command_sender(&user("bob"), 5).is_some());
    dispatcher.publish("ann", true);
    held.release_write(dispatcher);
    let held = reader.read();
    assert_eq!(held.borrow().user_handles().len(), 2);
    assert!(held.borrow().user_handles().get("ann").unwrap().is_stopped);
    assert!(held.borrow().knows("bob"));
    held.release_read();
}

#[test]
fn event_that_cannot_be_replayed_changes_nothing() {
    let mut builder = replayed(a_log());
    let before: Vec<String> =
        ["ann", "bob", "cat"].iter().map(|l| state(builder.builder(l).unwrap().handler())).collect();
    let order: Vec<String> = (0..3).map(|i| builder.user_handles().key(i).clone()).collect();
    for bad in [
        started("zoe", "ann", "#a", "#b", ThreadAnonimityMode::Both),
        started("ann", "zoe", "#a", "#b", ThreadAnonimityMode::Both),
        message("zoe", 1, "#a"),
        terminated("zoe", "ann", "#a", "#b"),
        terminated("ann", "bob", "#none", "#x_y"),
        terminated("ann", "zoe", "@bob", "#x_y"),
        terminated("ann", "bob", "@bob", "#none"),
        terminated("ann", "ann", "@bob", "@bob"),
        banned("ann", "bob", "#none"),
        banned("zoe", "bob", "#none"),
        unbanned("ann", "bob"),
        unbanned("zoe", "bob"),
        stopped("zoe"),
        restarted("zoe"),
    ] {
        assert!(builder.apply_event(bad).is_err());
        let after: Vec<String> = ["ann", "bob", "cat"]
            .iter()
            .map(|l| state(builder.builder(l).unwrap().handler()))
            .collect();
        assert_eq!(after, before);
        assert_eq!(builder.user_handles().len(), 3);
        for i in 0..3 {
            assert_eq!(builder.user_handles().key(i), &order[i]);
        }
    }
    assert_eq!(
        builder.apply_event(terminated("ann", "ann", "@bob", "@bob")),
        Err(ReplayError::ThreadNotFound("@bob".to_string()))
    );
    assert_eq!(builder.apply_event(terminated("ann", "bob", "@bob", "#x_y")), Err(ReplayError::ThreadNotFound("#x_y".to_string())));
}

#[test]
fn one_actor_may_hold_both_halves_of_a_thread() {
    let mut builder = replayed(vec![
        connected("ann", 1),
        started("ann", "ann", "#a", "#b", ThreadAnonimityMode::Both),
        started("ann", "ann", "#b", "#a", ThreadAnonimityMode::Both),
    ]);
    assert_eq!(builder.apply_event(terminated("ann", "ann", "#a", "#b")), Ok(()));
    assert_eq!(builder.builder("ann").unwrap().handler().thread_count(), 0);
}

#[test]
fn flag_is_set_in_place() {
    let mut directory: Directory = StringMap::new();
    for login in ["ann", "bob", "cat"] {
        directory.insert(login.to_string(), UserHandle { user: user(login), is_stopped: false });
    }
    set_flag(&mut directory, "bob", true);
    set_flag(&mut directory, "zoe", true);
    assert_eq!(directory.len(), 3);
    assert_eq!(directory.key(1), "bob");
    assert!(directory.value(1).is_stopped);
    assert!(!directory.value(0).is_stopped);
}

#[test]
fn string_map_keeps_the_order_of_its_keys() {
    let mut map: StringMap<i64> = StringMap::new();
    assert_eq!(map.insert("b".to_string(), 1), None);
    assert_eq!(map.insert("a".to_string(), 2), None);
    assert_eq!(map.insert("c".to_string(), 3), None);
    assert_eq!(map.insert("a".to_string(), 4), Some(2));
    assert_eq!(map.len(), 3);
    assert_eq!((map.key(0).as_str(), *map.value(0)), ("b", 1));
    assert_eq!((map.key(1).as_str(), *map.value(1)), ("a", 4));
    assert_eq!(map.position("c"), Some(2));
    assert_eq!(map.position("d"), None);
    assert_eq!(map.get("a"), Some(&4));
    assert!(map.contains_key("b") && !map.contains_key("d"));
    assert_eq!(map.remove("b"), Some(1));
    assert_eq!(map.remove("b"), None);
    assert_eq!(map.key(0), "a");
    assert_eq!(map.into_values(), vec![4, 3]);
}

#[test]
fn replay_errors_have_their_messages() {
    assert_eq!(ReplayError::UserNotFound("zoe".to_string()).message(), "user not found: @zoe");
    assert_eq!(ReplayError::ThreadNotFound("#a".to_string()).message(), "thread is not found: #a");
    assert_eq!(ReplayError::UserNotBanned("bob".to_string()).message(), "user is not banned: bob");
}

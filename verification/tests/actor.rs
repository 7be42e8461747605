use lovebot::command::Command;
use lovebot::command_dispatcher::Directory;
use lovebot::command_dispatcher::UserHandle;
use lovebot::data::ThreadAnonimityMode;
use lovebot::data::User;
use lovebot::error::HandlerError;
use lovebot::event_log::Event;
use lovebot::event_log::PersistenceError;
use lovebot::event_log::ThreadMessageReceivedEvent;
use lovebot::event_log::ThreadStartedEvent;
use lovebot::event_log::ThreadTerminatedEvent;
use lovebot::event_log::UserBannedEvent;
use lovebot::event_log::UserStartedEvent;
use lovebot::event_log::UserStoppedEvent;
use lovebot::event_log::UserUnbannedEvent;
use lovebot::handler::users_text;
use lovebot::handler::Action;
use lovebot::handler::Dice;
use lovebot::handler::Handler;
use lovebot::handler::Thread;
use lovebot::plan::OnDelivery;
use lovebot::plan::OnFailure;
use lovebot::plan::Step;
use lovebot::string_map::StringMap;
use lovebot::util::WordLists;
use lovebot::util::HELP_MESSAGE;
use lovebot::util::START_MESSAGE;
use lovebot::util::STOP_MESSAGE;

/// What the outside world did for an actor, in order.
#[derive(Debug, PartialEq)]
enum Did {
    Asked(String, Action),
    Wrote(Vec<Event>),
    Awaited,
    Sent(String, i32),
    Published(bool),
}

/// A world in which everything works, unless told otherwise.
struct World {
    next_message_id: i32,
    peer_refuses: Option<HandlerError>,
    disk_fails: Option<String>,
    transport_fails: Option<String>,
}

impl World {
    fn new() -> World {
        World { next_message_id: 100, peer_refuses: None, disk_fails: None, transport_fails: None }
    }

    fn run(&mut self, handler: &mut Handler, first: Step) -> (Result<(), HandlerError>, Vec<Did>) {
        let mut did = Vec::new();
        let mut step = first;
        loop {
            step = match step {
                Step::Done(reply) => return (reply, did),
                Step::Ask { login, action, on_failure, rest } => {
                    did.push(Did::Asked(login.clone(), action));
                    let reply = match &self.peer_refuses {
                        Some(error) => Err(error.clone()),
                        None => Ok(()),
                    };
                    handler.after_ask(&login, on_failure, rest, reply)
                }
                Step::Write { events, rest } => {
                    did.push(Did::Wrote(events));
                    handler.advance(rest)
                }
                Step::Await { rest } => {
                    did.push(Did::Awaited);
                    let outcome = match &self.disk_fails {
                        Some(reason) => Err(PersistenceError::new(reason.clone())),
                        None => Ok(()),
                    };
                    handler.after_await(rest, outcome)
                }
                Step::Send { text, on_delivery, rest } => {
                    let outcome = match &self.transport_fails {
                        Some(reason) => Err(reason.clone()),
                        None => {
                            self.next_message_id += 1;
                            did.push(Did::Sent(text, self.next_message_id));
                            Ok(self.next_message_id)
                        }
                    };
                    handler.after_send(on_delivery, rest, outcome)
                }
                Step::Publish { stopped, rest } => {
                    did.push(Did::Published(stopped));
                    handler.advance(rest)
                }
            };
        }
    }
}

fn user(login: &str) -> User {
    User { login: login.to_string(), first_name: login.to_uppercase(), last_name: None }
}

fn actor(login: &str) -> Handler {
    Handler::new(UserHandle { user: user(login), is_stopped: false }, 42)
}

fn directory(logins: &[&str]) -> Directory {
    let mut directory: Directory = StringMap::new();
    for login in logins {
        directory.insert(login.to_string(), UserHandle { user: user(login), is_stopped: false });
    }
    directory
}

fn dice(peer: &str, first_id: &str, second_id: &str) -> Dice {
    Dice { peer: peer.to_string(), first_id: first_id.to_string(), second_id: second_id.to_string() }
}

fn no_dice() -> Dice {
    dice("", "", "")
}

fn command(handler: &mut Handler, command: Command, directory: &Directory, dice: Dice) -> (Result<(), HandlerError>, Vec<Did>) {
    let step = handler.handle_command_with(command, directory, dice);
    World::new().run(handler, step)
}

fn action(handler: &mut Handler, action: Action) -> (Result<(), HandlerError>, Vec<Did>) {
    assert!(handler.accepts(&action));
    let step = handler.handle_action(action);
    World::new().run(handler, step)
}

fn send(thread_id: &str, message_id: i32, text: &str) -> Command {
    Command::Send { thread_id: thread_id.to_string(), message_id, text: text.to_string() }
}

fn message(login: &str, message_id: i32, thread_id: &str) -> Event {
    Event::ThreadMessageReceived(ThreadMessageReceivedEvent {
        login: login.to_string(),
        message_id,
        thread_id: thread_id.to_string(),
    })
}

fn started(login: &str, other_login: &str, my: &str, other: &str, anon_mode: ThreadAnonimityMode) -> Event {
    Event::ThreadStarted(ThreadStartedEvent {
        login: login.to_string(),
        other_login: other_login.to_string(),
        my_thread_id: my.to_string(),
        other_thread_id: other.to_string(),
        anon_mode,
    })
}

fn thread(id: &str, anon_mode: ThreadAnonimityMode, other_id: &str, other_login: &str) -> Thread {
    Thread::new(id.to_string(), anon_mode, other_id.to_string(), other_login.to_string())
}

/// Gives `handler` the thread by the way of a peer's offer.
fn hold(handler: &mut Handler, held: Thread) {
    let (reply, _) = action(handler, Action::StartAnonymousThread(held));
    assert_eq!(reply, Ok(()));
}

#[test]
fn fresh_actor_has_no_threads_and_no_bans() {
    let mut ann = actor("ann");
    let everyone = directory(&["ann"]);
    assert_eq!(
        command(&mut ann, Command::Threads, &everyone, no_dice()),
        (Ok(()), vec![Did::Sent("There are no active threads.".to_string(), 101)])
    );
    assert_eq!(
        command(&mut ann, Command::Banlist, &everyone, no_dice()),
        (Ok(()), vec![Did::Sent("You have not banned anybody.".to_string(), 101)])
    );
    assert_eq!(ann.thread_count(), 0);
    assert!(!ann.is_stopped());
    assert_eq!(ann.chat_id(), 42);
    assert_eq!(ann.user_handle().user.login, "ann");
}

#[test]
fn help_is_sent() {
    let mut ann = actor("ann");
    assert_eq!(
        command(&mut ann, Command::Help, &directory(&[]), no_dice()),
        (Ok(()), vec![Did::Sent(HELP_MESSAGE.to_string(), 101)])
    );
}

#[test]
fn stop_is_durable_before_it_is_answered() {
    let mut ann = actor("ann");
    let (reply, did) = command(&mut ann, Command::Stop, &directory(&["ann"]), no_dice());
    assert_eq!(reply, Ok(()));
    assert_eq!(
        did,
        vec![
            Did::Published(true),
            Did::Wrote(vec![Event::UserStopped(UserStoppedEvent { login: "ann".to_string() })]),
            Did::Awaited,
            Did::Sent(STOP_MESSAGE.to_string(), 101),
        ]
    );
    assert!(ann.is_stopped());
}

#[test]
fn stopped_actor_takes_only_start() {
    let mut ann = actor("ann");
    let everyone = directory(&["ann", "bob"]);
    command(&mut ann, Command::Stop, &everyone, no_dice());
    for refused in [
        Command::Help,
        Command::Users,
        Command::Threads,
        Command::Banlist,
        Command::Stop,
        send("@bob", 1, "hi"),
        Command::Random { message_id: 1, text: "hi".to_string() },
        Command::Reply { message_id: 2, reply_message_id: 1, text: "hi".to_string() },
        Command::Close { thread_id: "#a".to_string() },
        Command::Ban { thread_id: "#a".to_string() },
        Command::Unban { thread_id: "#a".to_string() },
        Command::Broadcast { text: "hi".to_string() },
    ] {
        assert_eq!(
            command(&mut ann, refused, &everyone, dice("bob", "#a", "#b")),
            (Err(HandlerError::Stopped), vec![])
        );
    }
    let (reply, did) = command(&mut ann, Command::Start, &everyone, no_dice());
    assert_eq!(reply, Ok(()));
    assert_eq!(
        did,
        vec![
            Did::Published(false),
            Did::Wrote(vec![Event::UserStarted(UserStartedEvent { login: "ann".to_string() })]),
            Did::Awaited,
            Did::Sent(START_MESSAGE.to_string(), 101),
        ]
    );
    assert!(!ann.is_stopped());
}

#[test]
fn start_fails_when_the_log_fails() {
    let mut ann = actor("ann");
    let step = ann.handle_command_with(Command::Start, &directory(&["ann"]), no_dice());
    let mut world = World::new();
    world.disk_fails = Some("disk full".to_string());
    let (reply, did) = world.run(&mut ann, step);
    assert_eq!(reply, Err(HandlerError::Persistence(PersistenceError::new("disk full".to_string()))));
    assert_eq!(did.last(), Some(&Did::Awaited));
    assert!(!did.iter().any(|d| matches!(d, Did::Sent(..))));
}

#[test]
fn failed_delivery_fails_the_command() {
    let mut ann = actor("ann");
    let step = ann.handle_command_with(Command::Help, &directory(&["ann"]), no_dice());
    let mut world = World::new();
    world.transport_fails = Some("chat not found".to_string());
    assert_eq!(
        world.run(&mut ann, step),
        (Err(HandlerError::Transport("chat not found".to_string())), vec![])
    );
}

#[test]
fn users_are_listed_in_order_without_the_stopped() {
    let mut everyone = directory(&["zed", "bob"]);
    everyone.insert(
        "ann".to_string(),
        UserHandle {
            user: User {
                login: "ann".to_string(),
                first_name: "Ann".to_string(),
                last_name: Some("Lee".to_string()),
            },
            is_stopped: false,
        },
    );
    everyone.insert("cat".to_string(), UserHandle { user: user("cat"), is_stopped: true });
    assert_eq!(users_text(&everyone), "Available users:\n* Ann Lee @ann\n* BOB @bob\n* ZED @zed");
    let mut ann = actor("ann");
    assert_eq!(
        command(&mut ann, Command::Users, &everyone, no_dice()),
        (
            Ok(()),
            vec![Did::Sent("Available users:\n* Ann Lee @ann\n* BOB @bob\n* ZED @zed".to_string(), 101)]
        )
    );
}

#[test]
fn users_of_an_empty_directory() {
    assert_eq!(users_text(&directory(&[])), "Available users:\n* ");
}

#[test]
fn send_to_oneself_is_refused() {
    let mut ann = actor("ann");
    let everyone = directory(&["ann", "bob"]);
    assert_eq!(
        command(&mut ann, send("@ann", 1, "hi me"), &everyone, dice("", "#x_y", "")),
        (Err(HandlerError::SelfSend), vec![])
    );
    assert_eq!(ann.thread_count(), 0);
    assert_eq!(ann.thread_of_message(1), None);
}

#[test]
fn send_to_an_unknown_thread_is_refused() {
    let mut ann = actor("ann");
    let everyone = directory(&["ann", "bob"]);
    assert_eq!(
        command(&mut ann, send("#calm_sea", 1, "hi"), &everyone, dice("", "#x_y", "")),
        (Err(HandlerError::UnknownThread("#calm_sea".to_string())), vec![])
    );
    assert_eq!(
        command(&mut ann, send("", 1, "hi"), &everyone, dice("", "#x_y", "")),
        (Err(HandlerError::UnknownThread("".to_string())), vec![])
    );
}

#[test]
fn send_to_a_login_without_actor_is_refused() {
    let mut ann = actor("ann");
    assert_eq!(
        command(&mut ann, send("@zoe", 1, "hi"), &directory(&["ann", "bob"]), dice("", "#x_y", "")),
        (Err(HandlerError::UserNotStarted), vec![])
    );
    assert_eq!(ann.thread_count(), 0);
}

#[test]
fn send_opens_a_thread_in_which_the_sender_shows() {
    let mut ann = actor("ann");
    let (reply, did) = command(&mut ann, send("@bob", 5, "hi bob"), &directory(&["ann", "bob"]), dice("", "#x_y", ""));
    assert_eq!(reply, Ok(()));
    assert_eq!(
        did,
        vec![
            Did::Asked(
                "bob".to_string(),
                Action::StartAnonymousThread(thread("#x_y", ThreadAnonimityMode::Them, "@bob", "ann"))
            ),
            Did::Wrote(vec![
                started("ann", "bob", "@bob", "#x_y", ThreadAnonimityMode::Me),
                message("ann", 5, "@bob"),
            ]),
            Did::Awaited,
            Did::Asked("bob".to_string(), Action::SendText("#x_y".to_string(), "hi bob".to_string())),
        ]
    );
    assert_eq!(ann.thread("@bob"), Some(&thread("@bob", ThreadAnonimityMode::Me, "#x_y", "bob")));
    assert_eq!(ann.thread_of_message(5), Some(&"@bob".to_string()));
}

#[test]
fn thread_is_not_kept_when_the_peer_refuses() {
    let mut ann = actor("ann");
    let step = ann.handle_command_with(send("@bob", 5, "hi"), &directory(&["ann", "bob"]), dice("", "#x_y", ""));
    let mut world = World::new();
    world.peer_refuses = Some(HandlerError::Banned);
    let (reply, did) = world.run(&mut ann, step);
    assert_eq!(reply, Err(HandlerError::Banned));
    assert_eq!(did.len(), 1);
    assert_eq!(ann.thread_count(), 0);
    assert_eq!(ann.thread_of_message(5), None);
}

#[test]
fn send_writes_to_a_thread_that_is_held() {
    let mut ann = actor("ann");
    hold(&mut ann, thread("#calm_sea", ThreadAnonimityMode::Them, "@ann", "bob"));
    let (reply, did) = command(&mut ann, send("#calm_sea", 8, "it is me"), &directory(&["ann"]), dice("", "#unused", ""));
    assert_eq!(reply, Ok(()));
    assert_eq!(
        did,
        vec![
            Did::Wrote(vec![message("ann", 8, "#calm_sea")]),
            Did::Awaited,
            Did::Asked("bob".to_string(), Action::SendText("@ann".to_string(), "it is me".to_string())),
        ]
    );
    assert_eq!(ann.thread_of_message(8), Some(&"#calm_sea".to_string()));
    assert_eq!(ann.thread_count(), 1);
}

#[test]
fn both_halves_of_a_directed_thread_fit() {
    let mut ann = actor("ann");
    let mut bob = actor("bob");
    let everyone = directory(&["ann", "bob"]);
    let step = ann.handle_command_with(send("@bob", 5, "hi bob"), &everyone, dice("", "#x_y", ""));
    let (login, offer, on_failure, rest) = match step {
        Step::Ask { login, action, on_failure, rest } => (login, action, on_failure, rest),
        other => panic!("unexpected: {:?}", other),
    };
    assert_eq!(login, "bob");
    assert_eq!(on_failure, OnFailure::Fail);
    let (reply, did) = action(&mut bob, offer);
    assert_eq!(
        did,
        vec![
            Did::Wrote(vec![started("bob", "ann", "#x_y", "@bob", ThreadAnonimityMode::Them)]),
            Did::Awaited,
        ]
    );
    let step = ann.after_ask(&login, on_failure, rest, reply);
    assert!(matches!(step, Step::Write { .. }));
    let mine = ann.thread("@bob").unwrap();
    let theirs = bob.thread("#x_y").unwrap();
    assert_eq!(mine.other_id(), theirs.id());
    assert_eq!(theirs.other_id(), mine.id());
    assert_eq!(mine.anon_mode(), ThreadAnonimityMode::Me);
    assert_eq!(theirs.anon_mode(), ThreadAnonimityMode::Them);
    assert_eq!(mine.other_login(), "bob");
    assert_eq!(theirs.other_login(), "ann");
}

#[test]
fn random_needs_someone_else() {
    let mut ann = actor("ann");
    let random = Command::Random { message_id: 1, text: "hi".to_string() };
    assert_eq!(
        command(&mut ann, random.clone(), &directory(&["ann"]), dice("ann", "#a_b", "#c_d")),
        (Err(HandlerError::NoOtherUsers), vec![])
    );
    assert_eq!(
        command(&mut ann, random, &directory(&[]), dice("", "#a_b", "#c_d")),
        (Err(HandlerError::NoOtherUsers), vec![])
    );
}

#[test]
fn random_does_not_pair_with_oneself() {
    let mut ann = actor("ann");
    let random = Command::Random { message_id: 1, text: "hi".to_string() };
    assert_eq!(
        command(&mut ann, random, &directory(&["ann", "bob"]), dice("ann", "#a_b", "#c_d")),
        (Err(HandlerError::SelfSend), vec![])
    );
}

#[test]
fn random_opens_a_thread_in_which_both_are_hidden() {
    let mut ann = actor("ann");
    let random = Command::Random { message_id: 9, text: "anyone?".to_string() };
    let (reply, did) = command(&mut ann, random, &directory(&["ann", "bob"]), dice("bob", "#a_b", "#c_d"));
    assert_eq!(reply, Ok(()));
    assert_eq!(
        did,
        vec![
            Did::Asked(
                "bob".to_string(),
                Action::StartAnonymousThread(thread("#c_d", ThreadAnonimityMode::Both, "#a_b", "ann"))
            ),
            Did::Wrote(vec![
                started("ann", "bob", "#a_b", "#c_d", ThreadAnonimityMode::Both),
                message("ann", 9, "#a_b"),
            ]),
            Did::Asked("bob".to_string(), Action::SendText("#c_d".to_string(), "anyone?".to_string())),
            Did::Sent("Started a new anonymous thread #a_b.".to_string(), 101),
            Did::Wrote(vec![message("ann", 101, "#a_b")]),
            Did::Awaited,
            Did::Awaited,
        ]
    );
    assert_eq!(ann.thread("#a_b"), Some(&thread("#a_b", ThreadAnonimityMode::Both, "#c_d", "bob")));
    assert_eq!(ann.thread_of_message(9), Some(&"#a_b".to_string()));
    assert_eq!(ann.thread_of_message(101), Some(&"#a_b".to_string()));
}

#[test]
fn random_fails_when_the_text_does_not_arrive() {
    let mut ann = actor("ann");
    let random = Command::Random { message_id: 9, text: "anyone?".to_string() };
    let step = ann.handle_command_with(random, &directory(&["ann", "bob"]), dice("bob", "#a_b", "#c_d"));
    let (login, on_failure, rest) = match step {
        Step::Ask { login, on_failure, rest, .. } => (login, on_failure, rest),
        other => panic!("unexpected: {:?}", other),
    };
    let step = ann.after_ask(&login, on_failure, rest, Ok(()));
    let rest = match step {
        Step::Write { rest, .. } => rest,
        other => panic!("unexpected: {:?}", other),
    };
    let step = ann.advance(rest);
    let (login, on_failure, rest) = match step {
        Step::Ask { login, on_failure, rest, .. } => (login, on_failure, rest),
        other => panic!("unexpected: {:?}", other),
    };
    assert_eq!(
        ann.after_ask(&login, on_failure, rest, Err(HandlerError::PeerStopped)),
        Step::Done(Err(HandlerError::PeerStopped))
    );
    assert!(ann.thread("#a_b").is_some());
}

#[test]
fn dice_are_cast_where_they_are_needed() {
    let words = WordLists::new(vec!["sea".to_string()], vec!["calm".to_string()]).unwrap();
    let everyone = directory(&["ann", "bob"]);
    let mut ann = actor("ann");
    let random = Command::Random { message_id: 9, text: "anyone?".to_string() };
    match ann.handle_command(random, &everyone, &words) {
        Step::Ask { login, action, .. } => {
            assert_eq!(login, "bob");
            assert_eq!(
                action,
                Action::StartAnonymousThread(thread("#calm_sea", ThreadAnonimityMode::Both, "#calm_sea", "ann"))
            );
        }
        other => panic!("unexpected: {:?}", other),
    }
    let mut ann = actor("ann");
    match ann.handle_command(send("@bob", 1, "hi"), &everyone, &words) {
        Step::Ask { login, action, .. } => {
            assert_eq!(login, "bob");
            assert_eq!(
                action,
                Action::StartAnonymousThread(thread("#calm_sea", ThreadAnonimityMode::Them, "@bob", "ann"))
            );
        }
        other => panic!("unexpected: {:?}", other),
    }
    let mut ann = actor("ann");
    assert_eq!(
        ann.handle_command(Command::Close { thread_id: "#a".to_string() }, &everyone, &words),
        Step::Done(Err(HandlerError::NoSuchThread("#a".to_string())))
    );
}

#[test]
fn reply_goes_to_the_thread_of_the_message() {
    let mut ann = actor("ann");
    hold(&mut ann, thread("#one", ThreadAnonimityMode::Them, "@ann", "bob"));
    let (_, did) = action(&mut ann, Action::SendText("#one".to_string(), "hello".to_string()));
    assert_eq!(did[0], Did::Sent(">>> Message from anonymous #one:\nhello".to_string(), 101));
    hold(&mut ann, thread("#two", ThreadAnonimityMode::Both, "#far", "cat"));
    hold(&mut ann, thread("#three", ThreadAnonimityMode::Me, "@ann", "dan"));
    let reply = Command::Reply { message_id: 7, reply_message_id: 101, text: "who are you".to_string() };
    let (outcome, did) = command(&mut ann, reply, &directory(&["ann"]), no_dice());
    assert_eq!(outcome, Ok(()));
    assert_eq!(
        did,
        vec![
            Did::Asked("bob".to_string(), Action::SendText("@ann".to_string(), "who are you".to_string())),
            Did::Wrote(vec![message("ann", 7, "#one")]),
            Did::Awaited,
        ]
    );
    assert_eq!(ann.thread_of_message(7), Some(&"#one".to_string()));
}

#[test]
fn reply_needs_a_message_of_a_thread_that_is_there() {
    let mut ann = actor("ann");
    let reply = Command::Reply { message_id: 7, reply_message_id: 3, text: "hm".to_string() };
    assert_eq!(command(&mut ann, reply.clone(), &directory(&[]), no_dice()), (Err(HandlerError::NotInThread), vec![]));
    hold(&mut ann, thread("#one", ThreadAnonimityMode::Both, "#far", "bob"));
    command(&mut ann, send("#one", 3, "hi"), &directory(&[]), no_dice());
    command(&mut ann, Command::Close { thread_id: "#one".to_string() }, &directory(&[]), no_dice());
    assert_eq!(command(&mut ann, reply, &directory(&[]), no_dice()), (Err(HandlerError::ThreadGone), vec![]));
}

#[test]
fn reply_is_not_indexed_when_the_peer_refuses() {
    let mut ann = actor("ann");
    hold(&mut ann, thread("#one", ThreadAnonimityMode::Both, "#far", "bob"));
    command(&mut ann, send("#one", 3, "hi"), &directory(&[]), no_dice());
    let reply = Command::Reply { message_id: 7, reply_message_id: 3, text: "hm".to_string() };
    let step = ann.handle_command_with(reply, &directory(&[]), no_dice());
    let mut world = World::new();
    world.peer_refuses = Some(HandlerError::PeerStopped);
    let (outcome, did) = world.run(&mut ann, step);
    assert_eq!(outcome, Err(HandlerError::PeerStopped));
    assert_eq!(did.len(), 1);
    assert_eq!(ann.thread_of_message(7), None);
}

#[test]
fn close_ends_both_halves() {
    let mut ann = actor("ann");
    hold(&mut ann, thread("#one", ThreadAnonimityMode::Both, "#far", "bob"));
    let (reply, did) = command(&mut ann, Command::Close { thread_id: "#one".to_string() }, &directory(&[]), no_dice());
    assert_eq!(reply, Ok(()));
    assert_eq!(
        did,
        vec![
            Did::Asked("bob".to_string(), Action::TerminateThread("#far".to_string())),
            Did::Wrote(vec![Event::ThreadTerminated(ThreadTerminatedEvent {
                login: "ann".to_string(),
                other_login: "bob".to_string(),
                my_thread_id: "#one".to_string(),
                other_thread_id: "#far".to_string(),
            })]),
            Did::Awaited,
        ]
    );
    assert_eq!(ann.thread("#one"), None);
}

#[test]
fn close_is_for_threads_whose_peer_is_hidden() {
    let mut ann = actor("ann");
    hold(&mut ann, thread("#them", ThreadAnonimityMode::Them, "@ann", "bob"));
    hold(&mut ann, thread("@cat", ThreadAnonimityMode::Me, "#far", "cat"));
    assert_eq!(
        command(&mut ann, Command::Close { thread_id: "#them".to_string() }, &directory(&[]), no_dice()),
        (Err(HandlerError::CloseSemiAnonymous), vec![])
    );
    assert!(ann.thread("#them").is_some());
    let (reply, _) = command(&mut ann, Command::Close { thread_id: "@cat".to_string() }, &directory(&[]), no_dice());
    assert_eq!(reply, Ok(()));
    assert_eq!(
        command(&mut ann, Command::Close { thread_id: "#none".to_string() }, &directory(&[]), no_dice()),
        (Err(HandlerError::NoSuchThread("#none".to_string())), vec![])
    );
}

#[test]
fn thread_stays_when_the_peer_does_not_drop_its_half() {
    let mut ann = actor("ann");
    hold(&mut ann, thread("#one", ThreadAnonimityMode::Both, "#far", "bob"));
    let step = ann.handle_command_with(Command::Close { thread_id: "#one".to_string() }, &directory(&[]), no_dice());
    let mut world = World::new();
    world.peer_refuses = Some(HandlerError::PeerStopped);
    let (reply, did) = world.run(&mut ann, step);
    assert_eq!(reply, Err(HandlerError::PeerTermination("user has stopped the bot".to_string())));
    assert_eq!(did.len(), 1);
    assert!(ann.thread("#one").is_some());
}

#[test]
fn ban_is_for_threads_in_which_only_the_owner_is_hidden() {
    let mut ann = actor("ann");
    hold(&mut ann, thread("#both", ThreadAnonimityMode::Both, "#far", "bob"));
    hold(&mut ann, thread("@cat", ThreadAnonimityMode::Me, "#far", "cat"));
    for id in ["#both", "@cat"] {
        assert_eq!(
            command(&mut ann, Command::Ban { thread_id: id.to_string() }, &directory(&[]), no_dice()),
            (Err(HandlerError::BanNotAnonymous), vec![])
        );
        assert!(ann.thread(id).is_some());
    }
    assert_eq!(
        command(&mut ann, Command::Ban { thread_id: "#none".to_string() }, &directory(&[]), no_dice()),
        (Err(HandlerError::NoSuchThread("#none".to_string())), vec![])
    );
    assert_eq!(ann.banned_thread("bob"), None);
}

#[test]
fn banned_login_cannot_hide_again() {
    let mut ann = actor("ann");
    hold(&mut ann, thread("#them", ThreadAnonimityMode::Them, "@ann", "bob"));
    let (reply, did) = command(&mut ann, Command::Ban { thread_id: "#them".to_string() }, &directory(&[]), no_dice());
    assert_eq!(reply, Ok(()));
    assert_eq!(
        did,
        vec![
            Did::Asked("bob".to_string(), Action::TerminateThread("@ann".to_string())),
            Did::Wrote(vec![Event::UserBanned(UserBannedEvent {
                login: "ann".to_string(),
                banned_login: "bob".to_string(),
                banned_thread_id: "#them".to_string(),
            })]),
            Did::Awaited,
        ]
    );
    assert_eq!(ann.thread("#them"), None);
    assert_eq!(ann.banned_thread("bob"), Some(&"#them".to_string()));
    assert_eq!(
        action(&mut ann, Action::StartAnonymousThread(thread("#new", ThreadAnonimityMode::Them, "@ann", "bob"))),
        (Err(HandlerError::Banned), vec![])
    );
    assert_eq!(ann.thread("#new"), None);
    let (reply, _) = action(&mut ann, Action::StartAnonymousThread(thread("#rnd", ThreadAnonimityMode::Both, "#far", "bob")));
    assert_eq!(reply, Ok(()));
    let (reply, _) = action(&mut ann, Action::StartAnonymousThread(thread("@bob", ThreadAnonimityMode::Me, "#far", "bob")));
    assert_eq!(reply, Ok(()));
    let (reply, _) = action(&mut ann, Action::StartAnonymousThread(thread("#cat", ThreadAnonimityMode::Them, "@ann", "cat")));
    assert_eq!(reply, Ok(()));
    assert_eq!(ann.thread_count(), 3);
}

#[test]
fn ban_does_not_stand_before_it_is_durable() {
    let mut ann = actor("ann");
    hold(&mut ann, thread("#them", ThreadAnonimityMode::Them, "@ann", "bob"));
    let step = ann.handle_command_with(Command::Ban { thread_id: "#them".to_string() }, &directory(&[]), no_dice());
    let mut world = World::new();
    world.disk_fails = Some("disk full".to_string());
    let (reply, _) = world.run(&mut ann, step);
    assert_eq!(reply, Err(HandlerError::Persistence(PersistenceError::new("disk full".to_string()))));
    assert_eq!(ann.banned_thread("bob"), None);
    assert_eq!(ann.thread("#them"), None);
}

#[test]
fn banned_threads_are_listed_in_order() {
    let mut ann = actor("ann");
    for (id, login) in [("#zeta", "bob"), ("#alpha", "cat"), ("#mid", "dan")] {
        hold(&mut ann, thread(id, ThreadAnonimityMode::Them, "@ann", login));
        command(&mut ann, Command::Ban { thread_id: id.to_string() }, &directory(&[]), no_dice());
    }
    assert_eq!(
        command(&mut ann, Command::Banlist, &directory(&[]), no_dice()),
        (Ok(()), vec![Did::Sent("Banned threads:\n* #alpha\n* #mid\n* #zeta".to_string(), 101)])
    );
}

#[test]
fn unban_lifts_the_ban_of_the_thread() {
    let mut ann = actor("ann");
    hold(&mut ann, thread("#them", ThreadAnonimityMode::Them, "@ann", "bob"));
    command(&mut ann, Command::Ban { thread_id: "#them".to_string() }, &directory(&[]), no_dice());
    assert_eq!(
        command(&mut ann, Command::Unban { thread_id: "#other".to_string() }, &directory(&[]), no_dice()),
        (Err(HandlerError::NotBanned("#other".to_string())), vec![])
    );
    let (reply, did) = command(&mut ann, Command::Unban { thread_id: "#them".to_string() }, &directory(&[]), no_dice());
    assert_eq!(reply, Ok(()));
    assert_eq!(
        did,
        vec![
            Did::Wrote(vec![Event::UserUnbanned(UserUnbannedEvent {
                login: "ann".to_string(),
                unbanned_login: "bob".to_string(),
            })]),
            Did::Awaited,
        ]
    );
    assert_eq!(ann.banned_thread("bob"), None);
    let (reply, _) = action(&mut ann, Action::StartAnonymousThread(thread("#new", ThreadAnonimityMode::Them, "@ann", "bob")));
    assert_eq!(reply, Ok(()));
}

#[test]
fn threads_lists_the_minted_ids_in_order() {
    let mut ann = actor("ann");
    hold(&mut ann, thread("#zeta", ThreadAnonimityMode::Both, "#far", "bob"));
    hold(&mut ann, thread("@cat", ThreadAnonimityMode::Me, "#far", "cat"));
    hold(&mut ann, thread("#alpha", ThreadAnonimityMode::Them, "@ann", "dan"));
    assert_eq!(
        command(&mut ann, Command::Threads, &directory(&[]), no_dice()),
        (Ok(()), vec![Did::Sent("Active threads:\n* #alpha\n* #zeta".to_string(), 101)])
    );
}

#[test]
fn threads_with_addressed_threads_only() {
    let mut ann = actor("ann");
    hold(&mut ann, thread("@cat", ThreadAnonimityMode::Me, "#far", "cat"));
    assert_eq!(
        command(&mut ann, Command::Threads, &directory(&[]), no_dice()),
        (Ok(()), vec![Did::Sent("There are no active threads.".to_string(), 101)])
    );
}

#[test]
fn broadcast_is_for_the_operator() {
    let mut ann = actor("ann");
    assert_eq!(
        command(&mut ann, Command::Broadcast { text: "hi all".to_string() }, &directory(&["ann", "bob"]), no_dice()),
        (Err(HandlerError::NotAdmin), vec![])
    );
}

#[test]
fn broadcast_reaches_everyone() {
    let mut operator = actor("sergio_4min");
    let everyone = directory(&["bob", "sergio_4min", "cat"]);
    let (reply, did) = command(&mut operator, Command::Broadcast { text: "hi all".to_string() }, &everyone, no_dice());
    assert_eq!(reply, Ok(()));
    assert_eq!(
        did,
        vec![
            Did::Sent("Starting broadcast to 3 users...".to_string(), 101),
            Did::Asked("bob".to_string(), Action::Broadcast("hi all".to_string())),
            Did::Sent("hi all".to_string(), 102),
            Did::Asked("cat".to_string(), Action::Broadcast("hi all".to_string())),
            Did::Sent("Broadcast is finished.".to_string(), 103),
        ]
    );
}

#[test]
fn broadcast_goes_on_when_a_peer_refuses() {
    let mut operator = actor("sergio_4min");
    let step = operator.handle_command_with(
        Command::Broadcast { text: "hi all".to_string() },
        &directory(&["bob", "cat"]),
        no_dice(),
    );
    let mut world = World::new();
    world.peer_refuses = Some(HandlerError::PeerStopped);
    let (reply, did) = world.run(&mut operator, step);
    assert_eq!(reply, Ok(()));
    assert_eq!(
        did,
        vec![
            Did::Sent("Starting broadcast to 2 users...".to_string(), 101),
            Did::Asked("bob".to_string(), Action::Broadcast("hi all".to_string())),
            Did::Sent("Failed to send broadcast to user @bob: user has stopped the bot".to_string(), 102),
            Did::Asked("cat".to_string(), Action::Broadcast("hi all".to_string())),
            Did::Sent("Failed to send broadcast to user @cat: user has stopped the bot".to_string(), 103),
            Did::Sent("Broadcast is finished.".to_string(), 104),
        ]
    );
}

#[test]
fn stopped_actor_takes_no_action() {
    let mut ann = actor("ann");
    hold(&mut ann, thread("#one", ThreadAnonimityMode::Both, "#far", "bob"));
    command(&mut ann, Command::Stop, &directory(&[]), no_dice());
    for refused in [
        Action::StartAnonymousThread(thread("#new", ThreadAnonimityMode::Both, "#far", "bob")),
        Action::SendText("#one".to_string(), "hi".to_string()),
        Action::SendText("#none".to_string(), "hi".to_string()),
        Action::TerminateThread("#one".to_string()),
    ] {
        assert_eq!(action(&mut ann, refused), (Err(HandlerError::PeerStopped), vec![]));
    }
    assert_eq!(ann.thread_count(), 1);
}

#[test]
fn broadcast_reaches_a_stopped_actor_too() {
    let mut ann = actor("ann");
    hold(&mut ann, thread("#one", ThreadAnonimityMode::Both, "#far", "bob"));
    command(&mut ann, Command::Stop, &directory(&[]), no_dice());
    assert_eq!(
        action(&mut ann, Action::Broadcast("news".to_string())),
        (Ok(()), vec![Did::Sent("news".to_string(), 101)])
    );
    assert!(ann.is_stopped());
    assert_eq!(ann.thread_count(), 1);
}

#[test]
fn notice_of_a_random_thread_is_logged_under_its_own_id() {
    let mut ann = actor("ann");
    let random = Command::Random { message_id: 9, text: "anyone?".to_string() };
    let step = ann.handle_command_with(random, &directory(&["ann", "bob"]), dice("bob", "#a_b", "#c_d"));
    let mut world = World::new();
    world.next_message_id = 776;
    let (reply, did) = world.run(&mut ann, step);
    assert_eq!(reply, Ok(()));
    assert_eq!(did[3], Did::Sent("Started a new anonymous thread #a_b.".to_string(), 777));
    assert_eq!(did[4], Did::Wrote(vec![message("ann", 777, "#a_b")]));
    assert_eq!(ann.thread_of_message(777), Some(&"#a_b".to_string()));
    assert_eq!(ann.thread_of_message(9), Some(&"#a_b".to_string()));
}

#[test]
fn closed_thread_is_logged_under_the_id_that_was_closed() {
    let mut ann = actor("ann");
    hold(&mut ann, thread("#one", ThreadAnonimityMode::Me, "#far", "bob"));
    let (_, did) = command(&mut ann, Command::Close { thread_id: "#one".to_string() }, &directory(&[]), no_dice());
    match &did[1] {
        Did::Wrote(events) => match &events[0] {
            Event::ThreadTerminated(ev) => {
                assert_eq!(ev.my_thread_id, "#one");
                assert_eq!(ev.other_thread_id, "#far");
                assert_eq!((ev.login.as_str(), ev.other_login.as_str()), ("ann", "bob"));
            }
            other => panic!("unexpected: {:?}", other),
        },
        other => panic!("unexpected: {:?}", other),
    }
}

#[test]
fn thread_id_in_use_is_not_taken() {
    let mut ann = actor("ann");
    hold(&mut ann, thread("#one", ThreadAnonimityMode::Both, "#far", "bob"));
    assert_eq!(
        action(&mut ann, Action::StartAnonymousThread(thread("#one", ThreadAnonimityMode::Both, "#near", "cat"))),
        (Err(HandlerError::ThreadIdTaken("#one".to_string())), vec![])
    );
    assert_eq!(ann.thread("#one").unwrap().other_login(), "bob");
}

#[test]
fn offered_thread_is_kept_once_it_is_durable() {
    let mut ann = actor("ann");
    let offer = Action::StartAnonymousThread(thread("#one", ThreadAnonimityMode::Both, "#far", "bob"));
    let step = ann.handle_action(offer);
    let mut world = World::new();
    world.disk_fails = Some("disk full".to_string());
    let (reply, did) = world.run(&mut ann, step);
    assert_eq!(reply, Err(HandlerError::Persistence(PersistenceError::new("disk full".to_string()))));
    assert_eq!(
        did,
        vec![
            Did::Wrote(vec![started("ann", "bob", "#one", "#far", ThreadAnonimityMode::Both)]),
            Did::Awaited,
        ]
    );
    assert_eq!(ann.thread_count(), 0);
}

#[test]
fn relayed_text_is_headed_by_the_mode() {
    let mut ann = actor("ann");
    hold(&mut ann, thread("@bob", ThreadAnonimityMode::Me, "#far", "bob"));
    hold(&mut ann, thread("#them", ThreadAnonimityMode::Them, "@ann", "cat"));
    hold(&mut ann, thread("#both", ThreadAnonimityMode::Both, "#far", "dan"));
    let (reply, did) = action(&mut ann, Action::SendText("@bob".to_string(), "one\ntwo".to_string()));
    assert_eq!(reply, Ok(()));
    assert_eq!(
        did,
        vec![
            Did::Sent(">>> Message from @bob:\none\ntwo".to_string(), 101),
            Did::Wrote(vec![message("ann", 101, "@bob")]),
            Did::Awaited,
        ]
    );
    assert_eq!(ann.thread_of_message(101), Some(&"@bob".to_string()));
    let (_, did) = action(&mut ann, Action::SendText("#them".to_string(), "x".to_string()));
    assert_eq!(did[0], Did::Sent(">>> Message from anonymous #them:\nx".to_string(), 101));
    let (_, did) = action(&mut ann, Action::SendText("#both".to_string(), "x".to_string()));
    assert_eq!(did[0], Did::Sent(">>> Message from random chat #both:\nx".to_string(), 101));
}

#[test]
fn relayed_message_is_indexed_once_it_is_durable() {
    let mut ann = actor("ann");
    hold(&mut ann, thread("#one", ThreadAnonimityMode::Both, "#far", "bob"));
    let step = ann.handle_action(Action::SendText("#one".to_string(), "x".to_string()));
    let (on_delivery, rest) = match step {
        Step::Send { on_delivery, rest, .. } => (on_delivery, rest),
        other => panic!("unexpected: {:?}", other),
    };
    assert_eq!(on_delivery, OnDelivery::Record("#one".to_string()));
    let step = ann.after_send(on_delivery, rest, Ok(55));
    let rest = match step {
        Step::Write { events, rest } => {
            assert_eq!(events, vec![message("ann", 55, "#one")]);
            rest
        }
        other => panic!("unexpected: {:?}", other),
    };
    let step = ann.advance(rest);
    let rest = match step {
        Step::Await { rest } => rest,
        other => panic!("unexpected: {:?}", other),
    };
    assert_eq!(ann.thread_of_message(55), None);
    assert_eq!(ann.after_await(rest, Ok(())), Step::Done(Ok(())));
    assert_eq!(ann.thread_of_message(55), Some(&"#one".to_string()));
}

#[test]
fn thread_closed_by_the_peer_is_dropped() {
    let mut ann = actor("ann");
    hold(&mut ann, thread("#one", ThreadAnonimityMode::Both, "#far", "bob"));
    assert!(!ann.accepts(&Action::TerminateThread("#none".to_string())));
    assert!(!ann.accepts(&Action::SendText("#none".to_string(), "x".to_string())));
    assert_eq!(
        action(&mut ann, Action::TerminateThread("#one".to_string())),
        (Ok(()), vec![Did::Sent("Thread #one has been closed by the other side.".to_string(), 101)])
    );
    assert_eq!(ann.thread_count(), 0);
}

#[test]
fn broadcast_of_a_peer_is_shown() {
    let mut ann = actor("ann");
    assert_eq!(
        action(&mut ann, Action::Broadcast("news".to_string())),
        (Ok(()), vec![Did::Sent("news".to_string(), 101)])
    );
}

#[test]
fn thread_knows_how_to_reach_its_peer() {
    let held = thread("#one", ThreadAnonimityMode::Them, "@ann", "bob");
    assert_eq!(held.mirror("ann"), thread("@ann", ThreadAnonimityMode::Me, "#one", "ann"));
    assert_eq!(held.clone(), held);
}

#[test]
fn handler_errors_have_their_messages() {
    let cases = [
        (HandlerError::Stopped, "you have stopped the bot. Use `/start` to restart it"),
        (HandlerError::PeerStopped, "user has stopped the bot"),
        (HandlerError::NoOtherUsers, "there are currently no other users to chat with"),
        (HandlerError::UnknownThread("#x".to_string()), "unknown thread: #x"),
        (HandlerError::SelfSend, "cannot send a message to self"),
        (HandlerError::UserNotStarted, "user has not started this bot"),
        (HandlerError::NotInThread, "message you are replying to does not belong to a thread"),
        (HandlerError::ThreadGone, "thread does not exist anymore"),
        (HandlerError::NoSuchThread("#x".to_string()), "thread #x does not exist"),
        (HandlerError::CloseSemiAnonymous, "cannot close a semi-anonimous thread; use `/ban` instead"),
        (HandlerError::BanNotAnonymous, "cannot ban random or non-anonimous chat; use `/close` instead"),
        (
            HandlerError::PeerTermination("user has stopped the bot".to_string()),
            "failed to terminate peer thread: user has stopped the bot",
        ),
        (HandlerError::NotBanned("#x".to_string()), "no #x in your ban list"),
        (HandlerError::NotAdmin, "you are not admin"),
        (HandlerError::ThreadIdTaken("#x".to_string()), "thread id #x is already used"),
        (HandlerError::Banned, "you are banned by this user"),
        (
            HandlerError::Persistence(PersistenceError::new("disk full".to_string())),
            "persistence error: failed to write events: disk full",
        ),
        (
            HandlerError::Transport("chat not found".to_string()),
            "failed to send message to user: chat not found",
        ),
    ];
    for (error, text) in cases {
        assert_eq!(error.message(), text);
    }
}

#[test]
fn actor_is_retired_when_both_mailboxes_are_closed() {
    let mut mailboxes = lovebot::handler::Mailboxes::new();
    assert!(mailboxes.is_open(lovebot::handler::Mailbox::Commands));
    assert!(mailboxes.is_open(lovebot::handler::Mailbox::Actions));
    assert!(!mailboxes.retired());
    mailboxes.close(lovebot::handler::Mailbox::Commands);
    assert!(!mailboxes.is_open(lovebot::handler::Mailbox::Commands));
    assert!(mailboxes.is_open(lovebot::handler::Mailbox::Actions));
    assert!(!mailboxes.retired());
    mailboxes.close(lovebot::handler::Mailbox::Commands);
    assert!(!mailboxes.retired());
    mailboxes.close(lovebot::handler::Mailbox::Actions);
    assert!(mailboxes.retired());
    assert_eq!(lovebot::handler::MAILBOX_CAPACITY, 100);
}

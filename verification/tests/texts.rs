use lovebot::data::Sender;
use lovebot::data::ThreadAnonimityMode;
use lovebot::data::User;
use lovebot::data::UserError;
use lovebot::text::after_first;
use lovebot::text::begins_with;
use lovebot::text::characters;
use lovebot::text::join;
use lovebot::text::same_text;
use lovebot::text::sort;
use lovebot::text::to_decimal;
use lovebot::util::error_reply;
use lovebot::util::random_adjective;
use lovebot::util::random_login;
use lovebot::util::random_noun;
use lovebot::util::random_thread_id;
use lovebot::util::thread_id_from;
use lovebot::util::Writer;
use lovebot::util::WordLists;
use lovebot::util::HELP_MESSAGE;
use lovebot::util::START_MESSAGE;

fn strings(items: &[&str]) -> Vec<String> {
    items.iter().map(|s| s.to_string()).collect()
}

#[test]
fn sort_orders_by_code_point() {
    assert_eq!(
        sort(strings(&["b", "a", "B", "ab", "", "a", "é", "z"])),
        strings(&["", "B", "a", "a", "ab", "b", "z", "é"])
    );
    assert_eq!(sort(Vec::new()), Vec::<String>::new());
}

#[test]
fn shorter_comes_before_longer() {
    assert_eq!(sort(strings(&["#ab", "#a", "#"])), strings(&["#", "#a", "#ab"]));
}

#[test]
fn join_puts_the_separator_between() {
    assert_eq!(join(&strings(&["a", "b", "c"]), "\n* "), "a\n* b\n* c");
    assert_eq!(join(&strings(&["a"]), ", "), "a");
    assert_eq!(join(&Vec::new(), ", "), "");
    assert_eq!(join(&strings(&["", ""]), "-"), "-");
}

#[test]
fn decimal_of_numbers() {
    assert_eq!(to_decimal(0), "0");
    assert_eq!(to_decimal(7), "7");
    assert_eq!(to_decimal(10), "10");
    assert_eq!(to_decimal(1000), "1000");
    assert_eq!(to_decimal(9081726354), "9081726354");
    assert_eq!(to_decimal(usize::MAX), usize::MAX.to_string());
}

#[test]
fn strings_by_characters() {
    assert_eq!(characters("aé#"), vec!['a', 'é', '#']);
    assert_eq!(characters(""), Vec::<char>::new());
    assert!(begins_with("#x", '#'));
    assert!(!begins_with("x#", '#'));
    assert!(!begins_with("", '#'));
    assert_eq!(after_first("@bob"), "bob");
    assert_eq!(after_first("é"), "");
    assert!(same_text("abc", "abc"));
    assert!(!same_text("abc", "abd"));
}

#[test]
fn thread_id_is_hash_adjective_underscore_noun() {
    assert_eq!(thread_id_from("calm", "sea"), "#calm_sea");
    assert_eq!(thread_id_from("", ""), "#_");
}

#[test]
fn error_reply_frames_the_message() {
    assert_eq!(error_reply("you are not admin"), "Error: you are not admin.");
}

#[test]
fn word_lists_must_not_be_empty() {
    assert!(WordLists::new(Vec::new(), strings(&["calm"])).is_none());
    assert!(WordLists::new(strings(&["sea"]), Vec::new()).is_none());
    assert!(WordLists::new(strings(&["sea"]), strings(&["calm"])).is_some());
}

#[test]
fn random_words_come_from_their_lists() {
    let nouns = strings(&["sea", "hill", "fox"]);
    let adjectives = strings(&["calm", "red"]);
    let words = WordLists::new(nouns.clone(), adjectives.clone()).unwrap();
    for _ in 0..50 {
        assert!(nouns.contains(random_noun(&words)));
        assert!(adjectives.contains(random_adjective(&words)));
        let id = random_thread_id(&words);
        let (adjective, noun) = id[1..].split_once('_').unwrap();
        assert!(id.starts_with('#'));
        assert!(adjectives.contains(&adjective.to_string()));
        assert!(nouns.contains(&noun.to_string()));
    }
}

#[test]
fn random_words_reach_every_word() {
    let words = WordLists::new(strings(&["sea", "hill"]), strings(&["calm"])).unwrap();
    let mut seen_sea = false;
    let mut seen_hill = false;
    for _ in 0..400 {
        match random_noun(&words).as_str() {
            "sea" => seen_sea = true,
            "hill" => seen_hill = true,
            other => panic!("not a noun of the list: {}", other),
        }
    }
    assert!(seen_sea && seen_hill);
}

#[test]
fn random_login_is_one_of_them() {
    let logins = strings(&["ann", "bob"]);
    for _ in 0..50 {
        assert!(logins.contains(random_login(&logins).unwrap()));
    }
    assert_eq!(random_login(&Vec::new()), None);
    assert_eq!(random_login(&strings(&["zoe"])), Some(&"zoe".to_string()));
}

#[test]
fn user_needs_a_username() {
    let sender = Sender {
        username: Some("ann".to_string()),
        first_name: "Ann".to_string(),
        last_name: Some("Lee".to_string()),
    };
    assert_eq!(
        User::try_from(&sender),
        Ok(User {
            login: "ann".to_string(),
            first_name: "Ann".to_string(),
            last_name: Some("Lee".to_string()),
        })
    );
    let nameless = Sender { username: None, first_name: "Ann".to_string(), last_name: None };
    assert_eq!(User::try_from(&nameless), Err(UserError::NoUsername));
    assert_eq!(UserError::NoUsername.message(), "user has no username");
}

#[test]
fn modes_mirror_each_other() {
    assert_eq!(ThreadAnonimityMode::Me.mirror(), ThreadAnonimityMode::Them);
    assert_eq!(ThreadAnonimityMode::Them.mirror(), ThreadAnonimityMode::Me);
    assert_eq!(ThreadAnonimityMode::Both.mirror(), ThreadAnonimityMode::Both);
}

#[test]
fn canned_texts_begin_as_they_should() {
    assert!(START_MESSAGE.starts_with("Hello! This is anonymous chatting bot."));
    assert!(START_MESSAGE.ends_with("For more commands, use `/help`."));
    assert!(HELP_MESSAGE.starts_with("Available commands:\n* `/send [receiver] [message]`"));
}

#[test]
fn lock_hands_back_what_was_written() {
    let writer: Writer<u64> = Writer::new(5);
    let reader = writer.reader();
    let (value, handle) = writer.write();
    assert_eq!(value, 5);
    handle.release_write(9);
    let held = reader.read();
    assert_eq!(*held.borrow(), 9);
    held.release_read();
    let (value, handle) = writer.write();
    assert_eq!(value, 9);
    handle.release_write(value + 1);
    let other = writer.reader();
    let held = other.read();
    assert_eq!(*held.borrow(), 10);
    held.release_read();
}

#[test]
fn readers_share_the_lock() {
    let writer: Writer<Vec<String>> = Writer::new(Vec::new());
    let first = writer.reader();
    let second = writer.reader();
    let one = first.read();
    let two = second.read();
    assert!(one.borrow().is_empty() && two.borrow().is_empty());
    one.release_read();
    two.release_read();
    let (mut value, handle) = writer.write();
    value.push("ann".to_string());
    handle.release_write(value);
    let one = first.read();
    assert_eq!(one.borrow().len(), 1);
    one.release_read();
}

#[test]
fn canned_texts_are_whole() {
    assert_eq!(
        START_MESSAGE,
        "Hello! This is anonymous chatting bot. Quick start guide:\n\n* Use command `/send @sergio_4min Hello!` to send an anonymous message to a particular user;\n* Use command `/random Hello!` to send an anonymous message to a random user.\n* Use command `/users` to list all available users.\n\nFor more commands, use `/help`."
    );
    assert_eq!(
        HELP_MESSAGE,
        "Available commands:\n* `/send [receiver] [message]` - send a message. Receiver can either be a @username or a #thread.\n* `/random [message]` - send a message to a random user.\n* `/users` - list available users.\n* `/threads` - list active anonymous threads.\n* `/help` - show this message.\n\nHints:\n* You can reply to a message instead of using `/send` command.\n\nShould you need any further assistance, write to @sergio_4min."
    );
    assert_eq!(lovebot::util::OPERATOR_LOGIN, "sergio_4min");
}

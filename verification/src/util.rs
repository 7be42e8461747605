//! Canned texts, the two ends of a reader/writer lock, behind which the
//! dispatcher and its directory are shared, and the random words of which
//! thread ids are made.

use rand::seq::SliceRandom;
use std::sync::Arc;
use vstd::prelude::*;
use vstd::string::StringExecFns;
use crate::text::owned;
use crate::text::texts;
use vstd::rwlock::ReadHandle;
use vstd::rwlock::RwLock;
use vstd::rwlock::WriteHandle;

verus! {

/// What a user is told after `/start`.
pub const START_MESSAGE: &'static str = "\
Hello! This is anonymous chatting bot. Quick start guide:

* Use command `/send @sergio_4min Hello!` to send an anonymous message to a particular user;
* Use command `/random Hello!` to send an anonymous message to a random user.
* Use command `/users` to list all available users.

For more commands, use `/help`.";

/// What a user is told after `/help`.
pub const HELP_MESSAGE: &'static str = "\
Available commands:
* `/send [receiver] [message]` - send a message. Receiver can either be a @username or a #thread.
* `/random [message]` - send a message to a random user.
* `/users` - list available users.
* `/threads` - list active anonymous threads.
* `/help` - show this message.

Hints:
* You can reply to a message instead of using `/send` command.

Should you need any further assistance, write to @sergio_4min.";

/// What a user is told after `/stop`.
pub const STOP_MESSAGE: &'static str =
    "You have stopped the bot. You will not receive messages until you use `/start` again.";

/// The login of the one user who may broadcast.
pub const OPERATOR_LOGIN: &'static str = "sergio_4min";

/// The predicate of a lock that admits every value.
pub open spec fn admits_all<T>() -> spec_fn(T) -> bool {
    |value: T| true
}

/// The owning end of a value that is shared behind a reader/writer lock.
/// Only this end hands out the value for change.
#[verifier::reject_recursive_types(T)]
pub struct Writer<T> {
    inner: Arc<RwLock<T, spec_fn(T) -> bool>>,
}

/// A reading end of a value that is shared behind a reader/writer lock.
#[verifier::reject_recursive_types(T)]
pub struct Reader<T> {
    inner: Arc<RwLock<T, spec_fn(T) -> bool>>,
}

impl<T> Writer<T> {
    #[verifier::type_invariant]
    spec fn admits_every_value(self) -> bool {
        self.inner.pred() == admits_all::<T>()
    }

    /// The lock that this end writes to.
    pub closed spec fn lock(self) -> RwLock<T, spec_fn(T) -> bool> {
        *self.inner
    }

    /// Shares `value` behind a new lock, which takes any value of its type.
    pub fn new(value: T) -> (writer: Self)
        ensures
            forall|v: T| writer.lock().inv(v),
    {
        let lock = RwLock::new(value, Ghost(admits_all::<T>()));
        Writer { inner: Arc::new(lock) }
    }

    /// A reading end of the same lock.
    pub fn reader(&self) -> (reader: Reader<T>)
        ensures
            reader.lock() == self.lock(),
    {
        proof {
            use_type_invariant(self);
        }
        Reader { inner: self.inner.clone() }
    }

    /// Waits until no one else holds the lock and takes the value out for
    /// change. The handle gives it back, changed or not, with
    /// `release_write`, and takes any value.
    pub fn write(&self) -> (held: (T, WriteHandle<'_, T, spec_fn(T) -> bool>))
        ensures
            held.1.rwlock() == self.lock(),
            forall|v: T| held.1.rwlock().inv(v),
    {
        proof {
            use_type_invariant(self);
        }
        self.inner.acquire_write()
    }
}

impl<T> Reader<T> {
    #[verifier::type_invariant]
    spec fn admits_every_value(self) -> bool {
        self.inner.pred() == admits_all::<T>()
    }

    /// The lock that this end reads from.
    pub closed spec fn lock(self) -> RwLock<T, spec_fn(T) -> bool> {
        *self.inner
    }

    /// Waits until no one holds the lock for change and lends the value for
    /// reading. The handle ends the loan with `release_read`.
    pub fn read(&self) -> (held: ReadHandle<'_, T, spec_fn(T) -> bool>)
        ensures
            held.rwlock() == self.lock(),
    {
        self.inner.acquire_read()
    }
}

/// Draws one of `items` with `SliceRandom::choose` of rand and the
/// generator of the calling thread. Trusted: that nothing is drawn from no
/// items, and that what is drawn from some is one of them. Which one is left
/// open.
#[verifier::external_body]
fn draw(items: &Vec<String>) -> (drawn: Option<&String>)
    ensures
        drawn is None <==> items@.len() == 0,
        drawn matches Some(item) ==> texts(items@).contains(item@),
{
    items.as_slice().choose(&mut rand::thread_rng())
}

/// One of `logins`, drawn at random; `None` where there is none.
pub fn random_login(logins: &Vec<String>) -> (drawn: Option<&String>)
    ensures
        drawn is None <==> logins@.len() == 0,
        drawn matches Some(login) ==> texts(logins@).contains(login@),
{
    draw(logins)
}

/// The words that thread ids are minted from. Neither list is empty.
pub struct WordLists {
    nouns: Vec<String>,
    adjectives: Vec<String>,
}

impl WordLists {
    #[verifier::type_invariant]
    spec fn stocked(self) -> bool {
        self.nouns@.len() > 0 && self.adjectives@.len() > 0
    }

    /// The nouns.
    pub closed spec fn nouns(self) -> Seq<Seq<char>> {
        texts(self.nouns@)
    }

    /// The adjectives.
    pub closed spec fn adjectives(self) -> Seq<Seq<char>> {
        texts(self.adjectives@)
    }

    /// The two lists, unless one of them is empty.
    pub fn new(nouns: Vec<String>, adjectives: Vec<String>) -> (words: Option<Self>)
        ensures
            words is Some <==> nouns@.len() > 0 && adjectives@.len() > 0,
            words matches Some(w) ==> w.nouns() == texts(nouns@) && w.adjectives() == texts(
                adjectives@,
            ),
    {
        if nouns.len() == 0 || adjectives.len() == 0 {
            None
        } else {
            Some(WordLists { nouns, adjectives })
        }
    }
}

/// One of the nouns, drawn at random.
pub fn random_noun(words: &WordLists) -> (noun: &String)
    ensures
        words.nouns().contains(noun@),
{
    proof {
        use_type_invariant(words);
    }
    match draw(&words.nouns) {
        Some(noun) => noun,
        None => &words.nouns[0],
    }
}

/// One of the adjectives, drawn at random.
pub fn random_adjective(words: &WordLists) -> (adjective: &String)
    ensures
        words.adjectives().contains(adjective@),
{
    proof {
        use_type_invariant(words);
    }
    match draw(&words.adjectives) {
        Some(adjective) => adjective,
        None => &words.adjectives[0],
    }
}

/// The thread id made of an adjective and a noun.
pub open spec fn thread_id_of(adjective: Seq<char>, noun: Seq<char>) -> Seq<char> {
    "#"@ + adjective + "_"@ + noun
}

/// Whether `thread_id` is made of an adjective and a noun of `words`.
pub open spec fn minted_from(thread_id: Seq<char>, words: WordLists) -> bool {
    exists|adjective: Seq<char>, noun: Seq<char>|
        #![trigger thread_id_of(adjective, noun)]
        words.adjectives().contains(adjective) && words.nouns().contains(noun) && thread_id
            == thread_id_of(adjective, noun)
}

/// The thread id made of an adjective and a noun.
pub fn thread_id_from(adjective: &str, noun: &str) -> (thread_id: String)
    ensures
        thread_id@ == thread_id_of(adjective@, noun@),
{
    let mut thread_id = owned("#");
    thread_id.append(adjective);
    thread_id.append("_");
    thread_id.append(noun);
    thread_id
}

/// A thread id minted at random from `words`.
pub fn random_thread_id(words: &WordLists) -> (thread_id: String)
    ensures
        minted_from(thread_id@, *words),
{
    let adjective = random_adjective(words);
    let noun = random_noun(words);
    let thread_id = thread_id_from(adjective.as_str(), noun.as_str());
    assert(thread_id@ == thread_id_of(adjective@, noun@));
    thread_id
}

/// What the transport shows for a failed command: `Error: `, the message and
/// a full stop.
pub fn error_reply(message: &str) -> (reply: String)
    ensures
        reply@ == "Error: "@ + message@ + "."@,
{
    let mut reply = owned("Error: ");
    reply.append(message);
    reply.append(".");
    reply
}

} // verus!

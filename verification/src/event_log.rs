//! The events, the framing of the log that holds them, and the batching of
//! what is written to it.

use std::collections::VecDeque;
use vstd::prelude::*;
use crate::data::ThreadAnonimityMode;
use crate::data::ThreadId;
use crate::data::User;
use crate::data::UserView;
use crate::text::owned;

verus! {

/// A fact that changed the state of some actor. The log holds nothing else,
/// and every actor's state is the fold of the events that name its login.
#[derive(Debug, Clone, PartialEq, Eq)]
pub enum Event {
    UserConnected(UserConnectedEvent),
    ThreadStarted(ThreadStartedEvent),
    ThreadMessageReceived(ThreadMessageReceivedEvent),
    ThreadTerminated(ThreadTerminatedEvent),
    UserBanned(UserBannedEvent),
    UserUnbanned(UserUnbannedEvent),
    UserStopped(UserStoppedEvent),
    UserStarted(UserStartedEvent),
}

/// A login was seen for the first time.
#[derive(Debug, Clone, PartialEq, Eq)]
pub struct UserConnectedEvent {
    pub user: User,
    pub chat_id: i64,
}

/// `login` gained its half of a conversation with `other_login`.
#[derive(Debug, Clone, PartialEq, Eq)]
pub struct ThreadStartedEvent {
    pub login: String,
    pub other_login: String,
    pub my_thread_id: ThreadId,
    pub other_thread_id: ThreadId,
    pub anon_mode: ThreadAnonimityMode,
}

/// A message that `login` sent or received belongs to `thread_id`.
#[derive(Debug, Clone, PartialEq, Eq)]
pub struct ThreadMessageReceivedEvent {
    pub login: String,
    pub message_id: i32,
    pub thread_id: String,
}

/// Both halves of a conversation were closed.
#[derive(Debug, Clone, PartialEq, Eq)]
pub struct ThreadTerminatedEvent {
    pub login: String,
    pub other_login: String,
    pub my_thread_id: ThreadId,
    pub other_thread_id: ThreadId,
}

/// `login` banned the peer of one of its threads.
#[derive(Debug, Clone, PartialEq, Eq)]
pub struct UserBannedEvent {
    pub login: String,
    pub banned_login: String,
    pub banned_thread_id: ThreadId,
}

/// `login` lifted a ban.
#[derive(Debug, Clone, PartialEq, Eq)]
pub struct UserUnbannedEvent {
    pub login: String,
    pub unbanned_login: String,
}

/// `login` stopped the bot.
#[derive(Debug, Clone, PartialEq, Eq)]
pub struct UserStoppedEvent {
    pub login: String,
}

/// `login` started the bot again.
#[derive(Debug, Clone, PartialEq, Eq)]
pub struct UserStartedEvent {
    pub login: String,
}

/// The mathematical value of an [`Event`].
pub enum EventView {
    UserConnected { user: UserView, chat_id: i64 },
    ThreadStarted {
        login: Seq<char>,
        other_login: Seq<char>,
        my_thread_id: Seq<char>,
        other_thread_id: Seq<char>,
        anon_mode: ThreadAnonimityMode,
    },
    ThreadMessageReceived { login: Seq<char>, message_id: i32, thread_id: Seq<char> },
    ThreadTerminated {
        login: Seq<char>,
        other_login: Seq<char>,
        my_thread_id: Seq<char>,
        other_thread_id: Seq<char>,
    },
    UserBanned { login: Seq<char>, banned_login: Seq<char>, banned_thread_id: Seq<char> },
    UserUnbanned { login: Seq<char>, unbanned_login: Seq<char> },
    UserStopped { login: Seq<char> },
    UserStarted { login: Seq<char> },
}

impl View for Event {
    type V = EventView;

    open spec fn view(&self) -> EventView {
        match *self {
            Event::UserConnected(e) => EventView::UserConnected { user: e.user@, chat_id: e.chat_id },
            Event::ThreadStarted(e) => EventView::ThreadStarted {
                login: e.login@,
                other_login: e.other_login@,
                my_thread_id: e.my_thread_id@,
                other_thread_id: e.other_thread_id@,
                anon_mode: e.anon_mode,
            },
            Event::ThreadMessageReceived(e) => EventView::ThreadMessageReceived {
                login: e.login@,
                message_id: e.message_id,
                thread_id: e.thread_id@,
            },
            Event::ThreadTerminated(e) => EventView::ThreadTerminated {
                login: e.login@,
                other_login: e.other_login@,
                my_thread_id: e.my_thread_id@,
                other_thread_id: e.other_thread_id@,
            },
            Event::UserBanned(e) => EventView::UserBanned {
                login: e.login@,
                banned_login: e.banned_login@,
                banned_thread_id: e.banned_thread_id@,
            },
            Event::UserUnbanned(e) => EventView::UserUnbanned {
                login: e.login@,
                unbanned_login: e.unbanned_login@,
            },
            Event::UserStopped(e) => EventView::UserStopped { login: e.login@ },
            Event::UserStarted(e) => EventView::UserStarted { login: e.login@ },
        }
    }
}

/// The values of a sequence of events.
pub open spec fn event_views(events: Seq<Event>) -> Seq<EventView> {
    events.map_values(|e: Event| e@)
}

/// The byte that ends a record of the log.
pub const RECORD_END: u8 = 10;

/// Where the first record of `bytes` ends: the place of the first
/// [`RECORD_END`], or the length of `bytes` where there is none.
pub open spec fn record_len(bytes: Seq<u8>) -> int
    decreases bytes.len(),
{
    if bytes.len() == 0 || bytes[0] == RECORD_END {
        0
    } else {
        1 + record_len(bytes.skip(1))
    }
}

/// What follows the first record of `bytes` and the byte that ends it.
pub open spec fn after_record(bytes: Seq<u8>) -> Seq<u8> {
    if record_len(bytes) < bytes.len() {
        bytes.skip(record_len(bytes) + 1)
    } else {
        Seq::<u8>::empty()
    }
}

/// The records that `bytes` holds, in order, each without the byte that ends
/// it. The last record may lack that byte.
pub open spec fn records(bytes: Seq<u8>) -> Seq<Seq<u8>>
    decreases bytes.len(),
    via records_decreases
{
    if bytes.len() == 0 {
        Seq::<Seq<u8>>::empty()
    } else {
        seq![bytes.take(record_len(bytes))] + records(after_record(bytes))
    }
}

#[via_fn]
proof fn records_decreases(bytes: Seq<u8>) {
    lemma_record_len(bytes);
}

/// The first record ends inside `bytes`, and no byte before its end is a
/// [`RECORD_END`].
pub proof fn lemma_record_len(bytes: Seq<u8>)
    ensures
        0 <= record_len(bytes) <= bytes.len(),
        record_len(bytes) < bytes.len() ==> bytes[record_len(bytes)] == RECORD_END,
        forall|i: int| 0 <= i < record_len(bytes) ==> bytes[i] != RECORD_END,
    decreases bytes.len(),
{
    if bytes.len() == 0 || bytes[0] == RECORD_END {
    } else {
        lemma_record_len(bytes.skip(1));
        assert forall|i: int| 0 <= i < record_len(bytes) implies bytes[i] != RECORD_END by {
            if i > 0 {
                assert(bytes.skip(1)[i - 1] == bytes[i]);
            }
        }
    }
}

/// The bytes of `records`, each followed by a [`RECORD_END`].
pub open spec fn framed(records: Seq<Seq<u8>>) -> Seq<u8>
    decreases records.len(),
{
    if records.len() == 0 {
        Seq::<u8>::empty()
    } else {
        framed(records.drop_last()) + records.last().push(RECORD_END)
    }
}

/// The byte sequences of a vector of byte vectors.
pub open spec fn byte_views(items: Seq<Vec<u8>>) -> Seq<Seq<u8>> {
    items.map_values(|r: Vec<u8>| r@)
}

/// Reads the records of a log, front to back, once.
pub struct EventLogReader {
    data: Vec<u8>,
    position: usize,
}

impl EventLogReader {
    #[verifier::type_invariant]
    spec fn in_bounds(self) -> bool {
        self.position <= self.data@.len()
    }

    /// The bytes that have not been read yet.
    pub closed spec fn remaining(self) -> Seq<u8> {
        self.data@.skip(self.position as int)
    }

    /// A reader that stands at the start of `data`.
    pub fn new(data: Vec<u8>) -> (reader: Self)
        ensures
            reader.remaining() == data@,
    {
        let reader = EventLogReader { data, position: 0 };
        assert(reader.remaining() =~= data@);
        reader
    }

    /// Reads one record: the bytes up to the next [`RECORD_END`], which is
    /// passed over, or up to the end. `None` at the end of the log.
    pub fn next_record(&mut self) -> (record: Option<Vec<u8>>)
        ensures
            match record {
                None => old(self).remaining().len() == 0 && final(self).remaining().len() == 0,
                Some(r) => old(self).remaining().len() > 0 && r@ == old(self).remaining().take(
                    record_len(old(self).remaining()),
                ) && final(self).remaining() == after_record(old(self).remaining()),
            },
    {
        proof {
            use_type_invariant(&*self);
        }
        if self.position >= self.data.len() {
            return None;
        }
        let ghost rest = self.remaining();
        let start = self.position;
        let mut record: Vec<u8> = Vec::new();
        let mut at = start;
        assert(rest.skip(0) =~= rest);
        assert(record@ =~= rest.take(0));
        while at < self.data.len() && self.data[at] != RECORD_END
            invariant
                start <= at <= self.data@.len(),
                start == self.position,
                rest == self.data@.skip(start as int),
                record@ == rest.take(at - start),
                record_len(rest) == (at - start) + record_len(rest.skip(at - start)),
            decreases self.data@.len() - at,
        {
            let ghost tail = rest.skip(at - start);
            assert(tail[0] == self.data@[at as int]);
            assert(tail.skip(1) =~= rest.skip(at - start + 1));
            record.push(self.data[at]);
            assert(record@ =~= rest.take(at - start + 1));
            at = at + 1;
        }
        proof {
            let tail = rest.skip(at - start);
            if at < self.data@.len() {
                assert(tail[0] == self.data@[at as int]);
            }
            assert(record_len(tail) == 0);
            assert(record_len(rest) == at - start);
        }
        let next = if at < self.data.len() {
            at + 1
        } else {
            at
        };
        self.position = next;
        proof {
            if at < self.data@.len() {
                assert(self.remaining() =~= after_record(rest));
            } else {
                assert(self.remaining() =~= after_record(rest));
            }
        }
        Some(record)
    }

    /// Reads every record that is left, in order. What each one encodes is
    /// for the caller to decode.
    pub fn iter_events(&mut self) -> (found: Vec<Vec<u8>>)
        ensures
            byte_views(found@) == records(old(self).remaining()),
            final(self).remaining().len() == 0,
    {
        let mut found: Vec<Vec<u8>> = Vec::new();
        assert(byte_views(found@) =~= Seq::<Seq<u8>>::empty());
        loop
            invariant
                byte_views(found@) + records(self.remaining()) == records(old(self).remaining()),
            decreases self.remaining().len(),
        {
            let ghost before = self.remaining();
            let ghost so_far = byte_views(found@);
            match self.next_record() {
                None => {
                    assert(records(before) =~= Seq::<Seq<u8>>::empty());
                    assert(byte_views(found@) =~= records(old(self).remaining()));
                    return found;
                },
                Some(record) => {
                    proof {
                        lemma_record_len(before);
                    }
                    found.push(record);
                    assert(byte_views(found@) =~= so_far.push(record@));
                    assert(so_far.push(record@) + records(self.remaining()) =~= so_far + records(
                        before,
                    ));
                },
            }
        }
    }
}

/// That the events of a command could not be made durable.
#[derive(Debug, PartialEq, Eq)]
pub struct PersistenceError {
    reason: String,
}

impl PersistenceError {
    /// What went wrong, in the words of the medium.
    pub closed spec fn reason(self) -> Seq<char> {
        self.reason@
    }

    /// An error with the given cause.
    pub fn new(reason: String) -> (error: Self)
        ensures
            error.reason() == reason@,
    {
        PersistenceError { reason }
    }

    /// The text shown for this error: the words `persistence error`, a colon
    /// and the cause.
    pub open spec fn spec_message(self) -> Seq<char> {
        "persistence error: failed to write events: "@ + self.reason()
    }

    /// The text shown for this error.
    pub fn message(&self) -> (text: String)
        ensures
            text@ == self.spec_message(),
    {
        let mut text = owned("persistence error: failed to write events: ");
        vstd::string::StringExecFns::append(&mut text, self.reason.as_str());
        text
    }
}

impl Clone for PersistenceError {
    fn clone(&self) -> (res: Self)
        ensures
            res == *self,
    {
        PersistenceError { reason: self.reason.clone() }
    }
}

/// What one caller wants written: one event, or several that stay
/// together and in their order.
#[derive(Debug, Clone, PartialEq, Eq)]
pub enum EventCollection {
    One(Event),
    Many(Vec<Event>),
}

impl EventCollection {
    /// The events, in order.
    pub open spec fn events(self) -> Seq<EventView> {
        match self {
            EventCollection::One(event) => seq![event@],
            EventCollection::Many(events) => event_views(events@),
        }
    }
}

/// A request to the event service.
#[derive(Debug, Clone, PartialEq, Eq)]
pub struct EventRequest {
    events: EventCollection,
}

impl EventRequest {
    /// The events to write, in order.
    pub closed spec fn events(self) -> Seq<EventView> {
        self.events.events()
    }

    /// How many events the request holds.
    pub fn len(&self) -> (n: usize)
        ensures
            n == self.events().len(),
    {
        match &self.events {
            EventCollection::One(_) => 1,
            EventCollection::Many(events) => events.len(),
        }
    }

    /// The request to write one event.
    pub fn write(event: Event) -> (request: Self)
        ensures
            request.events() == seq![event@],
    {
        EventRequest { events: EventCollection::One(event) }
    }

    /// The request to write several events as one.
    pub fn write_batch(events: Vec<Event>) -> (request: Self)
        ensures
            request.events() == event_views(events@),
    {
        EventRequest { events: EventCollection::Many(events) }
    }
}

/// The number of events that a batch of several requests does not exceed.
pub const BATCH_LIMIT: usize = 1000;

/// How many further requests from the front of `queue` go into a batch that
/// holds `gathered` events already: requests are taken, each whole, for as
/// long as the batch stays at or under the limit.
pub open spec fn further_requests(queue: Seq<Seq<EventView>>, gathered: int) -> int
    decreases queue.len(),
{
    if queue.len() == 0 || gathered + queue[0].len() > BATCH_LIMIT {
        0
    } else {
        1 + further_requests(queue.skip(1), gathered + queue[0].len())
    }
}

/// How many requests from the front of `queue` make one batch. The first is
/// always taken, whole, however large; further ones only while the batch
/// stays at or under the limit.
pub open spec fn batch_requests(queue: Seq<Seq<EventView>>) -> int {
    if queue.len() == 0 {
        0
    } else {
        1 + further_requests(queue.skip(1), queue[0].len() as int)
    }
}

/// The events of all requests of `queue`, in order.
pub open spec fn all_events(queue: Seq<Seq<EventView>>) -> Seq<EventView>
    decreases queue.len(),
{
    if queue.len() == 0 {
        Seq::<EventView>::empty()
    } else {
        all_events(queue.drop_last()) + queue.last()
    }
}

/// Whether a batch of `gathered` events stays at or under the limit with
/// `request` added.
fn fits(request: &EventRequest, gathered: usize) -> (yes: bool)
    ensures
        yes == (gathered + request.events().len() <= BATCH_LIMIT),
{
    gathered <= BATCH_LIMIT && request.len() <= BATCH_LIMIT - gathered
}

/// Puts the events of `request` after `events`.
fn take_events(events: &mut Vec<Event>, request: EventRequest)
    ensures
        event_views(final(events)@) == event_views(old(events)@) + request.events(),
{
    let ghost gathered = event_views(events@);
    match request.events {
        EventCollection::One(event) => {
            events.push(event);
            assert(event_views(events@) =~= gathered + seq![event@]);
        },
        EventCollection::Many(many) => {
            let mut many = many;
            let ghost added = event_views(many@);
            events.append(&mut many);
            assert(event_views(events@) =~= gathered + added);
        },
    }
}

/// What is written at once: the events of `requests` requests, in the order
/// in which they were asked for.
#[derive(Debug, Clone, PartialEq, Eq)]
pub struct Batch {
    pub events: Vec<Event>,
    pub requests: usize,
}

/// The single writer of the log: requests queue up, and each run takes a
/// batch off the front.
pub struct EventService {
    queue: VecDeque<EventRequest>,
}

impl EventService {
    /// The events of the requests that wait, oldest request first.
    pub closed spec fn queue(self) -> Seq<Seq<EventView>> {
        self.queue@.map_values(|r: EventRequest| r.events())
    }

    /// A service on which nothing waits.
    pub fn new() -> (service: Self)
        ensures
            service.queue() == Seq::<Seq<EventView>>::empty(),
    {
        let service = EventService { queue: VecDeque::new() };
        assert(service.queue() =~= Seq::<Seq<EventView>>::empty());
        service
    }

    /// Puts `request` at the end of the queue.
    pub fn submit(&mut self, request: EventRequest)
        ensures
            final(self).queue() == old(self).queue().push(request.events()),
    {
        self.queue.push_back(request);
        assert(self.queue() =~= old(self).queue().push(request.events()));
    }

    /// How many requests wait.
    pub fn waiting(&self) -> (n: usize)
        ensures
            n == self.queue().len(),
    {
        self.queue.len()
    }

    /// Takes one batch off the queue: the oldest request, and those after it
    /// for as long as the batch stays at or under the limit. `None` where
    /// nothing waits. Only a batch of one request can exceed the limit.
    pub fn run(&mut self) -> (batch: Option<Batch>)
        ensures
            match batch {
                None => old(self).queue().len() == 0 && final(self).queue() == old(self).queue(),
                Some(batch) => {
                    &&& old(self).queue().len() > 0
                    &&& batch.requests == batch_requests(old(self).queue())
                    &&& event_views(batch.events@) == all_events(
                        old(self).queue().take(batch.requests as int),
                    )
                    &&& final(self).queue() == old(self).queue().skip(batch.requests as int)
                    &&& batch.requests == 1 || batch.events@.len() <= BATCH_LIMIT
                },
            },
    {
        let ghost before = self.queue();
        let waiting = self.queue.len();
        assert(before.len() == waiting);
        let mut events: Vec<Event> = Vec::new();
        assert(event_views(events@) =~= Seq::<EventView>::empty());
        match self.queue.pop_front() {
            None => {
                return None;
            },
            Some(request) => {
                assert(request.events() == before[0]);
                assert(self.queue() =~= before.skip(1));
                take_events(&mut events, request);
                proof {
                    assert(before.take(1) =~= seq![before[0]]);
                    lemma_all_events_of_one(before[0]);
                    assert(event_views(events@) =~= before[0]);
                }
            },
        }
        let mut requests: usize = 1;
        while self.queue.len() > 0 && fits(&self.queue[0], events.len())
            invariant
                1 <= requests <= before.len() <= usize::MAX,
                self.queue() == before.skip(requests as int),
                event_views(events@) == all_events(before.take(requests as int)),
                batch_requests(before) == requests + further_requests(
                    self.queue(),
                    events@.len() as int,
                ),
                requests == 1 || events@.len() <= BATCH_LIMIT,
            decreases self.queue().len(),
        {
            let ghost waiting = self.queue();
            let ghost gathered = event_views(events@);
            assert(gathered.len() == events@.len());
            assert(waiting.len() == before.len() - requests);
            assert(waiting[0] == self.queue@[0].events());
            match self.queue.pop_front() {
                None => {},
                Some(request) => {
                    assert(request.events() == waiting[0]);
                    assert(waiting[0] == before[requests as int]);
                    assert(self.queue() =~= waiting.skip(1));
                    assert(waiting.skip(1) =~= before.skip(requests + 1));
                    assert(before.take(requests + 1).drop_last() =~= before.take(requests as int));
                    assert(before.take(requests + 1).last() == before[requests as int]);
                    take_events(&mut events, request);
                    assert(event_views(events@).len() == events@.len());
                    assert(events@.len() == gathered.len() + waiting[0].len());
                    requests = requests + 1;
                },
            }
        }
        proof {
            if self.queue().len() > 0 {
                assert(self.queue()[0] == self.queue@[0].events());
            }
        }
        Some(Batch { events, requests })
    }

    /// The bytes that make `records` durable in the log: each record, and
    /// after each the byte that ends it.
    pub fn write_events(records: &Vec<Vec<u8>>) -> (bytes: Vec<u8>)
        ensures
            bytes@ == framed(byte_views(records@)),
    {
        let mut bytes: Vec<u8> = Vec::new();
        let mut i: usize = 0;
        assert(byte_views(records@).take(0) =~= Seq::<Seq<u8>>::empty());
        while i < records.len()
            invariant
                i <= records@.len(),
                bytes@ == framed(byte_views(records@).take(i as int)),
            decreases records@.len() - i,
        {
            let ghost done = byte_views(records@).take(i as int);
            let ghost next = byte_views(records@).take(i + 1);
            assert(next.drop_last() =~= done);
            assert(next.last() == records@[i as int]@);
            let record = &records[i];
            let ghost start = bytes@;
            let mut j: usize = 0;
            while j < record.len()
                invariant
                    j <= record@.len(),
                    bytes@ == start + record@.take(j as int),
                decreases record@.len() - j,
            {
                bytes.push(record[j]);
                assert(bytes@ =~= start + record@.take(j + 1));
                j = j + 1;
            }
            assert(record@.take(j as int) =~= record@);
            bytes.push(RECORD_END);
            assert(bytes@ =~= start + record@.push(RECORD_END));
            i = i + 1;
        }
        assert(byte_views(records@).take(i as int) =~= byte_views(records@));
        bytes
    }
}

/// What is framed is read back as it was, if no record holds the byte that
/// ends records.
pub proof fn lemma_records_of_framed(items: Seq<Seq<u8>>)
    requires
        forall|i: int, j: int|
            0 <= i < items.len() && 0 <= j < items[i].len() ==> items[i][j] != RECORD_END,
    ensures
        records(framed(items)) == items,
    decreases items.len(),
{
    if items.len() > 0 {
        let first = items[0];
        let rest = items.skip(1);
        lemma_framed_front(items);
        let bytes = framed(items);
        lemma_record_len_of(first, framed(rest));
        assert(bytes.take(record_len(bytes)) =~= first);
        assert(after_record(bytes) =~= framed(rest));
        assert forall|i: int, j: int| 0 <= i < rest.len() && 0 <= j < rest[i].len() implies rest[i][j]
            != RECORD_END by {
            assert(rest[i] == items[i + 1]);
        }
        lemma_records_of_framed(rest);
        assert(seq![first] + rest =~= items);
    }
}

/// The frame of some records is the first record, the byte that ends it, and
/// the frame of the others.
proof fn lemma_framed_front(items: Seq<Seq<u8>>)
    requires
        items.len() > 0,
    ensures
        framed(items) == items[0].push(RECORD_END) + framed(items.skip(1)),
    decreases items.len(),
{
    if items.len() == 1 {
        assert(items.drop_last() =~= Seq::<Seq<u8>>::empty());
        assert(items.skip(1) =~= Seq::<Seq<u8>>::empty());
        assert(framed(items) =~= items[0].push(RECORD_END) + framed(items.skip(1)));
    } else {
        lemma_framed_front(items.drop_last());
        assert(items.drop_last().skip(1) =~= items.skip(1).drop_last());
        assert(items.drop_last()[0] == items[0]);
        assert(items.skip(1).last() == items.last());
        assert(framed(items) =~= items[0].push(RECORD_END) + framed(items.skip(1)));
    }
}

/// A record without the ending byte, followed by that byte, ends where the
/// byte stands.
proof fn lemma_record_len_of(record: Seq<u8>, rest: Seq<u8>)
    requires
        forall|j: int| 0 <= j < record.len() ==> record[j] != RECORD_END,
    ensures
        record_len(record.push(RECORD_END) + rest) == record.len(),
    decreases record.len(),
{
    let bytes = record.push(RECORD_END) + rest;
    if record.len() == 0 {
        assert(bytes[0] == RECORD_END);
    } else {
        assert(bytes[0] == record[0]);
        assert(bytes.skip(1) =~= record.skip(1).push(RECORD_END) + rest);
        assert forall|j: int| 0 <= j < record.skip(1).len() implies record.skip(1)[j]
            != RECORD_END by {
            assert(record.skip(1)[j] == record[j + 1]);
        }
        lemma_record_len_of(record.skip(1), rest);
    }
}

/// No batch of several requests exceeds the limit: where more than one
/// request goes into a batch, the batch holds at most [`BATCH_LIMIT`]
/// events.
pub proof fn lemma_batch_is_bounded(queue: Seq<Seq<EventView>>)
    requires
        batch_requests(queue) > 1,
    ensures
        all_events(queue.take(batch_requests(queue))).len() <= BATCH_LIMIT,
{
    lemma_further_requests_fit(queue.skip(1), queue[0].len() as int);
    let further = further_requests(queue.skip(1), queue[0].len() as int);
    lemma_batches_keep_order(queue.take(1 + further), 1);
    assert(queue.take(1 + further).take(1) =~= seq![queue[0]]);
    assert(queue.take(1 + further).skip(1) =~= queue.skip(1).take(further));
    lemma_all_events_of_one(queue[0]);
}

/// The events of a queue of one request are those of the request.
proof fn lemma_all_events_of_one(request: Seq<EventView>)
    ensures
        all_events(seq![request]) == request,
{
    let queue = seq![request];
    assert(queue.drop_last() =~= Seq::<Seq<EventView>>::empty());
    assert(queue.last() == request);
    assert(all_events(queue.drop_last()) =~= Seq::<EventView>::empty());
    assert(all_events(queue) =~= request);
}

/// The further requests of a batch are in the queue, and with them the batch
/// stays at or under the limit.
proof fn lemma_further_requests_fit(queue: Seq<Seq<EventView>>, gathered: int)
    ensures
        0 <= further_requests(queue, gathered) <= queue.len(),
        further_requests(queue, gathered) > 0 ==> gathered + all_events(
            queue.take(further_requests(queue, gathered)),
        ).len() <= BATCH_LIMIT,
    decreases queue.len(),
{
    if queue.len() == 0 || gathered + queue[0].len() > BATCH_LIMIT {
    } else {
        let rest = queue.skip(1);
        let more = further_requests(rest, gathered + queue[0].len());
        lemma_further_requests_fit(rest, gathered + queue[0].len());
        lemma_batches_keep_order(queue.take(1 + more), 1);
        assert(queue.take(1 + more).take(1) =~= seq![queue[0]]);
        assert(queue.take(1 + more).skip(1) =~= rest.take(more));
        lemma_all_events_of_one(queue[0]);
        if more == 0 {
            assert(rest.take(0) =~= Seq::<Seq<EventView>>::empty());
        }
    }
}

/// Batching keeps the order: the events of a queue are those of any number
/// of requests from its front, and after them those of the rest.
pub proof fn lemma_batches_keep_order(queue: Seq<Seq<EventView>>, n: int)
    requires
        0 <= n <= queue.len(),
    ensures
        all_events(queue) == all_events(queue.take(n)) + all_events(queue.skip(n)),
    decreases queue.len(),
{
    if n == queue.len() {
        assert(queue.take(n) =~= queue);
        assert(queue.skip(n) =~= Seq::<Seq<EventView>>::empty());
        assert(all_events(queue) =~= all_events(queue.take(n)) + all_events(queue.skip(n)));
    } else {
        lemma_batches_keep_order(queue.drop_last(), n);
        assert(queue.drop_last().take(n) =~= queue.take(n));
        assert(queue.drop_last().skip(n) =~= queue.skip(n).drop_last());
        assert(queue.skip(n).last() == queue.last());
        assert(all_events(queue) =~= all_events(queue.take(n)) + all_events(queue.skip(n)));
    }
}

} // verus!

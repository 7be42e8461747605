//! The actor of one user: its threads, and how commands and actions are
//! turned into steps.

use std::collections::HashMap;
use vstd::prelude::*;
use vstd::string::StringExecFns;
use crate::command::Command;
use crate::command_dispatcher::Directory;
use crate::command_dispatcher::UserHandle;
use crate::data::ThreadAnonimityMode;
use crate::data::ThreadId;
use crate::error::HandlerError;
use crate::error::ReplayError;
use crate::event_log::Event;
use crate::event_log::PersistenceError;
use crate::event_log::ThreadMessageReceivedEvent;
use crate::event_log::ThreadStartedEvent;
use crate::event_log::ThreadTerminatedEvent;
use crate::event_log::UserBannedEvent;
use crate::event_log::UserStartedEvent;
use crate::event_log::UserStoppedEvent;
use crate::event_log::UserUnbannedEvent;
use crate::event_log::event_views;
use crate::model::DiceView;
use crate::model::HandlerView;
use crate::model::banned_threads;
use crate::model::banned_under;
use crate::model::broadcast_step;
use crate::model::broadcast_steps;
use crate::model::fair;
use crate::model::listed_user;
use crate::model::minted_id;
use crate::model::other_logins;
use crate::model::other_than;
use crate::plan::Instruction;
use crate::plan::InstructionView;
use crate::plan::OnDelivery;
use crate::plan::OnFailure;
use crate::plan::Plan;
use crate::plan::Step;
use crate::plan::reply_view;
use crate::string_map::StringMap;
use crate::string_map::at;
use crate::string_map::has_key;
use crate::text::after_first;
use crate::text::begins_with;
use crate::text::join;
use crate::text::owned;
use crate::text::same_text;
use crate::text::sort;
use crate::text::texts;
use crate::text::to_decimal;
use crate::util::HELP_MESSAGE;
use crate::util::OPERATOR_LOGIN;
use crate::util::START_MESSAGE;
use crate::util::STOP_MESSAGE;
use crate::util::WordLists;
use crate::util::random_login;
use crate::util::random_thread_id;

verus! {

broadcast use vstd::std_specs::hash::group_hash_axioms;

/// One side's half of a conversation. The peer holds the mirror half under
/// an id of its own.
#[derive(Debug, PartialEq, Eq)]
pub struct Thread {
    id: ThreadId,
    anon_mode: ThreadAnonimityMode,
    other_id: ThreadId,
    other_login: String,
}

/// The mathematical value of a [`Thread`].
pub struct ThreadView {
    pub id: Seq<char>,
    pub anon_mode: ThreadAnonimityMode,
    pub other_id: Seq<char>,
    pub other_login: Seq<char>,
}

impl ThreadView {
    /// The half that the peer holds of this thread, which `owner` holds.
    pub open spec fn mirror(self, owner: Seq<char>) -> ThreadView {
        ThreadView {
            id: self.other_id,
            anon_mode: self.anon_mode.spec_mirror(),
            other_id: self.id,
            other_login: owner,
        }
    }
}

impl View for Thread {
    type V = ThreadView;

    closed spec fn view(&self) -> ThreadView {
        ThreadView {
            id: self.id@,
            anon_mode: self.anon_mode,
            other_id: self.other_id@,
            other_login: self.other_login@,
        }
    }
}

/// What one actor asks of another.
#[derive(Debug, Clone, PartialEq, Eq)]
pub enum Action {
    /// Take this half of a new conversation.
    StartAnonymousThread(Thread),
    /// Show this text to your owner as a message of the given thread.
    SendText(ThreadId, String),
    /// Drop the given thread: the other side closed it.
    TerminateThread(ThreadId),
    /// Show this text to your owner.
    Broadcast(String),
}

/// The mathematical value of an [`Action`].
pub enum ActionView {
    StartAnonymousThread(ThreadView),
    SendText(Seq<char>, Seq<char>),
    TerminateThread(Seq<char>),
    Broadcast(Seq<char>),
}

impl View for Action {
    type V = ActionView;

    open spec fn view(&self) -> ActionView {
        match *self {
            Action::StartAnonymousThread(thread) => ActionView::StartAnonymousThread(thread@),
            Action::SendText(thread_id, text) => ActionView::SendText(thread_id@, text@),
            Action::TerminateThread(thread_id) => ActionView::TerminateThread(thread_id@),
            Action::Broadcast(text) => ActionView::Broadcast(text@),
        }
    }
}

impl Thread {
    /// The half of a conversation that its owner knows as `id` and the peer,
    /// `other_login`, as `other_id`.
    pub fn new(
        id: ThreadId,
        anon_mode: ThreadAnonimityMode,
        other_id: ThreadId,
        other_login: String,
    ) -> (thread: Thread)
        ensures
            thread@ == (ThreadView { id: id@, anon_mode, other_id: other_id@, other_login: other_login@ }),
    {
        Thread { id, anon_mode, other_id, other_login }
    }

    /// The id under which the owner holds the thread.
    pub fn id(&self) -> (id: &String)
        ensures
            id@ == self@.id,
    {
        &self.id
    }

    /// Who is hidden from whom.
    pub fn anon_mode(&self) -> (anon_mode: ThreadAnonimityMode)
        ensures
            anon_mode == self@.anon_mode,
    {
        self.anon_mode
    }

    /// The id under which the peer holds the mirror half.
    pub fn other_id(&self) -> (id: &String)
        ensures
            id@ == self@.other_id,
    {
        &self.other_id
    }

    /// The login of the peer, by which its actor is reached.
    pub fn other_login(&self) -> (login: &String)
        ensures
            login@ == self@.other_login,
    {
        &self.other_login
    }

    /// The step that asks the peer to show `text` to its owner.
    pub fn send_text(&self, text: String) -> (ask: Instruction)
        ensures
            ask@ == crate::model::send_text(self@, text@),
    {
        Instruction::Ask {
            login: self.other_login.clone(),
            action: Action::SendText(self.other_id.clone(), text),
            on_failure: OnFailure::Fail,
        }
    }

    /// The step that asks the peer to drop its half.
    pub fn terminate(&self) -> (ask: Instruction)
        ensures
            ask@ == crate::model::terminate(self@),
    {
        Instruction::Ask {
            login: self.other_login.clone(),
            action: Action::TerminateThread(self.other_id.clone()),
            on_failure: OnFailure::FailTermination,
        }
    }

    /// The half that the peer holds of this thread, which `owner` holds.
    pub fn mirror(&self, owner: &str) -> (thread: Thread)
        ensures
            thread@ == self@.mirror(owner@),
    {
        Thread {
            id: self.other_id.clone(),
            anon_mode: self.anon_mode.mirror(),
            other_id: self.id.clone(),
            other_login: owned(owner),
        }
    }
}

impl Clone for Thread {
    fn clone(&self) -> (res: Self)
        ensures
            res == *self,
    {
        Thread {
            id: self.id.clone(),
            anon_mode: self.anon_mode,
            other_id: self.other_id.clone(),
            other_login: self.other_login.clone(),
        }
    }
}

/// What chance decides of a command: the peer of a random chat, and the two
/// thread ids that a command may need.
#[derive(Debug, Clone, PartialEq, Eq)]
pub struct Dice {
    pub peer: String,
    pub first_id: ThreadId,
    pub second_id: ThreadId,
}

impl View for Dice {
    type V = DiceView;

    open spec fn view(&self) -> DiceView {
        DiceView { peer: self.peer@, first_id: self.first_id@, second_id: self.second_id@ }
    }
}

/// A batch of one event.
fn one_event(event: Event) -> (events: Vec<Event>)
    ensures
        event_views(events@) == seq![event@],
{
    let mut events: Vec<Event> = Vec::new();
    events.push(event);
    assert(event_views(events@) =~= seq![event@]);
    events
}

/// A batch of two events.
fn two_events(first: Event, second: Event) -> (events: Vec<Event>)
    ensures
        event_views(events@) == seq![first@, second@],
{
    let mut events: Vec<Event> = Vec::new();
    events.push(first);
    events.push(second);
    assert(event_views(events@) =~= seq![first@, second@]);
    events
}

/// The step that sends `text` to the owner and does nothing with the id.
fn send_to_self(text: String) -> (step: Instruction)
    ensures
        step@ == crate::model::tell(text@),
{
    Instruction::Send { text, on_delivery: OnDelivery::Nothing }
}

/// The line that shows `user` in the list of users.
fn user_line(user: &crate::data::User) -> (line: String)
    ensures
        line@ == crate::model::user_line(user@),
{
    let mut line = user.first_name.clone();
    match &user.last_name {
        Some(last_name) => {
            line.append(" ");
            line.append(last_name.as_str());
        },
        None => {},
    }
    line.append(" @");
    line.append(user.login.as_str());
    line
}

/// The answer to `/users`.
pub fn users_text(directory: &Directory) -> (text: String)
    ensures
        text@ == crate::model::users_text(directory@),
{
    let mut lines: Vec<String> = Vec::new();
    let n = directory.len();
    let mut i: usize = 0;
    assert(directory@.take(0).filter_map(listed_user()) =~= Seq::<Seq<char>>::empty());
    assert(texts(lines@) =~= Seq::<Seq<char>>::empty());
    while i < n
        invariant
            i <= n,
            n == directory@.len(),
            texts(lines@) == directory@.take(i as int).filter_map(listed_user()),
        decreases n - i,
    {
        proof {
            directory@.lemma_filter_map_take_succ(listed_user(), i as int);
        }
        let handle = directory.value(i);
        if !handle.is_stopped {
            let line = user_line(&handle.user);
            let ghost before = texts(lines@);
            lines.push(line);
            assert(texts(lines@) =~= before + seq![line@]);
        } else {
            assert(texts(lines@) + Seq::<Seq<char>>::empty() =~= texts(lines@));
        }
        i = i + 1;
    }
    assert(directory@.take(n as int) =~= directory@);
    let lines = sort(lines);
    let list = join(&lines, "\n* ");
    let mut text = owned("Available users:\n* ");
    text.append(list.as_str());
    text
}

/// The logins of `directory` other than `login`, in its order.
fn other_logins_of(directory: &Directory, login: &str) -> (others: Vec<String>)
    ensures
        texts(others@) == other_logins(directory@, login@),
{
    let mut others: Vec<String> = Vec::new();
    let n = directory.len();
    let mut i: usize = 0;
    assert(directory@.take(0).filter_map(other_than(login@)) =~= Seq::<Seq<char>>::empty());
    assert(texts(others@) =~= Seq::<Seq<char>>::empty());
    while i < n
        invariant
            i <= n,
            n == directory@.len(),
            texts(others@) == directory@.take(i as int).filter_map(other_than(login@)),
        decreases n - i,
    {
        proof {
            directory@.lemma_filter_map_take_succ(other_than(login@), i as int);
        }
        let other = directory.key(i);
        if !same_text(other.as_str(), login) {
            let ghost before = texts(others@);
            others.push(other.clone());
            assert(texts(others@) =~= before + seq![other@]);
        } else {
            assert(texts(others@) + Seq::<Seq<char>>::empty() =~= texts(others@));
        }
        i = i + 1;
    }
    assert(directory@.take(n as int) =~= directory@);
    others
}

/// Whether `directory` holds a login other than `login`.
fn has_other_logins(directory: &Directory, login: &str) -> (yes: bool)
    ensures
        yes == (other_logins(directory@, login@).len() > 0),
{
    let n = directory.len();
    let mut i: usize = 0;
    assert(directory@.take(0).filter_map(other_than(login@)) =~= Seq::<Seq<char>>::empty());
    while i < n
        invariant
            i <= n,
            n == directory@.len(),
            directory@.take(i as int).filter_map(other_than(login@)).len() == 0,
        decreases n - i,
    {
        proof {
            directory@.lemma_filter_map_take_succ(other_than(login@), i as int);
        }
        if !same_text(directory.key(i).as_str(), login) {
            proof {
                lemma_other_logins_grow(directory@, login@, i + 1);
            }
            return true;
        }
        i = i + 1;
    }
    assert(directory@.take(n as int) =~= directory@);
    false
}

/// The other logins among the first `i` entries are among all the others.
proof fn lemma_other_logins_grow(directory: Seq<(Seq<char>, crate::command_dispatcher::UserHandleView)>, login: Seq<char>, i: int)
    requires
        0 <= i <= directory.len(),
    ensures
        directory.take(i).filter_map(other_than(login)).len() <= other_logins(directory, login).len(),
    decreases directory.len() - i,
{
    if i == directory.len() {
        assert(directory.take(i) =~= directory);
    } else {
        directory.lemma_filter_map_take_succ(other_than(login), i);
        lemma_other_logins_grow(directory, login, i + 1);
    }
}

/// What a peer's message looks like to the owner of a thread with the mode
/// `anon_mode` and the id `thread_id`.
fn relayed_text(anon_mode: ThreadAnonimityMode, thread_id: &str, text: &str) -> (shown: String)
    ensures
        shown@ == crate::model::relayed_text(anon_mode, thread_id@, text@),
{
    let mut shown = match anon_mode {
        ThreadAnonimityMode::Me => owned(">>> Message from "),
        ThreadAnonimityMode::Them => owned(">>> Message from anonymous "),
        ThreadAnonimityMode::Both => owned(">>> Message from random chat "),
    };
    shown.append(thread_id);
    shown.append(":\n");
    shown.append(text);
    shown
}

/// The state of one actor, and the rules by which commands and actions
/// change it.
pub struct Handler {
    user_handle: UserHandle,
    chat_id: i64,
    threads: StringMap<Thread>,
    message_id_to_thread_id: HashMap<i32, ThreadId>,
    banlist: StringMap<ThreadId>,
}

impl View for Handler {
    type V = HandlerView;

    closed spec fn view(&self) -> HandlerView {
        HandlerView {
            user: self.user_handle.user@,
            chat_id: self.chat_id,
            stopped: self.user_handle.is_stopped,
            threads: self.threads@,
            message_index: self.message_id_to_thread_id@.map_values(|thread_id: String| thread_id@),
            banlist: self.banlist@,
        }
    }
}

impl Handler {
    /// An actor that has seen nothing yet.
    pub fn new(user_handle: UserHandle, chat_id: i64) -> (handler: Handler)
        ensures
            handler@ == HandlerView::fresh(user_handle.user@, chat_id).with_stopped(
                user_handle.is_stopped,
            ),
    {
        let handler = Handler {
            user_handle,
            chat_id,
            threads: StringMap::new(),
            message_id_to_thread_id: HashMap::new(),
            banlist: StringMap::new(),
        };
        assert(handler@.message_index =~= Map::<i32, Seq<char>>::empty());
        handler
    }

    /// Carries out the steps of `plan` that change the actor's own state, up
    /// to the first that is work for the outside world, which is handed out
    /// with what follows it.
    pub fn advance(&mut self, plan: Plan) -> (step: Step)
        ensures
            (final(self)@, step@) == old(self)@.run(plan@),
    {
        let mut rest = plan;
        loop
            invariant
                self@.run(rest@) == old(self)@.run(plan@),
            decreases rest@.len(),
        {
            let ghost state = self@;
            let ghost todo = rest@;
            match rest.next() {
                None => {
                    return Step::Done(Ok(()));
                },
                Some(Instruction::Ask { login, action, on_failure }) => {
                    return Step::Ask { login, action, on_failure, rest };
                },
                Some(Instruction::Write { events }) => {
                    return Step::Write { events, rest };
                },
                Some(Instruction::Await) => {
                    return Step::Await { rest };
                },
                Some(Instruction::Send { text, on_delivery }) => {
                    return Step::Send { text, on_delivery, rest };
                },
                Some(Instruction::Publish { stopped }) => {
                    return Step::Publish { stopped, rest };
                },
                Some(Instruction::InsertThread(thread)) => {
                    let thread_id = thread.id.clone();
                    self.threads.insert(thread_id, thread);
                    assert(self@ == state.apply(todo[0]));
                },
                Some(Instruction::RemoveThread(thread_id)) => {
                    self.threads.remove(thread_id.as_str());
                    assert(self@ == state.apply(todo[0]));
                },
                Some(Instruction::Index { message_id, thread_id }) => {
                    self.message_id_to_thread_id.insert(message_id, thread_id);
                    assert(self@.message_index =~= state.message_index.insert(
                        message_id,
                        thread_id@,
                    ));
                    assert(self@ == state.apply(todo[0]));
                },
                Some(Instruction::Ban { login, thread_id }) => {
                    self.banlist.insert(login, thread_id);
                    assert(self@ == state.apply(todo[0]));
                },
                Some(Instruction::Unban { login }) => {
                    self.banlist.remove(login.as_str());
                    assert(self@ == state.apply(todo[0]));
                },
            }
        }
    }

    /// Goes on after a peer has replied to an `Ask` that went to `login`.
    pub fn after_ask(
        &mut self,
        login: &str,
        on_failure: OnFailure,
        rest: Plan,
        reply: Result<(), HandlerError>,
    ) -> (step: Step)
        ensures
            (final(self)@, step@) == old(self)@.after_ask(login@, on_failure, rest@, reply_view(reply)),
    {
        match reply {
            Ok(()) => self.advance(rest),
            Err(error) => match on_failure {
                OnFailure::Fail => Step::Done(Err(error)),
                OnFailure::FailTermination => Step::Done(
                    Err(HandlerError::PeerTermination(error.message())),
                ),
                OnFailure::Report => {
                    let mut text = owned("Failed to send broadcast to user @");
                    text.append(login);
                    text.append(": ");
                    text.append(error.message().as_str());
                    Step::Send { text, on_delivery: OnDelivery::Nothing, rest }
                },
            },
        }
    }

    /// Goes on after an `Await` has ended.
    pub fn after_await(&mut self, rest: Plan, outcome: Result<(), PersistenceError>) -> (step: Step)
        ensures
            (final(self)@, step@) == old(self)@.after_await(
                rest@,
                match outcome {
                    Ok(()) => Ok(()),
                    Err(error) => Err(error.reason()),
                },
            ),
    {
        match outcome {
            Ok(()) => self.advance(rest),
            Err(error) => Step::Done(Err(HandlerError::Persistence(error))),
        }
    }

    /// Goes on after a `Send`: `outcome` is the id that the transport gave
    /// the message, or its reason for not delivering it.
    pub fn after_send(
        &mut self,
        on_delivery: OnDelivery,
        rest: Plan,
        outcome: Result<i32, String>,
    ) -> (step: Step)
        ensures
            (final(self)@, step@) == old(self)@.after_send(
                on_delivery@,
                rest@,
                match outcome {
                    Ok(message_id) => Ok(message_id),
                    Err(reason) => Err(reason@),
                },
            ),
    {
        match outcome {
            Err(reason) => Step::Done(Err(HandlerError::Transport(reason))),
            Ok(message_id) => match on_delivery {
                OnDelivery::Nothing => self.advance(rest),
                OnDelivery::Note(thread_id) => {
                    let event = self.message_event(message_id, thread_id.as_str());
                    let plan = rest.after(Instruction::Write { events: one_event(event) }).after(
                        Instruction::Index { message_id, thread_id },
                    );
                    assert(plan@ =~= seq![
                        InstructionView::Index { message_id, thread_id: thread_id@ },
                        InstructionView::Write {
                            events: seq![old(self)@.message_event(message_id, thread_id@)],
                        },
                    ] + rest@);
                    self.advance(plan)
                },
                OnDelivery::Record(thread_id) => {
                    let event = self.message_event(message_id, thread_id.as_str());
                    let plan = rest.after(Instruction::Index { message_id, thread_id }).after(
                        Instruction::Await,
                    ).after(Instruction::Write { events: one_event(event) });
                    assert(plan@ =~= seq![
                        InstructionView::Write {
                            events: seq![old(self)@.message_event(message_id, thread_id@)],
                        },
                        InstructionView::Await,
                        InstructionView::Index { message_id, thread_id: thread_id@ },
                    ] + rest@);
                    self.advance(plan)
                },
            },
        }
    }

    /// The answer to `/threads`.
    pub fn threads_text(&self) -> (text: String)
        ensures
            text@ == crate::model::threads_text(self@.threads),
    {
        let mut ids: Vec<String> = Vec::new();
        let n = self.threads.len();
        let mut i: usize = 0;
        assert(self.threads@.take(0).filter_map(minted_id()) =~= Seq::<Seq<char>>::empty());
        assert(texts(ids@) =~= Seq::<Seq<char>>::empty());
        while i < n
            invariant
                i <= n,
                n == self.threads@.len(),
                texts(ids@) == self.threads@.take(i as int).filter_map(minted_id()),
            decreases n - i,
        {
            proof {
                self.threads@.lemma_filter_map_take_succ(minted_id(), i as int);
            }
            let id = self.threads.key(i);
            if begins_with(id.as_str(), '#') {
                let ghost before = texts(ids@);
                ids.push(id.clone());
                assert(texts(ids@) =~= before + seq![id@]);
            } else {
                assert(texts(ids@) + Seq::<Seq<char>>::empty() =~= texts(ids@));
            }
            i = i + 1;
        }
        assert(self.threads@.take(n as int) =~= self.threads@);
        if ids.len() == 0 {
            owned("There are no active threads.")
        } else {
            let ids = sort(ids);
            let list = join(&ids, "\n* ");
            let mut text = owned("Active threads:\n* ");
            text.append(list.as_str());
            text
        }
    }

    /// The answer to `/banlist`.
    pub fn banlist_text(&self) -> (text: String)
        ensures
            text@ == crate::model::banlist_text(self@.banlist),
    {
        let mut ids: Vec<String> = Vec::new();
        let n = self.banlist.len();
        let mut i: usize = 0;
        assert(texts(ids@) =~= banned_threads(self.banlist@.take(0)));
        while i < n
            invariant
                i <= n,
                n == self.banlist@.len(),
                texts(ids@) == banned_threads(self.banlist@.take(i as int)),
            decreases n - i,
        {
            let id = self.banlist.value(i);
            let ghost before = texts(ids@);
            ids.push(id.clone());
            assert(texts(ids@) =~= before.push(id@));
            assert(before.push(id@) =~= banned_threads(self.banlist@.take(i + 1)));
            i = i + 1;
        }
        assert(self.banlist@.take(n as int) =~= self.banlist@);
        if n == 0 {
            owned("You have not banned anybody.")
        } else {
            let ids = sort(ids);
            let list = join(&ids, "\n* ");
            let mut text = owned("Banned threads:\n* ");
            text.append(list.as_str());
            text
        }
    }

    /// Tells the owner `text`, and nothing more.
    fn answer(&mut self, text: String) -> (step: Step)
        ensures
            (final(self)@, step@) == old(self)@.run(seq![crate::model::tell(text@)]),
    {
        self.advance(Plan::new().followed_by(send_to_self(text)))
    }

    /// `/start`: the owner is back. That the owner had stopped the bot is
    /// no hindrance, here or in the other handlers: it is
    /// `handle_command_with` that turns the commands of a stopped owner
    /// away.
    pub fn handle_command_start(&mut self) -> (step: Step)
        ensures
            (final(self)@, step@) == old(self)@.on_start(),
    {
        self.user_handle.is_stopped = false;
        let event = Event::UserStarted(
            UserStartedEvent { login: self.user_handle.user.login.clone() },
        );
        let plan = Plan::new().followed_by(Instruction::Publish { stopped: false }).followed_by(
            Instruction::Write { events: one_event(event) },
        ).followed_by(Instruction::Await).followed_by(send_to_self(owned(START_MESSAGE)));
        assert(plan@ =~= old(self)@.lifecycle_plan(false));
        self.advance(plan)
    }

    /// `/stop`: the owner is gone until the next `/start`.
    pub fn handle_command_stop(&mut self) -> (step: Step)
        ensures
            (final(self)@, step@) == old(self)@.on_stop(),
    {
        self.user_handle.is_stopped = true;
        let event = Event::UserStopped(
            UserStoppedEvent { login: self.user_handle.user.login.clone() },
        );
        let plan = Plan::new().followed_by(Instruction::Publish { stopped: true }).followed_by(
            Instruction::Write { events: one_event(event) },
        ).followed_by(Instruction::Await).followed_by(send_to_self(owned(STOP_MESSAGE)));
        assert(plan@ =~= old(self)@.lifecycle_plan(true));
        self.advance(plan)
    }

    /// `/users`: the owner is shown who is there.
    pub fn handle_command_users(&mut self, directory: &Directory) -> (step: Step)
        ensures
            (final(self)@, step@) == old(self)@.run(
                seq![crate::model::tell(crate::model::users_text(directory@))],
            ),
    {
        self.answer(users_text(directory))
    }

    /// `/threads`: the owner is shown the threads that were minted at
    /// random.
    pub fn handle_command_threads(&mut self) -> (step: Step)
        ensures
            (final(self)@, step@) == old(self)@.run(
                seq![crate::model::tell(crate::model::threads_text(old(self)@.threads))],
            ),
    {
        let text = self.threads_text();
        self.answer(text)
    }

    /// `/banlist`: the owner is shown the threads that stand banned.
    pub fn handle_command_banlist(&mut self) -> (step: Step)
        ensures
            (final(self)@, step@) == old(self)@.run(
                seq![crate::model::tell(crate::model::banlist_text(old(self)@.banlist))],
            ),
    {
        let text = self.banlist_text();
        self.answer(text)
    }

    /// The pairing protocol: offers the mirror of `mine` to the peer, and,
    /// once the peer has taken it, keeps `mine` and goes on with `rest`.
    pub fn create_thread(&mut self, mine: Thread, directory: &Directory, rest: Plan) -> (step: Step)
        ensures
            (final(self)@, step@) == old(self)@.pair(mine@, directory@, rest@),
    {
        if !directory.contains_key(mine.other_login.as_str()) {
            return Step::Done(Err(HandlerError::UserNotStarted));
        }
        let offer = Instruction::Ask {
            login: mine.other_login.clone(),
            action: Action::StartAnonymousThread(
                mine.mirror(self.user_handle.user.login.as_str()),
            ),
            on_failure: OnFailure::Fail,
        };
        let ghost expected = self@.pairing_plan(mine@, rest@);
        let plan = rest.after(Instruction::InsertThread(mine)).after(offer);
        assert(plan@ =~= expected);
        self.advance(plan)
    }

    /// `/random` with the dice given: a thread with the peer that they
    /// name, in which both sides are hidden.
    pub fn handle_command_random(
        &mut self,
        message_id: i32,
        text: String,
        directory: &Directory,
        dice: Dice,
    ) -> (step: Step)
        ensures
            (final(self)@, step@) == old(self)@.on_random(message_id, text@, directory@, dice@),
    {
        if !has_other_logins(directory, self.user_handle.user.login.as_str()) {
            return Step::Done(Err(HandlerError::NoOtherUsers));
        }
        if same_text(dice.peer.as_str(), self.user_handle.user.login.as_str()) {
            return Step::Done(Err(HandlerError::SelfSend));
        }
        let my_id = dice.first_id;
        let mine = Thread::new(
            my_id.clone(),
            ThreadAnonimityMode::Both,
            dice.second_id,
            dice.peer,
        );
        let mut notice = owned("Started a new anonymous thread ");
        notice.append(my_id.as_str());
        notice.append(".");
        let rest = Plan::new().followed_by(
            Instruction::Index { message_id, thread_id: my_id.clone() },
        ).followed_by(
            Instruction::Write {
                events: two_events(
                    self.started_event(&mine),
                    self.message_event(message_id, my_id.as_str()),
                ),
            },
        ).followed_by(mine.send_text(text)).followed_by(
            Instruction::Send { text: notice, on_delivery: OnDelivery::Note(my_id.clone()) },
        ).followed_by(Instruction::Await).followed_by(Instruction::Await);
        assert(rest@ =~= self@.random_plan(mine@, message_id, text@));
        self.create_thread(mine, directory, rest)
    }

    /// `/send`: to a thread that the owner holds, or to a login, which opens
    /// a thread with `fresh_id` as the id of the peer's half.
    pub fn handle_command_send(
        &mut self,
        thread_id: ThreadId,
        message_id: i32,
        text: String,
        directory: &Directory,
        fresh_id: ThreadId,
    ) -> (step: Step)
        ensures
            (final(self)@, step@) == old(self)@.on_send(
                thread_id@,
                message_id,
                text@,
                directory@,
                fresh_id@,
            ),
    {
        if let Some(thread) = self.threads.get(thread_id.as_str()) {
            let deliver = thread.send_text(text);
            let plan = Plan::new().followed_by(
                Instruction::Index { message_id, thread_id: thread_id.clone() },
            ).followed_by(
                Instruction::Write {
                    events: one_event(self.message_event(message_id, thread_id.as_str())),
                },
            ).followed_by(Instruction::Await).followed_by(deliver);
            assert(plan@ =~= self@.send_plan(
                at(self@.threads, thread_id@),
                thread_id@,
                message_id,
                text@,
            ));
            return self.advance(plan);
        }
        if !begins_with(thread_id.as_str(), '@') {
            return Step::Done(Err(HandlerError::UnknownThread(thread_id)));
        }
        let other_login = after_first(thread_id.as_str());
        if same_text(other_login.as_str(), self.user_handle.user.login.as_str()) {
            return Step::Done(Err(HandlerError::SelfSend));
        }
        let mine = Thread::new(thread_id.clone(), ThreadAnonimityMode::Me, fresh_id, other_login);
        let rest = Plan::new().followed_by(
            Instruction::Index { message_id, thread_id: thread_id.clone() },
        ).followed_by(
            Instruction::Write {
                events: two_events(
                    self.started_event(&mine),
                    self.message_event(message_id, thread_id.as_str()),
                ),
            },
        ).followed_by(Instruction::Await).followed_by(mine.send_text(text));
        assert(rest@ =~= self@.opening_plan(mine@, message_id, text@));
        self.create_thread(mine, directory, rest)
    }

    /// A reply: it goes to the thread of the message replied to.
    pub fn handle_command_reply(
        &mut self,
        reply_message_id: i32,
        message_id: i32,
        text: String,
    ) -> (step: Step)
        ensures
            (final(self)@, step@) == old(self)@.on_reply(reply_message_id, message_id, text@),
    {
        let thread_id = match self.message_id_to_thread_id.get(&reply_message_id) {
            None => {
                return Step::Done(Err(HandlerError::NotInThread));
            },
            Some(thread_id) => thread_id.clone(),
        };
        let deliver = match self.threads.get(thread_id.as_str()) {
            None => {
                return Step::Done(Err(HandlerError::ThreadGone));
            },
            Some(thread) => thread.send_text(text),
        };
        let event = self.message_event(message_id, thread_id.as_str());
        let plan = Plan::new().followed_by(deliver).followed_by(
            Instruction::Index { message_id, thread_id },
        ).followed_by(Instruction::Write { events: one_event(event) }).followed_by(Instruction::Await);
        assert(plan@ =~= self@.reply_plan(
            at(self@.threads, self@.message_index[reply_message_id]),
            self@.message_index[reply_message_id],
            message_id,
            text@,
        ));
        self.advance(plan)
    }

    /// `/close`: both halves of the thread are dropped.
    pub fn handle_command_close(&mut self, thread_id: ThreadId) -> (step: Step)
        ensures
            (final(self)@, step@) == old(self)@.on_close(thread_id@),
    {
        let thread = match self.threads.get(thread_id.as_str()) {
            None => {
                return Step::Done(Err(HandlerError::NoSuchThread(thread_id)));
            },
            Some(thread) => thread,
        };
        match thread.anon_mode {
            ThreadAnonimityMode::Them => {
                return Step::Done(Err(HandlerError::CloseSemiAnonymous));
            },
            _ => {},
        }
        let event = Event::ThreadTerminated(
            ThreadTerminatedEvent {
                login: self.user_handle.user.login.clone(),
                other_login: thread.other_login.clone(),
                my_thread_id: thread_id.clone(),
                other_thread_id: thread.other_id.clone(),
            },
        );
        let plan = Plan::new().followed_by(thread.terminate()).followed_by(
            Instruction::RemoveThread(thread_id),
        ).followed_by(Instruction::Write { events: one_event(event) }).followed_by(Instruction::Await);
        assert(plan@ =~= self@.close_plan(at(self@.threads, thread_id@), thread_id@));
        self.advance(plan)
    }

    /// `/ban`: both halves of the thread are dropped, and the peer is
    /// banned.
    pub fn handle_command_ban(&mut self, thread_id: ThreadId) -> (step: Step)
        ensures
            (final(self)@, step@) == old(self)@.on_ban(thread_id@),
    {
        let thread = match self.threads.get(thread_id.as_str()) {
            None => {
                return Step::Done(Err(HandlerError::NoSuchThread(thread_id)));
            },
            Some(thread) => thread,
        };
        match thread.anon_mode {
            ThreadAnonimityMode::Them => {},
            _ => {
                return Step::Done(Err(HandlerError::BanNotAnonymous));
            },
        }
        let event = Event::UserBanned(
            UserBannedEvent {
                login: self.user_handle.user.login.clone(),
                banned_login: thread.other_login.clone(),
                banned_thread_id: thread_id.clone(),
            },
        );
        let ghost banned = thread_id@;
        let plan = Plan::new().followed_by(thread.terminate()).followed_by(
            Instruction::RemoveThread(thread_id.clone()),
        ).followed_by(Instruction::Write { events: one_event(event) }).followed_by(Instruction::Await).followed_by(
            Instruction::Ban { login: thread.other_login.clone(), thread_id },
        );
        assert(plan@ =~= self@.ban_plan(at(self@.threads, banned), banned));
        self.advance(plan)
    }

    /// The login that stands first in the ban list with the thread
    /// `thread_id`.
    fn banned_login(&self, thread_id: &str) -> (login: Option<String>)
        ensures
            match login {
                Some(login) => banned_under(self@.banlist, thread_id@) == Some(login@),
                None => banned_under(self@.banlist, thread_id@) is None,
            },
    {
        let n = self.banlist.len();
        let mut i: usize = 0;
        assert(self.banlist@.skip(0) =~= self.banlist@);
        while i < n
            invariant
                i <= n,
                n == self.banlist@.len(),
                banned_under(self.banlist@, thread_id@) == banned_under(
                    self.banlist@.skip(i as int),
                    thread_id@,
                ),
            decreases n - i,
        {
            let ghost rest = self.banlist@.skip(i as int);
            assert(rest[0] == self.banlist@[i as int]);
            assert(rest.skip(1) =~= self.banlist@.skip(i + 1));
            if same_text(self.banlist.value(i).as_str(), thread_id) {
                return Some(self.banlist.key(i).clone());
            }
            i = i + 1;
        }
        None
    }

    /// `/unban`: the ban that stands under the thread is lifted.
    pub fn handle_command_unban(&mut self, thread_id: ThreadId) -> (step: Step)
        ensures
            (final(self)@, step@) == old(self)@.on_unban(thread_id@),
    {
        let login = match self.banned_login(thread_id.as_str()) {
            None => {
                return Step::Done(Err(HandlerError::NotBanned(thread_id)));
            },
            Some(login) => login,
        };
        let event = Event::UserUnbanned(
            UserUnbannedEvent {
                login: self.user_handle.user.login.clone(),
                unbanned_login: login.clone(),
            },
        );
        let plan = Plan::new().followed_by(Instruction::Write { events: one_event(event) }).followed_by(
            Instruction::Await,
        ).followed_by(Instruction::Unban { login });
        assert(plan@ =~= self@.unban_plan(login@));
        self.advance(plan)
    }

    /// `/broadcast`: the text goes to everyone in the directory, if the
    /// owner is the operator.
    pub fn handle_command_broadcast(&mut self, text: String, directory: &Directory) -> (step: Step)
        ensures
            (final(self)@, step@) == old(self)@.on_broadcast(text@, directory@),
    {
        if !same_text(self.user_handle.user.login.as_str(), OPERATOR_LOGIN) {
            return Step::Done(Err(HandlerError::NotAdmin));
        }
        let n = directory.len();
        let mut notice = owned("Starting broadcast to ");
        notice.append(to_decimal(n).as_str());
        notice.append(" users...");
        let ghost me = self@.user.login;
        let ghost first = crate::model::tell(notice@);
        let mut plan = Plan::new().followed_by(send_to_self(notice));
        let mut i: usize = 0;
        assert(plan@ =~= seq![first] + broadcast_steps(directory@, me, text@).take(0));
        while i < n
            invariant
                i <= n,
                n == directory@.len(),
                me == self@.user.login,
                plan@ == seq![first] + broadcast_steps(directory@, me, text@).take(i as int),
            decreases n - i,
        {
            let login = directory.key(i);
            let ghost before = plan@;
            if same_text(login.as_str(), self.user_handle.user.login.as_str()) {
                plan = plan.followed_by(send_to_self(text.clone()));
            } else {
                plan = plan.followed_by(
                    Instruction::Ask {
                        login: login.clone(),
                        action: Action::Broadcast(text.clone()),
                        on_failure: OnFailure::Report,
                    },
                );
            }
            assert(plan@ == before.push(broadcast_step(directory@[i as int].0, me, text@)));
            assert(plan@ =~= seq![first] + broadcast_steps(directory@, me, text@).take(i + 1));
            i = i + 1;
        }
        assert(broadcast_steps(directory@, me, text@).take(n as int) =~= broadcast_steps(
            directory@,
            me,
            text@,
        ));
        let plan = plan.followed_by(send_to_self(owned("Broadcast is finished.")));
        assert(plan@ =~= self@.broadcast_plan(text@, directory@));
        self.advance(plan)
    }

    /// Handles a command of the owner with the dice given.
    pub fn handle_command_with(
        &mut self,
        command: Command,
        directory: &Directory,
        dice: Dice,
    ) -> (step: Step)
        ensures
            (final(self)@, step@) == old(self)@.on_command(command@, directory@, dice@),
    {
        if self.user_handle.is_stopped {
            match command {
                Command::Start => {},
                _ => {
                    return Step::Done(Err(HandlerError::Stopped));
                },
            }
        }
        match command {
            Command::Start => self.handle_command_start(),
            Command::Stop => self.handle_command_stop(),
            Command::Help => self.answer(owned(HELP_MESSAGE)),
            Command::Users => self.handle_command_users(directory),
            Command::Threads => self.handle_command_threads(),
            Command::Banlist => self.handle_command_banlist(),
            Command::Random { message_id, text } => self.handle_command_random(
                message_id,
                text,
                directory,
                dice,
            ),
            Command::Send { thread_id, message_id, text } => self.handle_command_send(
                thread_id,
                message_id,
                text,
                directory,
                dice.first_id,
            ),
            Command::Reply { message_id, reply_message_id, text } => self.handle_command_reply(
                reply_message_id,
                message_id,
                text,
            ),
            Command::Close { thread_id } => self.handle_command_close(thread_id),
            Command::Ban { thread_id } => self.handle_command_ban(thread_id),
            Command::Unban { thread_id } => self.handle_command_unban(thread_id),
            Command::Broadcast { text } => self.handle_command_broadcast(text, directory),
        }
    }

    /// Handles a command of the owner. Where the command needs a peer or a
    /// thread id at random, they are drawn here: which ones is left open,
    /// but for where they come from.
    pub fn handle_command(
        &mut self,
        command: Command,
        directory: &Directory,
        words: &WordLists,
    ) -> (step: Step)
        ensures
            exists|dice: DiceView|
                fair(dice, command@, directory@, old(self)@.user.login, *words) && (
                    final(self)@,
                    step@,
                ) == #[trigger] old(self)@.on_command(command@, directory@, dice),
    {
        let dice = match &command {
            Command::Random { .. } => {
                let others = other_logins_of(directory, self.user_handle.user.login.as_str());
                let peer = match random_login(&others) {
                    Some(login) => login.clone(),
                    None => String::new(),
                };
                let first_id = random_thread_id(words);
                let second_id = random_thread_id(words);
                Dice { peer, first_id, second_id }
            },
            Command::Send { .. } => Dice {
                peer: String::new(),
                first_id: random_thread_id(words),
                second_id: String::new(),
            },
            _ => Dice { peer: String::new(), first_id: String::new(), second_id: String::new() },
        };
        assert(fair(dice@, command@, directory@, self@.user.login, *words));
        self.handle_command_with(command, directory, dice)
    }

    /// Whether `handle_action` takes `action`: an action that is about one
    /// of the actor's threads has to name one that the actor holds.
    pub fn accepts(&self, action: &Action) -> (yes: bool)
        ensures
            yes == self@.accepts(action@),
    {
        match action {
            Action::SendText(thread_id, _) => self.user_handle.is_stopped
                || self.threads.contains_key(thread_id.as_str()),
            Action::TerminateThread(thread_id) => self.user_handle.is_stopped
                || self.threads.contains_key(thread_id.as_str()),
            _ => true,
        }
    }

    /// Handles an action of a peer.
    pub fn handle_action(&mut self, action: Action) -> (step: Step)
        requires
            old(self)@.accepts(action@),
        ensures
            (final(self)@, step@) == old(self)@.on_action(action@),
    {
        if self.user_handle.is_stopped {
            match action {
                Action::Broadcast(_) => {},
                _ => {
                    return Step::Done(Err(HandlerError::PeerStopped));
                },
            }
        }
        match action {
            Action::StartAnonymousThread(thread) => {
                if self.threads.contains_key(thread.id.as_str()) {
                    return Step::Done(Err(HandlerError::ThreadIdTaken(thread.id)));
                }
                if self.banlist.contains_key(thread.other_login.as_str()) {
                    match thread.anon_mode {
                        ThreadAnonimityMode::Them => {
                            return Step::Done(Err(HandlerError::Banned));
                        },
                        _ => {},
                    }
                }
                let event = self.started_event(&thread);
                let plan = Plan::new().followed_by(
                    Instruction::Write { events: one_event(event) },
                ).followed_by(Instruction::Await).followed_by(Instruction::InsertThread(thread));
                assert(plan@ =~= self@.offered_plan(thread@));
                self.advance(plan)
            },
            Action::SendText(thread_id, text) => {
                let anon_mode = match self.threads.get(thread_id.as_str()) {
                    Some(thread) => thread.anon_mode,
                    None => ThreadAnonimityMode::Both,
                };
                let shown = relayed_text(anon_mode, thread_id.as_str(), text.as_str());
                let plan = Plan::new().followed_by(
                    Instruction::Send { text: shown, on_delivery: OnDelivery::Record(thread_id) },
                );
                assert(plan@ =~= self@.relayed_plan(thread_id@, text@));
                self.advance(plan)
            },
            Action::TerminateThread(thread_id) => {
                let mut notice = owned("Thread ");
                notice.append(thread_id.as_str());
                notice.append(" has been closed by the other side.");
                let plan = Plan::new().followed_by(send_to_self(notice)).followed_by(
                    Instruction::RemoveThread(thread_id),
                );
                assert(plan@ =~= HandlerView::terminated_plan(thread_id@));
                self.advance(plan)
            },
            Action::Broadcast(text) => self.answer(text),
        }
    }

    /// Whether the owner has stopped the bot.
    pub fn is_stopped(&self) -> (stopped: bool)
        ensures
            stopped == self@.stopped,
    {
        self.user_handle.is_stopped
    }

    /// What the directory holds for this actor.
    pub fn user_handle(&self) -> (handle: &UserHandle)
        ensures
            handle.user@ == self@.user,
            handle.is_stopped == self@.stopped,
    {
        &self.user_handle
    }

    /// The chat in which the owner talks to the bot.
    pub fn chat_id(&self) -> (chat_id: i64)
        ensures
            chat_id == self@.chat_id,
    {
        self.chat_id
    }

    /// The thread that the owner holds under `thread_id`. No thread id and
    /// no banned login occurs twice in the state of an actor.
    pub fn thread(&self, thread_id: &str) -> (thread: Option<&Thread>)
        ensures
            self@.well_formed(),
            match thread {
                Some(t) => has_key(self@.threads, thread_id@) && t@ == at(self@.threads, thread_id@),
                None => !has_key(self@.threads, thread_id@),
            },
    {
        proof {
            use_type_invariant(&self.threads);
            self.threads.lemma_distinct();
            use_type_invariant(&self.banlist);
            self.banlist.lemma_distinct();
        }
        self.threads.get(thread_id)
    }

    /// How many threads the owner holds.
    pub fn thread_count(&self) -> (n: usize)
        ensures
            n == self@.threads.len(),
            self@.well_formed(),
    {
        proof {
            use_type_invariant(&self.banlist);
            self.banlist.lemma_distinct();
        }
        self.threads.len()
    }

    /// The thread that the message `message_id` belongs to.
    pub fn thread_of_message(&self, message_id: i32) -> (thread_id: Option<&String>)
        ensures
            match thread_id {
                Some(id) => self@.message_index.contains_key(message_id) && id@
                    == self@.message_index[message_id],
                None => !self@.message_index.contains_key(message_id),
            },
    {
        self.message_id_to_thread_id.get(&message_id)
    }

    /// The thread for which the owner has banned `login`.
    pub fn banned_thread(&self, login: &str) -> (thread_id: Option<&String>)
        ensures
            match thread_id {
                Some(id) => has_key(self@.banlist, login@) && id@ == at(self@.banlist, login@),
                None => !has_key(self@.banlist, login@),
            },
    {
        self.banlist.get(login)
    }

    /// The event that says that `message_id` belongs to `thread_id`.
    fn message_event(&self, message_id: i32, thread_id: &str) -> (event: Event)
        ensures
            event@ == self@.message_event(message_id, thread_id@),
    {
        Event::ThreadMessageReceived(
            ThreadMessageReceivedEvent {
                login: self.user_handle.user.login.clone(),
                message_id,
                thread_id: owned(thread_id),
            },
        )
    }

    /// The event that says that the owner gained `thread`.
    fn started_event(&self, thread: &Thread) -> (event: Event)
        ensures
            event@ == self@.started_event(thread@),
    {
        Event::ThreadStarted(
            ThreadStartedEvent {
                login: self.user_handle.user.login.clone(),
                other_login: thread.other_login.clone(),
                my_thread_id: thread.id.clone(),
                other_thread_id: thread.other_id.clone(),
                anon_mode: thread.anon_mode,
            },
        )
    }
}

/// The value of an outcome of replay.
pub open spec fn replayed(result: Result<(), ReplayError>, state: HandlerView) -> Result<
    HandlerView,
    crate::error::ReplayErrorView,
> {
    match result {
        Ok(()) => Ok(state),
        Err(error) => Err(error@),
    }
}

/// An actor under reconstruction from the log.
pub struct HandlerBuilder {
    handler: Handler,
}

impl View for HandlerBuilder {
    type V = HandlerView;

    closed spec fn view(&self) -> HandlerView {
        self.handler@
    }
}

impl HandlerBuilder {
    /// An actor that has seen nothing yet.
    pub fn new(user_handle: UserHandle, chat_id: i64) -> (builder: HandlerBuilder)
        ensures
            builder@ == HandlerView::fresh(user_handle.user@, chat_id).with_stopped(
                user_handle.is_stopped,
            ),
    {
        HandlerBuilder { handler: Handler::new(user_handle, chat_id) }
    }

    /// Replays the start of a thread of this actor. The peer has to be in
    /// `handle_registry`.
    pub fn handle_thread_started(
        &mut self,
        event: ThreadStartedEvent,
        handle_registry: &Directory,
    ) -> (result: Result<(), ReplayError>)
        ensures
            replayed(result, final(self)@) == old(self)@.replay_thread_started(
                ThreadView {
                    id: event.my_thread_id@,
                    anon_mode: event.anon_mode,
                    other_id: event.other_thread_id@,
                    other_login: event.other_login@,
                },
                handle_registry@,
            ),
    {
        if !handle_registry.contains_key(event.other_login.as_str()) {
            return Err(ReplayError::UserNotFound(event.other_login));
        }
        let thread = Thread {
            id: event.my_thread_id.clone(),
            anon_mode: event.anon_mode,
            other_id: event.other_thread_id,
            other_login: event.other_login,
        };
        self.handler.threads.insert(event.my_thread_id, thread);
        Ok(())
    }

    /// Replays that a message belongs to a thread of this actor.
    pub fn handle_thread_message_received(&mut self, event: ThreadMessageReceivedEvent)
        ensures
            final(self)@ == old(self)@.apply(
                InstructionView::Index { message_id: event.message_id, thread_id: event.thread_id@ },
            ),
    {
        self.handler.message_id_to_thread_id.insert(event.message_id, event.thread_id);
        assert(self@.message_index =~= old(self)@.message_index.insert(
            event.message_id,
            event.thread_id@,
        ));
    }

    /// Replays the end of the thread `thread_id`, which has to be there.
    pub fn terminate_thread(&mut self, thread_id: &str) -> (result: Result<(), ReplayError>)
        ensures
            replayed(result, final(self)@) == old(self)@.replay_thread_terminated(thread_id@),
    {
        match self.handler.threads.remove(thread_id) {
            Some(_) => Ok(()),
            None => Err(ReplayError::ThreadNotFound(owned(thread_id))),
        }
    }

    /// Replays a ban: the thread, which has to be there, is gone, and the
    /// ban stands.
    pub fn handle_user_banned(&mut self, event: UserBannedEvent) -> (result: Result<(), ReplayError>)
        ensures
            replayed(result, final(self)@) == old(self)@.replay_user_banned(
                event.banned_login@,
                event.banned_thread_id@,
            ),
    {
        match self.handler.threads.remove(event.banned_thread_id.as_str()) {
            Some(_) => {
                self.handler.banlist.insert(event.banned_login, event.banned_thread_id);
                Ok(())
            },
            None => Err(ReplayError::ThreadNotFound(event.banned_thread_id)),
        }
    }

    /// Replays the lifting of a ban, which has to stand.
    pub fn handle_user_unbanned(&mut self, event: UserUnbannedEvent) -> (result: Result<(), ReplayError>)
        ensures
            replayed(result, final(self)@) == old(self)@.replay_user_unbanned(event.unbanned_login@),
    {
        match self.handler.banlist.remove(event.unbanned_login.as_str()) {
            Some(_) => Ok(()),
            None => Err(ReplayError::UserNotBanned(event.unbanned_login)),
        }
    }

    /// Replays that the owner stopped the bot.
    pub fn handle_user_stopped(&mut self)
        ensures
            final(self)@ == old(self)@.with_stopped(true),
    {
        self.handler.user_handle.is_stopped = true;
    }

    /// Replays that the owner started the bot again.
    pub fn handle_user_started(&mut self)
        ensures
            final(self)@ == old(self)@.with_stopped(false),
    {
        self.handler.user_handle.is_stopped = false;
    }

    /// The chat in which the owner talks to the bot.
    pub fn chat_id(&self) -> (chat_id: i64)
        ensures
            chat_id == self@.chat_id,
    {
        self.handler.chat_id
    }

    /// The actor as it stands.
    pub fn handler(&self) -> (handler: &Handler)
        ensures
            handler@ == self@,
    {
        &self.handler
    }

    /// The actor, ready for commands and actions.
    pub fn build(self) -> (handler: Handler)
        ensures
            handler@ == self@,
    {
        self.handler
    }
}

/// One of the two mailboxes of an actor.
#[derive(Debug, Clone, Copy, PartialEq, Eq, Structural)]
pub enum Mailbox {
    /// Where the commands of the owner arrive.
    Commands,
    /// Where the actions of the peers arrive.
    Actions,
}

/// How many requests a mailbox holds before its senders have to wait.
pub const MAILBOX_CAPACITY: usize = 100;

/// Which of the mailboxes of an actor still have senders. The actor serves
/// whichever open mailbox has a request, one request at a time, and is
/// retired when both are closed.
#[derive(Debug, Clone, Copy, PartialEq, Eq, Structural)]
pub struct Mailboxes {
    pub commands_open: bool,
    pub actions_open: bool,
}

impl Mailboxes {
    /// Whether `mailbox` still has senders.
    pub open spec fn open(self, mailbox: Mailbox) -> bool {
        match mailbox {
            Mailbox::Commands => self.commands_open,
            Mailbox::Actions => self.actions_open,
        }
    }

    /// The mailboxes of an actor that starts to run.
    pub fn new() -> (mailboxes: Mailboxes)
        ensures
            mailboxes.open(Mailbox::Commands),
            mailboxes.open(Mailbox::Actions),
    {
        Mailboxes { commands_open: true, actions_open: true }
    }

    /// Whether `mailbox` is to be waited on.
    pub fn is_open(&self, mailbox: Mailbox) -> (yes: bool)
        ensures
            yes == self.open(mailbox),
    {
        match mailbox {
            Mailbox::Commands => self.commands_open,
            Mailbox::Actions => self.actions_open,
        }
    }

    /// Takes note that the last sender of `mailbox` is gone. The other
    /// mailbox stays as it is.
    pub fn close(&mut self, mailbox: Mailbox)
        ensures
            !final(self).open(mailbox),
            forall|other: Mailbox| other != mailbox ==> final(self).open(other) == old(self).open(other),
    {
        match mailbox {
            Mailbox::Commands => {
                self.commands_open = false;
            },
            Mailbox::Actions => {
                self.actions_open = false;
            },
        }
    }

    /// Whether the actor is retired: no mailbox is left to wait on.
    pub fn retired(&self) -> (yes: bool)
        ensures
            yes == (!self.open(Mailbox::Commands) && !self.open(Mailbox::Actions)),
    {
        !self.commands_open && !self.actions_open
    }
}

} // verus!

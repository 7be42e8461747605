//! What an actor does, as mathematics: its state, and for every command,
//! action and outcome the state and the step that follow.

use vstd::prelude::*;
use crate::command::CommandView;
use crate::command_dispatcher::DirectoryView;
use crate::command_dispatcher::UserHandleView;
use crate::data::ThreadAnonimityMode;
use crate::data::UserView;
use crate::error::HandlerErrorView;
use crate::error::ReplayErrorView;
use crate::event_log::EventView;
use crate::handler::ActionView;
use crate::handler::ThreadView;
use crate::plan::InstructionView;
use crate::plan::OnDeliveryView;
use crate::plan::OnFailure;
use crate::plan::StepView;
use crate::string_map::at;
use crate::string_map::distinct;
use crate::string_map::has_key;
use crate::string_map::put;
use crate::string_map::without;
use crate::text::decimal;
use crate::text::joined;
use crate::text::sorted;
use crate::util::HELP_MESSAGE;
use crate::util::OPERATOR_LOGIN;
use crate::util::START_MESSAGE;
use crate::util::STOP_MESSAGE;
use crate::util::WordLists;
use crate::util::minted_from;

verus! {

/// The state of one actor: what its owner's commands and its peers' actions
/// have made of it.
pub struct HandlerView {
    pub user: UserView,
    pub chat_id: i64,
    pub stopped: bool,
    /// The owner's threads, each under its id.
    pub threads: Seq<(Seq<char>, ThreadView)>,
    /// The thread of every message that the owner sent or received.
    pub message_index: Map<i32, Seq<char>>,
    /// The logins that the owner has banned, each with the thread that was
    /// banned.
    pub banlist: Seq<(Seq<char>, Seq<char>)>,
}

impl HandlerView {
    /// Whether no thread id and no banned login occurs twice.
    pub open spec fn well_formed(self) -> bool {
        distinct(self.threads) && distinct(self.banlist)
    }

    /// The state of an actor that has seen nothing yet.
    pub open spec fn fresh(user: UserView, chat_id: i64) -> HandlerView {
        HandlerView {
            user,
            chat_id,
            stopped: false,
            threads: Seq::empty(),
            message_index: Map::empty(),
            banlist: Seq::empty(),
        }
    }

    /// The state with the stopped flag set to `stopped`.
    pub open spec fn with_stopped(self, stopped: bool) -> HandlerView {
        HandlerView { stopped, ..self }
    }

    /// The state after `instruction`, where it is one of those that change
    /// the actor's own state; the same state where it is not.
    pub open spec fn apply(self, instruction: InstructionView) -> HandlerView {
        match instruction {
            InstructionView::InsertThread(thread) => HandlerView {
                threads: put(self.threads, thread.id, thread),
                ..self
            },
            InstructionView::RemoveThread(thread_id) => HandlerView {
                threads: without(self.threads, thread_id),
                ..self
            },
            InstructionView::Index { message_id, thread_id } => HandlerView {
                message_index: self.message_index.insert(message_id, thread_id),
                ..self
            },
            InstructionView::Ban { login, thread_id } => HandlerView {
                banlist: put(self.banlist, login, thread_id),
                ..self
            },
            InstructionView::Unban { login } => HandlerView {
                banlist: without(self.banlist, login),
                ..self
            },
            _ => self,
        }
    }

    /// Carries out the steps of `plan` that change the actor's own state, up
    /// to the first that is work for the outside world, which is handed out
    /// with what follows it. A plan that runs out ends the request well.
    pub open spec fn run(self, plan: Seq<InstructionView>) -> (HandlerView, StepView)
        decreases plan.len(),
    {
        if plan.len() == 0 {
            (self, StepView::Done(Ok(())))
        } else {
            let rest = plan.skip(1);
            match plan[0] {
                InstructionView::Ask { login, action, on_failure } => (
                    self,
                    StepView::Ask { login, action, on_failure, rest },
                ),
                InstructionView::Write { events } => (self, StepView::Write { events, rest }),
                InstructionView::Await => (self, StepView::Await { rest }),
                InstructionView::Send { text, on_delivery } => (
                    self,
                    StepView::Send { text, on_delivery, rest },
                ),
                InstructionView::Publish { stopped } => (self, StepView::Publish { stopped, rest }),
                local => self.apply(local).run(rest),
            }
        }
    }

    /// The request fails with `error`; the state stays.
    pub open spec fn fail(self, error: HandlerErrorView) -> (HandlerView, StepView) {
        (self, StepView::Done(Err(error)))
    }

    /// The event that says that `message_id` belongs to `thread_id`.
    pub open spec fn message_event(self, message_id: i32, thread_id: Seq<char>) -> EventView {
        EventView::ThreadMessageReceived { login: self.user.login, message_id, thread_id }
    }

    /// What follows a peer's reply to an `Ask`.
    pub open spec fn after_ask(
        self,
        login: Seq<char>,
        on_failure: OnFailure,
        rest: Seq<InstructionView>,
        reply: Result<(), HandlerErrorView>,
    ) -> (HandlerView, StepView) {
        match reply {
            Ok(()) => self.run(rest),
            Err(error) => match on_failure {
                OnFailure::Fail => self.fail(error),
                OnFailure::FailTermination => self.fail(
                    HandlerErrorView::PeerTermination(error.message()),
                ),
                OnFailure::Report => (
                    self,
                    StepView::Send {
                        text: "Failed to send broadcast to user @"@ + login + ": "@
                            + error.message(),
                        on_delivery: OnDeliveryView::Nothing,
                        rest,
                    },
                ),
            },
        }
    }

    /// What follows the end of an `Await`: the reason is that of the failure,
    /// if the batch could not be made durable.
    pub open spec fn after_await(
        self,
        rest: Seq<InstructionView>,
        outcome: Result<(), Seq<char>>,
    ) -> (HandlerView, StepView) {
        match outcome {
            Ok(()) => self.run(rest),
            Err(reason) => self.fail(HandlerErrorView::Persistence(reason)),
        }
    }

    /// What follows a `Send`: `outcome` is the id that the transport gave the
    /// message, or its reason for not delivering it.
    pub open spec fn after_send(
        self,
        on_delivery: OnDeliveryView,
        rest: Seq<InstructionView>,
        outcome: Result<i32, Seq<char>>,
    ) -> (HandlerView, StepView) {
        match outcome {
            Err(reason) => self.fail(HandlerErrorView::Transport(reason)),
            Ok(message_id) => match on_delivery {
                OnDeliveryView::Nothing => self.run(rest),
                OnDeliveryView::Note(thread_id) => self.run(
                    seq![
                        InstructionView::Index { message_id, thread_id },
                        InstructionView::Write {
                            events: seq![self.message_event(message_id, thread_id)],
                        },
                    ] + rest,
                ),
                OnDeliveryView::Record(thread_id) => self.run(
                    seq![
                        InstructionView::Write {
                            events: seq![self.message_event(message_id, thread_id)],
                        },
                        InstructionView::Await,
                        InstructionView::Index { message_id, thread_id },
                    ] + rest,
                ),
            },
        }
    }
}

/// The line that shows `user` in the list of users.
pub open spec fn user_line(user: UserView) -> Seq<char> {
    match user.last_name {
        Some(last_name) => user.first_name + " "@ + last_name + " @"@ + user.login,
        None => user.first_name + " @"@ + user.login,
    }
}

/// The line of an entry of the directory, unless its user has stopped the
/// bot.
pub open spec fn listed_user() -> spec_fn((Seq<char>, UserHandleView)) -> Option<Seq<char>> {
    |e: (Seq<char>, UserHandleView)|
        if e.1.is_stopped {
            None
        } else {
            Some(user_line(e.1.user))
        }
}

/// The lines of the users of `directory` who have not stopped the bot, in the
/// order of the directory.
pub open spec fn user_lines(directory: DirectoryView) -> Seq<Seq<char>> {
    directory.filter_map(listed_user())
}

/// The answer to `/users`.
pub open spec fn users_text(directory: DirectoryView) -> Seq<char> {
    "Available users:\n* "@ + joined(sorted(user_lines(directory)), "\n* "@)
}

/// Whether `thread_id` is of the kind that is minted at random.
pub open spec fn is_minted(thread_id: Seq<char>) -> bool {
    thread_id.len() > 0 && thread_id[0] == '#'
}

/// Whether `thread_id` addresses a login.
pub open spec fn is_addressed(thread_id: Seq<char>) -> bool {
    thread_id.len() > 0 && thread_id[0] == '@'
}

/// The id of a thread, if it was minted at random.
pub open spec fn minted_id() -> spec_fn((Seq<char>, ThreadView)) -> Option<Seq<char>> {
    |e: (Seq<char>, ThreadView)|
        if is_minted(e.0) {
            Some(e.0)
        } else {
            None
        }
}

/// The ids among `threads` that were minted at random, in the order of
/// `threads`.
pub open spec fn minted_ids(threads: Seq<(Seq<char>, ThreadView)>) -> Seq<Seq<char>> {
    threads.filter_map(minted_id())
}

/// The answer to `/threads`.
pub open spec fn threads_text(threads: Seq<(Seq<char>, ThreadView)>) -> Seq<char> {
    if minted_ids(threads).len() == 0 {
        "There are no active threads."@
    } else {
        "Active threads:\n* "@ + joined(sorted(minted_ids(threads)), "\n* "@)
    }
}

/// The threads that stand in `banlist`, in its order.
pub open spec fn banned_threads(banlist: Seq<(Seq<char>, Seq<char>)>) -> Seq<Seq<char>> {
    banlist.map_values(|e: (Seq<char>, Seq<char>)| e.1)
}

/// The answer to `/banlist`.
pub open spec fn banlist_text(banlist: Seq<(Seq<char>, Seq<char>)>) -> Seq<char> {
    if banlist.len() == 0 {
        "You have not banned anybody."@
    } else {
        "Banned threads:\n* "@ + joined(sorted(banned_threads(banlist)), "\n* "@)
    }
}

/// The login that stands first in `banlist` with the thread `thread_id`.
pub open spec fn banned_under(banlist: Seq<(Seq<char>, Seq<char>)>, thread_id: Seq<char>) -> Option<
    Seq<char>,
>
    decreases banlist.len(),
{
    if banlist.len() == 0 {
        None
    } else if banlist[0].1 == thread_id {
        Some(banlist[0].0)
    } else {
        banned_under(banlist.skip(1), thread_id)
    }
}

/// What a peer's message looks like to the owner of a thread with the mode
/// `anon_mode` and the id `thread_id`.
pub open spec fn relayed_text(
    anon_mode: ThreadAnonimityMode,
    thread_id: Seq<char>,
    text: Seq<char>,
) -> Seq<char> {
    match anon_mode {
        ThreadAnonimityMode::Me => ">>> Message from "@ + thread_id + ":\n"@ + text,
        ThreadAnonimityMode::Them => ">>> Message from anonymous "@ + thread_id + ":\n"@ + text,
        ThreadAnonimityMode::Both => ">>> Message from random chat "@ + thread_id + ":\n"@ + text,
    }
}

/// The step that sends `text` to the owner and does nothing with the id.
pub open spec fn tell(text: Seq<char>) -> InstructionView {
    InstructionView::Send { text, on_delivery: OnDeliveryView::Nothing }
}

/// The step that asks the peer of `thread` to show `text` to its owner.
pub open spec fn send_text(thread: ThreadView, text: Seq<char>) -> InstructionView {
    InstructionView::Ask {
        login: thread.other_login,
        action: ActionView::SendText(thread.other_id, text),
        on_failure: OnFailure::Fail,
    }
}

/// The step that asks the peer of `thread` to drop its half.
pub open spec fn terminate(thread: ThreadView) -> InstructionView {
    InstructionView::Ask {
        login: thread.other_login,
        action: ActionView::TerminateThread(thread.other_id),
        on_failure: OnFailure::FailTermination,
    }
}

/// The step that brings `text` to the user of `login`: its actor is asked
/// to show it, except that the owner of `operator` is told at once, whose
/// actor would otherwise wait for itself.
pub open spec fn broadcast_step(login: Seq<char>, operator: Seq<char>, text: Seq<char>) -> InstructionView {
    if login == operator {
        tell(text)
    } else {
        InstructionView::Ask {
            login,
            action: ActionView::Broadcast(text),
            on_failure: OnFailure::Report,
        }
    }
}

/// The steps that bring `text` to every user of `directory`, in its order.
pub open spec fn broadcast_steps(
    directory: DirectoryView,
    operator: Seq<char>,
    text: Seq<char>,
) -> Seq<InstructionView> {
    Seq::new(directory.len(), |i: int| broadcast_step(directory[i].0, operator, text))
}

/// The login of an entry of the directory, unless it is `login`.
pub open spec fn other_than(login: Seq<char>) -> spec_fn((Seq<char>, UserHandleView)) -> Option<
    Seq<char>,
> {
    |e: (Seq<char>, UserHandleView)|
        if e.0 != login {
            Some(e.0)
        } else {
            None
        }
}

/// The logins of `directory` other than `login`, in its order.
pub open spec fn other_logins(directory: DirectoryView, login: Seq<char>) -> Seq<Seq<char>> {
    directory.filter_map(other_than(login))
}

/// What chance decides of a command: the peer of a random chat, and the two
/// thread ids that a command may need.
pub struct DiceView {
    pub peer: Seq<char>,
    pub first_id: Seq<char>,
    pub second_id: Seq<char>,
}

/// Whether `dice` may have been cast for `command`, sent by the user
/// `login`: what the command uses of them comes from where it should, a
/// peer from the other logins of `directory` and an id from `words`.
pub open spec fn fair(
    dice: DiceView,
    command: CommandView,
    directory: DirectoryView,
    login: Seq<char>,
    words: WordLists,
) -> bool {
    match command {
        CommandView::Random { .. } => {
            &&& minted_from(dice.first_id, words)
            &&& minted_from(dice.second_id, words)
            &&& other_logins(directory, login).len() > 0 ==> other_logins(
                directory,
                login,
            ).contains(dice.peer)
        },
        CommandView::Send { .. } => minted_from(dice.first_id, words),
        _ => true,
    }
}

impl HandlerView {
    /// The event that says that the owner gained `thread`.
    pub open spec fn started_event(self, thread: ThreadView) -> EventView {
        EventView::ThreadStarted {
            login: self.user.login,
            other_login: thread.other_login,
            my_thread_id: thread.id,
            other_thread_id: thread.other_id,
            anon_mode: thread.anon_mode,
        }
    }

    /// The steps of `/start` and `/stop`: the directory is told, the fact is
    /// made durable, and only then is the owner answered.
    pub open spec fn lifecycle_plan(self, stopped: bool) -> Seq<InstructionView> {
        seq![
            InstructionView::Publish { stopped },
            InstructionView::Write {
                events: seq![
                    if stopped {
                        EventView::UserStopped { login: self.user.login }
                    } else {
                        EventView::UserStarted { login: self.user.login }
                    },
                ],
            },
            InstructionView::Await,
            tell(
                if stopped {
                    STOP_MESSAGE@
                } else {
                    START_MESSAGE@
                },
            ),
        ]
    }

    /// `/start`: the owner is back at once.
    pub open spec fn on_start(self) -> (HandlerView, StepView) {
        self.with_stopped(false).run(self.lifecycle_plan(false))
    }

    /// `/stop`: the owner is gone at once.
    pub open spec fn on_stop(self) -> (HandlerView, StepView) {
        self.with_stopped(true).run(self.lifecycle_plan(true))
    }

    /// The steps of the pairing protocol. The owner's half `mine` and its
    /// mirror are made together; the mirror is offered to the peer, and only
    /// when the peer has taken it does the owner keep `mine` and go on with
    /// `rest`.
    pub open spec fn pairing_plan(self, mine: ThreadView, rest: Seq<InstructionView>) -> Seq<
        InstructionView,
    > {
        seq![
            InstructionView::Ask {
                login: mine.other_login,
                action: ActionView::StartAnonymousThread(mine.mirror(self.user.login)),
                on_failure: OnFailure::Fail,
            },
            InstructionView::InsertThread(mine),
        ] + rest
    }

    /// The pairing protocol, which needs the peer to be in the directory.
    pub open spec fn pair(
        self,
        mine: ThreadView,
        directory: DirectoryView,
        rest: Seq<InstructionView>,
    ) -> (HandlerView, StepView) {
        if !has_key(directory, mine.other_login) {
            self.fail(HandlerErrorView::UserNotStarted)
        } else {
            self.run(self.pairing_plan(mine, rest))
        }
    }

    /// What `/random` does once the thread `mine` is paired: the message is
    /// indexed, the thread and the message are handed to the log, the text
    /// goes to the peer, and the owner is told the id. That notice is a
    /// message of the thread too: it is indexed and handed to the log under
    /// the id that the transport gives it. Then both batches are waited for.
    /// The text reaches the peer before the thread is known to be durable:
    /// the request fails if the log does, but the peer has seen the text by
    /// then.
    pub open spec fn random_plan(self, mine: ThreadView, message_id: i32, text: Seq<char>) -> Seq<
        InstructionView,
    > {
        seq![
            InstructionView::Index { message_id, thread_id: mine.id },
            InstructionView::Write {
                events: seq![self.started_event(mine), self.message_event(message_id, mine.id)],
            },
            send_text(mine, text),
            InstructionView::Send {
                text: "Started a new anonymous thread "@ + mine.id + "."@,
                on_delivery: OnDeliveryView::Note(mine.id),
            },
            InstructionView::Await,
            InstructionView::Await,
        ]
    }

    /// `/random`: a thread in which both sides are hidden, with the peer
    /// that `dice` names, under the first id of `dice`; the peer's half goes
    /// under the second. It needs someone else in the directory, and the
    /// owner is no peer of its own.
    pub open spec fn on_random(
        self,
        message_id: i32,
        text: Seq<char>,
        directory: DirectoryView,
        dice: DiceView,
    ) -> (HandlerView, StepView) {
        let mine = ThreadView {
            id: dice.first_id,
            anon_mode: ThreadAnonimityMode::Both,
            other_id: dice.second_id,
            other_login: dice.peer,
        };
        if other_logins(directory, self.user.login).len() == 0 {
            self.fail(HandlerErrorView::NoOtherUsers)
        } else if dice.peer == self.user.login {
            self.fail(HandlerErrorView::SelfSend)
        } else {
            self.pair(mine, directory, self.random_plan(mine, message_id, text))
        }
    }

    /// What `/send` does with a thread that the owner holds: the message is
    /// indexed and made durable, and then the text goes to the peer.
    pub open spec fn send_plan(
        self,
        thread: ThreadView,
        thread_id: Seq<char>,
        message_id: i32,
        text: Seq<char>,
    ) -> Seq<InstructionView> {
        seq![
            InstructionView::Index { message_id, thread_id },
            InstructionView::Write { events: seq![self.message_event(message_id, thread_id)] },
            InstructionView::Await,
            send_text(thread, text),
        ]
    }

    /// What `/send` does once the thread `mine` is paired: as with a thread
    /// that the owner holds, but the thread is made durable with the message.
    pub open spec fn opening_plan(self, mine: ThreadView, message_id: i32, text: Seq<char>) -> Seq<
        InstructionView,
    > {
        seq![
            InstructionView::Index { message_id, thread_id: mine.id },
            InstructionView::Write {
                events: seq![self.started_event(mine), self.message_event(message_id, mine.id)],
            },
            InstructionView::Await,
            send_text(mine, text),
        ]
    }

    /// `/send`. A thread that the owner holds is written to. An id that
    /// addresses a login opens a thread in which the owner stays hidden,
    /// with `fresh_id` as the id of the peer's half; the owner's own login
    /// cannot be addressed.
    pub open spec fn on_send(
        self,
        thread_id: Seq<char>,
        message_id: i32,
        text: Seq<char>,
        directory: DirectoryView,
        fresh_id: Seq<char>,
    ) -> (HandlerView, StepView) {
        if has_key(self.threads, thread_id) {
            self.run(self.send_plan(at(self.threads, thread_id), thread_id, message_id, text))
        } else if !is_addressed(thread_id) {
            self.fail(HandlerErrorView::UnknownThread(thread_id))
        } else if thread_id.skip(1) == self.user.login {
            self.fail(HandlerErrorView::SelfSend)
        } else {
            let mine = ThreadView {
                id: thread_id,
                anon_mode: ThreadAnonimityMode::Me,
                other_id: fresh_id,
                other_login: thread_id.skip(1),
            };
            self.pair(mine, directory, self.opening_plan(mine, message_id, text))
        }
    }

    /// The steps of a reply: the text goes to the peer of `thread`, and then
    /// the message is indexed under `thread_id` and made durable.
    pub open spec fn reply_plan(
        self,
        thread: ThreadView,
        thread_id: Seq<char>,
        message_id: i32,
        text: Seq<char>,
    ) -> Seq<InstructionView> {
        seq![
            send_text(thread, text),
            InstructionView::Index { message_id, thread_id },
            InstructionView::Write { events: seq![self.message_event(message_id, thread_id)] },
            InstructionView::Await,
        ]
    }

    /// A reply to the message `reply_message_id`: it goes to the thread
    /// that the message belongs to.
    pub open spec fn on_reply(self, reply_message_id: i32, message_id: i32, text: Seq<char>) -> (
        HandlerView,
        StepView,
    ) {
        if !self.message_index.contains_key(reply_message_id) {
            self.fail(HandlerErrorView::NotInThread)
        } else {
            let thread_id = self.message_index[reply_message_id];
            if !has_key(self.threads, thread_id) {
                self.fail(HandlerErrorView::ThreadGone)
            } else {
                self.run(self.reply_plan(at(self.threads, thread_id), thread_id, message_id, text))
            }
        }
    }

    /// The steps of `/close`: the peer drops its half, the owner its own,
    /// and the end of both is made durable, under the id that the owner
    /// closed and the id by which the peer was asked.
    pub open spec fn close_plan(self, thread: ThreadView, thread_id: Seq<char>) -> Seq<
        InstructionView,
    > {
        seq![
            terminate(thread),
            InstructionView::RemoveThread(thread_id),
            InstructionView::Write {
                events: seq![
                    EventView::ThreadTerminated {
                        login: self.user.login,
                        other_login: thread.other_login,
                        my_thread_id: thread_id,
                        other_thread_id: thread.other_id,
                    },
                ],
            },
            InstructionView::Await,
        ]
    }

    /// `/close`: for a thread in which the peer is hidden too, or only the
    /// peer.
    pub open spec fn on_close(self, thread_id: Seq<char>) -> (HandlerView, StepView) {
        if !has_key(self.threads, thread_id) {
            self.fail(HandlerErrorView::NoSuchThread(thread_id))
        } else if at(self.threads, thread_id).anon_mode == ThreadAnonimityMode::Them {
            self.fail(HandlerErrorView::CloseSemiAnonymous)
        } else {
            self.run(self.close_plan(at(self.threads, thread_id), thread_id))
        }
    }

    /// The steps of `/ban`: the peer drops its half, the owner its own, and
    /// the ban stands once it is durable.
    pub open spec fn ban_plan(self, thread: ThreadView, thread_id: Seq<char>) -> Seq<
        InstructionView,
    > {
        seq![
            terminate(thread),
            InstructionView::RemoveThread(thread_id),
            InstructionView::Write {
                events: seq![
                    EventView::UserBanned {
                        login: self.user.login,
                        banned_login: thread.other_login,
                        banned_thread_id: thread_id,
                    },
                ],
            },
            InstructionView::Await,
            InstructionView::Ban { login: thread.other_login, thread_id },
        ]
    }

    /// `/ban`: for a thread in which only the owner is hidden.
    pub open spec fn on_ban(self, thread_id: Seq<char>) -> (HandlerView, StepView) {
        if !has_key(self.threads, thread_id) {
            self.fail(HandlerErrorView::NoSuchThread(thread_id))
        } else if at(self.threads, thread_id).anon_mode != ThreadAnonimityMode::Them {
            self.fail(HandlerErrorView::BanNotAnonymous)
        } else {
            self.run(self.ban_plan(at(self.threads, thread_id), thread_id))
        }
    }

    /// The steps of `/unban`: the ban on `login` is lifted once that is
    /// durable.
    pub open spec fn unban_plan(self, login: Seq<char>) -> Seq<InstructionView> {
        seq![
            InstructionView::Write {
                events: seq![
                    EventView::UserUnbanned { login: self.user.login, unbanned_login: login },
                ],
            },
            InstructionView::Await,
            InstructionView::Unban { login },
        ]
    }

    /// `/unban`: for the ban that stands first under the thread.
    pub open spec fn on_unban(self, thread_id: Seq<char>) -> (HandlerView, StepView) {
        match banned_under(self.banlist, thread_id) {
            None => self.fail(HandlerErrorView::NotBanned(thread_id)),
            Some(login) => self.run(self.unban_plan(login)),
        }
    }

    /// The steps of `/broadcast`: the owner is told how many users there
    /// are, the text goes to each, and the owner is told the end.
    pub open spec fn broadcast_plan(self, text: Seq<char>, directory: DirectoryView) -> Seq<
        InstructionView,
    > {
        seq![tell("Starting broadcast to "@ + decimal(directory.len()) + " users..."@)]
            + broadcast_steps(directory, self.user.login, text) + seq![
            tell("Broadcast is finished."@),
        ]
    }

    /// `/broadcast`, which only the operator may use.
    pub open spec fn on_broadcast(self, text: Seq<char>, directory: DirectoryView) -> (
        HandlerView,
        StepView,
    ) {
        if self.user.login != OPERATOR_LOGIN@ {
            self.fail(HandlerErrorView::NotAdmin)
        } else {
            self.run(self.broadcast_plan(text, directory))
        }
    }

    /// The steps by which a half offered by a peer is taken: it is kept once
    /// it is durable.
    pub open spec fn offered_plan(self, thread: ThreadView) -> Seq<InstructionView> {
        seq![
            InstructionView::Write { events: seq![self.started_event(thread)] },
            InstructionView::Await,
            InstructionView::InsertThread(thread),
        ]
    }

    /// The steps by which a peer's text is shown: the owner sees it with a
    /// heading that fits the thread, and the message is recorded under the
    /// thread.
    pub open spec fn relayed_plan(self, thread_id: Seq<char>, text: Seq<char>) -> Seq<
        InstructionView,
    > {
        seq![
            InstructionView::Send {
                text: relayed_text(at(self.threads, thread_id).anon_mode, thread_id, text),
                on_delivery: OnDeliveryView::Record(thread_id),
            },
        ]
    }

    /// The steps by which a thread that the peer closed is dropped: the
    /// owner is told first.
    pub open spec fn terminated_plan(thread_id: Seq<char>) -> Seq<InstructionView> {
        seq![
            tell("Thread "@ + thread_id + " has been closed by the other side."@),
            InstructionView::RemoveThread(thread_id),
        ]
    }

    /// What an action of a peer leads to. A broadcast is shown to the owner
    /// whatever the state. Of the other actions an actor whose owner has
    /// stopped the bot takes none. A half is not taken under an id that is
    /// in use, nor from a login that the owner has banned, if the half would
    /// hide that login from the owner.
    pub open spec fn on_action(self, action: ActionView) -> (HandlerView, StepView) {
        if self.stopped && !(action is Broadcast) {
            self.fail(HandlerErrorView::PeerStopped)
        } else {
            match action {
                ActionView::StartAnonymousThread(thread) => {
                    if has_key(self.threads, thread.id) {
                        self.fail(HandlerErrorView::ThreadIdTaken(thread.id))
                    } else if has_key(self.banlist, thread.other_login) && thread.anon_mode
                        == ThreadAnonimityMode::Them {
                        self.fail(HandlerErrorView::Banned)
                    } else {
                        self.run(self.offered_plan(thread))
                    }
                },
                ActionView::SendText(thread_id, text) => self.run(
                    self.relayed_plan(thread_id, text),
                ),
                ActionView::TerminateThread(thread_id) => self.run(
                    Self::terminated_plan(thread_id),
                ),
                ActionView::Broadcast(text) => self.run(seq![tell(text)]),
            }
        }
    }

    /// Whether the actor holds the thread that `action` is about, where it
    /// is about one of the actor's threads.
    pub open spec fn accepts(self, action: ActionView) -> bool {
        match action {
            ActionView::SendText(thread_id, _) => self.stopped || has_key(self.threads, thread_id),
            ActionView::TerminateThread(thread_id) => self.stopped || has_key(
                self.threads,
                thread_id,
            ),
            _ => true,
        }
    }

    /// What a command leads to. While the owner has stopped the bot only
    /// `/start` is taken. Of `dice`, `/random` uses all, `/send` the first
    /// id, the other commands nothing.
    pub open spec fn on_command(
        self,
        command: CommandView,
        directory: DirectoryView,
        dice: DiceView,
    ) -> (HandlerView, StepView) {
        if self.stopped && command != CommandView::Start {
            self.fail(HandlerErrorView::Stopped)
        } else {
            match command {
                CommandView::Start => self.on_start(),
                CommandView::Stop => self.on_stop(),
                CommandView::Help => self.run(seq![tell(HELP_MESSAGE@)]),
                CommandView::Users => self.run(seq![tell(users_text(directory))]),
                CommandView::Threads => self.run(seq![tell(threads_text(self.threads))]),
                CommandView::Banlist => self.run(seq![tell(banlist_text(self.banlist))]),
                CommandView::Send { thread_id, message_id, text } => self.on_send(
                    thread_id,
                    message_id,
                    text,
                    directory,
                    dice.first_id,
                ),
                CommandView::Reply { message_id, reply_message_id, text } => self.on_reply(
                    reply_message_id,
                    message_id,
                    text,
                ),
                CommandView::Close { thread_id } => self.on_close(thread_id),
                CommandView::Ban { thread_id } => self.on_ban(thread_id),
                CommandView::Unban { thread_id } => self.on_unban(thread_id),
                CommandView::Broadcast { text } => self.on_broadcast(text, directory),
                CommandView::Random { message_id, text } => self.on_random(
                    message_id,
                    text,
                    directory,
                    dice,
                ),
            }
        }
    }
}

impl HandlerView {
    /// The state after a `ThreadStarted` event of the owner: the thread is
    /// there, if the directory knows the peer.
    pub open spec fn replay_thread_started(
        self,
        thread: ThreadView,
        directory: DirectoryView,
    ) -> Result<HandlerView, ReplayErrorView> {
        if !has_key(directory, thread.other_login) {
            Err(ReplayErrorView::UserNotFound(thread.other_login))
        } else {
            Ok(self.apply(InstructionView::InsertThread(thread)))
        }
    }

    /// The state after the end of the thread `thread_id`, which has to be
    /// there.
    pub open spec fn replay_thread_terminated(self, thread_id: Seq<char>) -> Result<
        HandlerView,
        ReplayErrorView,
    > {
        if !has_key(self.threads, thread_id) {
            Err(ReplayErrorView::ThreadNotFound(thread_id))
        } else {
            Ok(self.apply(InstructionView::RemoveThread(thread_id)))
        }
    }

    /// The state after a `UserBanned` event of the owner: the thread, which
    /// has to be there, is gone, and the ban stands.
    pub open spec fn replay_user_banned(
        self,
        banned_login: Seq<char>,
        banned_thread_id: Seq<char>,
    ) -> Result<HandlerView, ReplayErrorView> {
        if !has_key(self.threads, banned_thread_id) {
            Err(ReplayErrorView::ThreadNotFound(banned_thread_id))
        } else {
            Ok(
                self.apply(InstructionView::RemoveThread(banned_thread_id)).apply(
                    InstructionView::Ban { login: banned_login, thread_id: banned_thread_id },
                ),
            )
        }
    }

    /// The state after a `UserUnbanned` event of the owner: the ban, which
    /// has to stand, is lifted.
    pub open spec fn replay_user_unbanned(self, unbanned_login: Seq<char>) -> Result<
        HandlerView,
        ReplayErrorView,
    > {
        if !has_key(self.banlist, unbanned_login) {
            Err(ReplayErrorView::UserNotBanned(unbanned_login))
        } else {
            Ok(self.apply(InstructionView::Unban { login: unbanned_login }))
        }
    }
}

} // verus!

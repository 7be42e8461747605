//! Why a request of an actor, or the replay of a log, fails.

use vstd::prelude::*;
use vstd::string::StringExecFns;
use crate::event_log::PersistenceError;
use crate::text::owned;

verus! {

/// Why a command or an action failed.
#[derive(Debug, Clone, PartialEq, Eq)]
pub enum HandlerError {
    /// The owner has stopped the bot and asks for something other than a start.
    Stopped,
    /// An action reached an actor whose owner has stopped the bot.
    PeerStopped,
    /// A random chat was asked for and no one else is there.
    NoOtherUsers,
    /// The thread is not the owner's, and its id names no login.
    UnknownThread(String),
    /// The owner addressed a thread to its own login.
    SelfSend,
    /// No actor is registered under the login addressed.
    UserNotStarted,
    /// The message replied to is not known to belong to a thread.
    NotInThread,
    /// The message replied to belongs to a thread that is gone.
    ThreadGone,
    /// The thread to close or ban is not the owner's.
    NoSuchThread(String),
    /// A thread in which only the owner is hidden cannot be closed.
    CloseSemiAnonymous,
    /// Only a thread in which only the owner is hidden can be banned.
    BanNotAnonymous,
    /// The peer would not drop its half; its reason is kept.
    PeerTermination(String),
    /// No ban stands under the thread.
    NotBanned(String),
    /// Someone other than the operator asked for a broadcast.
    NotAdmin,
    /// The actor already holds a thread under the id offered.
    ThreadIdTaken(String),
    /// The actor has banned the login that offers the thread.
    Banned,
    /// The events could not be made durable.
    Persistence(PersistenceError),
    /// The transport would not deliver to the owner; its reason is kept.
    Transport(String),
}

/// The mathematical value of a [`HandlerError`].
pub enum HandlerErrorView {
    Stopped,
    PeerStopped,
    NoOtherUsers,
    UnknownThread(Seq<char>),
    SelfSend,
    UserNotStarted,
    NotInThread,
    ThreadGone,
    NoSuchThread(Seq<char>),
    CloseSemiAnonymous,
    BanNotAnonymous,
    PeerTermination(Seq<char>),
    NotBanned(Seq<char>),
    NotAdmin,
    ThreadIdTaken(Seq<char>),
    Banned,
    Persistence(Seq<char>),
    Transport(Seq<char>),
}

impl View for HandlerError {
    type V = HandlerErrorView;

    open spec fn view(&self) -> HandlerErrorView {
        match *self {
            HandlerError::Stopped => HandlerErrorView::Stopped,
            HandlerError::PeerStopped => HandlerErrorView::PeerStopped,
            HandlerError::NoOtherUsers => HandlerErrorView::NoOtherUsers,
            HandlerError::UnknownThread(id) => HandlerErrorView::UnknownThread(id@),
            HandlerError::SelfSend => HandlerErrorView::SelfSend,
            HandlerError::UserNotStarted => HandlerErrorView::UserNotStarted,
            HandlerError::NotInThread => HandlerErrorView::NotInThread,
            HandlerError::ThreadGone => HandlerErrorView::ThreadGone,
            HandlerError::NoSuchThread(id) => HandlerErrorView::NoSuchThread(id@),
            HandlerError::CloseSemiAnonymous => HandlerErrorView::CloseSemiAnonymous,
            HandlerError::BanNotAnonymous => HandlerErrorView::BanNotAnonymous,
            HandlerError::PeerTermination(reason) => HandlerErrorView::PeerTermination(reason@),
            HandlerError::NotBanned(id) => HandlerErrorView::NotBanned(id@),
            HandlerError::NotAdmin => HandlerErrorView::NotAdmin,
            HandlerError::ThreadIdTaken(id) => HandlerErrorView::ThreadIdTaken(id@),
            HandlerError::Banned => HandlerErrorView::Banned,
            HandlerError::Persistence(error) => HandlerErrorView::Persistence(error.reason()),
            HandlerError::Transport(reason) => HandlerErrorView::Transport(reason@),
        }
    }
}

impl HandlerErrorView {
    /// The text shown for this error.
    pub open spec fn message(self) -> Seq<char> {
        match self {
            HandlerErrorView::Stopped => "you have stopped the bot. Use `/start` to restart it"@,
            HandlerErrorView::PeerStopped => "user has stopped the bot"@,
            HandlerErrorView::NoOtherUsers => "there are currently no other users to chat with"@,
            HandlerErrorView::UnknownThread(id) => "unknown thread: "@ + id,
            HandlerErrorView::SelfSend => "cannot send a message to self"@,
            HandlerErrorView::UserNotStarted => "user has not started this bot"@,
            HandlerErrorView::NotInThread => "message you are replying to does not belong to a thread"@,
            HandlerErrorView::ThreadGone => "thread does not exist anymore"@,
            HandlerErrorView::NoSuchThread(id) => "thread "@ + id + " does not exist"@,
            HandlerErrorView::CloseSemiAnonymous => "cannot close a semi-anonimous thread; use `/ban` instead"@,
            HandlerErrorView::BanNotAnonymous => "cannot ban random or non-anonimous chat; use `/close` instead"@,
            HandlerErrorView::PeerTermination(reason) => "failed to terminate peer thread: "@
                + reason,
            HandlerErrorView::NotBanned(id) => "no "@ + id + " in your ban list"@,
            HandlerErrorView::NotAdmin => "you are not admin"@,
            HandlerErrorView::ThreadIdTaken(id) => "thread id "@ + id + " is already used"@,
            HandlerErrorView::Banned => "you are banned by this user"@,
            HandlerErrorView::Persistence(reason) => "persistence error: failed to write events: "@
                + reason,
            HandlerErrorView::Transport(reason) => "failed to send message to user: "@ + reason,
        }
    }
}

/// `head`, `middle` and `tail` in one string.
fn framed_text(head: &str, middle: &str, tail: &str) -> (text: String)
    ensures
        text@ == head@ + middle@ + tail@,
{
    let mut text = owned(head);
    text.append(middle);
    text.append(tail);
    text
}

impl HandlerError {
    /// The text shown for this error.
    pub fn message(&self) -> (text: String)
        ensures
            text@ == self@.message(),
    {
        match self {
            HandlerError::Stopped => owned("you have stopped the bot. Use `/start` to restart it"),
            HandlerError::PeerStopped => owned("user has stopped the bot"),
            HandlerError::NoOtherUsers => owned("there are currently no other users to chat with"),
            HandlerError::UnknownThread(id) => {
                let text = framed_text("unknown thread: ", id.as_str(), "");
                assert(text@ =~= "unknown thread: "@ + id@) by {
                    reveal_strlit("");
                }
                text
            },
            HandlerError::SelfSend => owned("cannot send a message to self"),
            HandlerError::UserNotStarted => owned("user has not started this bot"),
            HandlerError::NotInThread => owned(
                "message you are replying to does not belong to a thread",
            ),
            HandlerError::ThreadGone => owned("thread does not exist anymore"),
            HandlerError::NoSuchThread(id) => framed_text("thread ", id.as_str(), " does not exist"),
            HandlerError::CloseSemiAnonymous => owned(
                "cannot close a semi-anonimous thread; use `/ban` instead",
            ),
            HandlerError::BanNotAnonymous => owned(
                "cannot ban random or non-anonimous chat; use `/close` instead",
            ),
            HandlerError::PeerTermination(reason) => {
                let text = framed_text("failed to terminate peer thread: ", reason.as_str(), "");
                assert(text@ =~= "failed to terminate peer thread: "@ + reason@) by {
                    reveal_strlit("");
                }
                text
            },
            HandlerError::NotBanned(id) => framed_text("no ", id.as_str(), " in your ban list"),
            HandlerError::NotAdmin => owned("you are not admin"),
            HandlerError::ThreadIdTaken(id) => framed_text(
                "thread id ",
                id.as_str(),
                " is already used",
            ),
            HandlerError::Banned => owned("you are banned by this user"),
            HandlerError::Persistence(error) => error.message(),
            HandlerError::Transport(reason) => {
                let text = framed_text("failed to send message to user: ", reason.as_str(), "");
                assert(text@ =~= "failed to send message to user: "@ + reason@) by {
                    reveal_strlit("");
                }
                text
            },
        }
    }
}

/// Why a log cannot be replayed.
#[derive(Debug, Clone, PartialEq, Eq)]
pub enum ReplayError {
    /// An event names a login that no earlier event has connected.
    UserNotFound(String),
    /// An event ends a thread that its owner does not hold.
    ThreadNotFound(String),
    /// An event lifts a ban that does not stand.
    UserNotBanned(String),
}

/// The mathematical value of a [`ReplayError`].
pub enum ReplayErrorView {
    UserNotFound(Seq<char>),
    ThreadNotFound(Seq<char>),
    UserNotBanned(Seq<char>),
}

impl View for ReplayError {
    type V = ReplayErrorView;

    open spec fn view(&self) -> ReplayErrorView {
        match *self {
            ReplayError::UserNotFound(login) => ReplayErrorView::UserNotFound(login@),
            ReplayError::ThreadNotFound(thread_id) => ReplayErrorView::ThreadNotFound(thread_id@),
            ReplayError::UserNotBanned(login) => ReplayErrorView::UserNotBanned(login@),
        }
    }
}

impl ReplayErrorView {
    /// The text shown for this error.
    pub open spec fn message(self) -> Seq<char> {
        match self {
            ReplayErrorView::UserNotFound(login) => "user not found: @"@ + login,
            ReplayErrorView::ThreadNotFound(thread_id) => "thread is not found: "@ + thread_id,
            ReplayErrorView::UserNotBanned(login) => "user is not banned: "@ + login,
        }
    }
}

impl ReplayError {
    /// The text shown for this error.
    pub fn message(&self) -> (text: String)
        ensures
            text@ == self@.message(),
    {
        match self {
            ReplayError::UserNotFound(login) => {
                let mut text = owned("user not found: @");
                text.append(login.as_str());
                text
            },
            ReplayError::ThreadNotFound(thread_id) => {
                let mut text = owned("thread is not found: ");
                text.append(thread_id.as_str());
                text
            },
            ReplayError::UserNotBanned(login) => {
                let mut text = owned("user is not banned: ");
                text.append(login.as_str());
                text
            },
        }
    }
}

} // verus!

//! The directory of all actors, its reconstruction from the log, and the
//! dispatcher that resolves a login to its actor.

use vstd::prelude::*;
use crate::command::Command;
use crate::data::User;
use crate::data::UserView;
use crate::error::HandlerError;
use crate::error::ReplayError;
use crate::error::ReplayErrorView;
use crate::event_log::Event;
use crate::event_log::EventView;
use crate::event_log::PersistenceError;
use crate::event_log::UserConnectedEvent;
use crate::event_log::event_views;
use crate::handler::Handler;
use crate::handler::HandlerBuilder;
use crate::handler::ThreadView;
use crate::model::HandlerView;
use crate::plan::InstructionView;
use crate::string_map::StringMap;
use crate::string_map::at;
use crate::string_map::has_key;
use crate::string_map::put;
use crate::string_map::without;
use crate::text::same_text;

verus! {

/// What the actors know of each other: who a login belongs to, and whether
/// that user has stopped the bot.
#[derive(Debug, PartialEq, Eq)]
pub struct UserHandle {
    pub user: User,
    pub is_stopped: bool,
}

/// The mathematical value of a [`UserHandle`].
pub struct UserHandleView {
    pub user: UserView,
    pub is_stopped: bool,
}

impl View for UserHandle {
    type V = UserHandleView;

    open spec fn view(&self) -> UserHandleView {
        UserHandleView { user: self.user@, is_stopped: self.is_stopped }
    }
}

impl Clone for UserHandle {
    fn clone(&self) -> (res: Self)
        ensures
            res == *self,
    {
        UserHandle { user: self.user.clone(), is_stopped: self.is_stopped }
    }
}

/// The directory of all actors: the handle of each, under its login, in the
/// order in which the logins came.
pub type Directory = StringMap<UserHandle>;

/// The mathematical value of a [`Directory`].
pub type DirectoryView = Seq<(Seq<char>, UserHandleView)>;

/// `directory` with the stopped flag of `login` set to `stopped`, if the
/// login is there.
pub open spec fn with_flag(directory: DirectoryView, login: Seq<char>, stopped: bool) -> DirectoryView {
    if has_key(directory, login) {
        put(
            directory,
            login,
            UserHandleView { user: at(directory, login).user, is_stopped: stopped },
        )
    } else {
        directory
    }
}

/// Sets the stopped flag of `login` in `directory`, if the login is there.
pub fn set_flag(directory: &mut Directory, login: &str, stopped: bool)
    ensures
        final(directory)@ == with_flag(old(directory)@, login@, stopped),
{
    let user = match directory.get(login) {
        Some(handle) => handle.user.clone(),
        None => {
            return;
        },
    };
    directory.insert(crate::text::owned(login), UserHandle { user, is_stopped: stopped });
}

/// The actors, each under its login.
pub type ActorsView = Seq<(Seq<char>, HandlerView)>;

/// `actors` with the actor of `login` in the state `state` and in the last
/// place.
pub open spec fn reseat(actors: ActorsView, login: Seq<char>, state: HandlerView) -> ActorsView {
    put(without(actors, login), login, state)
}

/// The population that a log describes: the directory, and the state of
/// every actor.
pub struct RegistryView {
    pub directory: DirectoryView,
    pub actors: ActorsView,
}

impl RegistryView {
    /// The population before any event.
    pub open spec fn empty() -> RegistryView {
        RegistryView { directory: Seq::empty(), actors: Seq::empty() }
    }

    /// The population with the actor of `login` changed as `change` says, or
    /// the error that `change` is.
    pub open spec fn change(
        self,
        login: Seq<char>,
        change: Result<HandlerView, ReplayErrorView>,
    ) -> Result<RegistryView, ReplayErrorView> {
        match change {
            Ok(state) => Ok(RegistryView { actors: reseat(self.actors, login, state), ..self }),
            Err(error) => Err(error),
        }
    }

    /// The population after `event`. An event of a login that no event has
    /// connected cannot be replayed, nor one that the actor's state does
    /// not allow.
    pub open spec fn apply_event(self, event: EventView) -> Result<RegistryView, ReplayErrorView> {
        match event {
            EventView::UserConnected { user, chat_id } => Ok(
                RegistryView {
                    directory: put(
                        self.directory,
                        user.login,
                        UserHandleView { user, is_stopped: false },
                    ),
                    actors: put(self.actors, user.login, HandlerView::fresh(user, chat_id)),
                },
            ),
            EventView::ThreadStarted {
                login,
                other_login,
                my_thread_id,
                other_thread_id,
                anon_mode,
            } => if !has_key(self.actors, login) {
                Err(ReplayErrorView::UserNotFound(login))
            } else {
                self.change(
                    login,
                    at(self.actors, login).replay_thread_started(
                        ThreadView {
                            id: my_thread_id,
                            anon_mode,
                            other_id: other_thread_id,
                            other_login,
                        },
                        self.directory,
                    ),
                )
            },
            EventView::ThreadMessageReceived { login, message_id, thread_id } => if !has_key(
                self.actors,
                login,
            ) {
                Err(ReplayErrorView::UserNotFound(login))
            } else {
                self.change(
                    login,
                    Ok(
                        at(self.actors, login).apply(
                            InstructionView::Index { message_id, thread_id },
                        ),
                    ),
                )
            },
            EventView::ThreadTerminated { login, other_login, my_thread_id, other_thread_id } => {
                if !has_key(self.actors, login) {
                    Err(ReplayErrorView::UserNotFound(login))
                } else {
                    match self.change(
                        login,
                        at(self.actors, login).replay_thread_terminated(my_thread_id),
                    ) {
                        Err(error) => Err(error),
                        Ok(halfway) => if !has_key(halfway.actors, other_login) {
                            Err(ReplayErrorView::UserNotFound(other_login))
                        } else {
                            halfway.change(
                                other_login,
                                at(halfway.actors, other_login).replay_thread_terminated(
                                    other_thread_id,
                                ),
                            )
                        },
                    }
                }
            },
            EventView::UserBanned { login, banned_login, banned_thread_id } => if !has_key(
                self.actors,
                login,
            ) {
                Err(ReplayErrorView::UserNotFound(login))
            } else {
                self.change(
                    login,
                    at(self.actors, login).replay_user_banned(banned_login, banned_thread_id),
                )
            },
            EventView::UserUnbanned { login, unbanned_login } => if !has_key(self.actors, login) {
                Err(ReplayErrorView::UserNotFound(login))
            } else {
                self.change(login, at(self.actors, login).replay_user_unbanned(unbanned_login))
            },
            EventView::UserStopped { login } => if !has_key(self.actors, login) {
                Err(ReplayErrorView::UserNotFound(login))
            } else {
                Ok(
                    RegistryView {
                        directory: with_flag(self.directory, login, true),
                        actors: reseat(
                            self.actors,
                            login,
                            at(self.actors, login).with_stopped(true),
                        ),
                    },
                )
            },
            EventView::UserStarted { login } => if !has_key(self.actors, login) {
                Err(ReplayErrorView::UserNotFound(login))
            } else {
                Ok(
                    RegistryView {
                        directory: with_flag(self.directory, login, false),
                        actors: reseat(
                            self.actors,
                            login,
                            at(self.actors, login).with_stopped(false),
                        ),
                    },
                )
            },
        }
    }

    /// The population after `events`, one after the other, or the first
    /// error met.
    pub open spec fn apply_events(self, events: Seq<EventView>) -> Result<RegistryView, ReplayErrorView>
        decreases events.len(),
    {
        if events.len() == 0 {
            Ok(self)
        } else {
            match self.apply_events(events.drop_last()) {
                Err(error) => Err(error),
                Ok(registry) => registry.apply_event(events.last()),
            }
        }
    }
}

/// The population that the log `events` describes: the left fold of its
/// events over the empty population.
pub open spec fn replay(events: Seq<EventView>) -> Result<RegistryView, ReplayErrorView> {
    RegistryView::empty().apply_events(events)
}

/// The population under reconstruction from the log.
pub struct CommandDispatcherBuilder {
    user_handles: Directory,
    builders: StringMap<HandlerBuilder>,
}

impl View for CommandDispatcherBuilder {
    type V = RegistryView;

    closed spec fn view(&self) -> RegistryView {
        RegistryView { directory: self.user_handles@, actors: self.builders@ }
    }
}

/// The value of an outcome of replay.
pub open spec fn outcome_view(result: Result<(), ReplayError>, registry: RegistryView) -> Result<
    RegistryView,
    ReplayErrorView,
> {
    match result {
        Ok(()) => Ok(registry),
        Err(error) => Err(error@),
    }
}

/// The value of a population rebuilt, or of the error met.
pub open spec fn rebuilt(result: Result<CommandDispatcherBuilder, ReplayError>) -> Result<
    RegistryView,
    ReplayErrorView,
> {
    match result {
        Ok(builder) => Ok(builder@),
        Err(error) => Err(error@),
    }
}

impl CommandDispatcherBuilder {
    /// The empty population.
    pub fn new() -> (builder: Self)
        ensures
            builder@ == RegistryView::empty(),
    {
        CommandDispatcherBuilder { user_handles: StringMap::new(), builders: StringMap::new() }
    }

    /// Rebuilds the population from the events of a log, in their order.
    /// The first event that cannot be replayed ends it.
    pub fn from_event_log(events: Vec<Event>) -> (result: Result<Self, ReplayError>)
        ensures
            rebuilt(result) == replay(event_views(events@)),
    {
        let mut builder = Self::new();
        let ghost all = event_views(events@);
        let n = events.len();
        // A vector gives up its items from the back: the log is turned round
        // first, so that its events come off in their order.
        let mut pending = events;
        let mut reversed: Vec<Event> = Vec::new();
        assert(all.take(n as int) =~= all);
        while pending.len() > 0
            invariant
                pending@.len() + reversed@.len() == n,
                n == all.len(),
                event_views(pending@) == all.take(pending@.len() as int),
                forall|i: int|
                    0 <= i < reversed@.len() ==> (#[trigger] reversed@[i])@ == all[n - 1 - i],
            decreases pending@.len(),
        {
            let ghost before = pending@;
            match pending.pop() {
                Some(event) => {
                    assert(event@ == event_views(before)[before.len() - 1]);
                    reversed.push(event);
                    assert(event_views(pending@) =~= all.take(pending@.len() as int));
                },
                None => {},
            }
        }
        let mut done: usize = 0;
        assert(all.take(0) =~= Seq::<EventView>::empty());
        while reversed.len() > 0
            invariant
                n == all.len(),
                all == event_views(events@),
                done + reversed@.len() == n,
                forall|i: int|
                    0 <= i < reversed@.len() ==> (#[trigger] reversed@[i])@ == all[n - 1 - i],
                Ok::<RegistryView, ReplayErrorView>(builder@) == replay(all.take(done as int)),
            decreases reversed@.len(),
        {
            match reversed.pop() {
                Some(event) => {
                    assert(event@ == all[done as int]);
                    assert(all.take(done + 1).drop_last() =~= all.take(done as int));
                    assert(all.take(done + 1).last() == all[done as int]);
                    let ghost state = builder@;
                    let result = builder.apply_event(event);
                    assert(replay(all.take(done + 1)) == state.apply_event(all[done as int]));
                    match result {
                        Ok(()) => {},
                        Err(error) => {
                            proof {
                                lemma_replay_fails_for_good(all, done + 1);
                            }
                            return Err(error);
                        },
                    }
                    done = done + 1;
                },
                None => {},
            }
        }
        assert(all.take(n as int) =~= all);
        Ok(builder)
    }

    /// Replays one event. An event that cannot be replayed leaves the
    /// population as it was.
    pub fn apply_event(&mut self, event: Event) -> (result: Result<(), ReplayError>)
        ensures
            outcome_view(result, final(self)@) == old(self)@.apply_event(event@),
            result is Err ==> final(self)@ == old(self)@,
    {
        match self.check_event(&event) {
            Ok(()) => self.change(event),
            Err(error) => Err(error),
        }
    }

    /// Whether the actor of `login` holds the thread `thread_id`; `None`
    /// where the login has no actor.
    fn holds_thread(&self, login: &str, thread_id: &str) -> (held: Option<bool>)
        ensures
            crate::string_map::distinct(self@.actors),
            match held {
                None => !has_key(self@.actors, login@),
                Some(yes) => {
                    &&& has_key(self@.actors, login@)
                    &&& at(self@.actors, login@).well_formed()
                    &&& yes == has_key(at(self@.actors, login@).threads, thread_id@)
                },
            },
    {
        proof {
            use_type_invariant(&self.builders);
            self.builders.lemma_distinct();
        }
        match self.builders.get(login) {
            None => None,
            Some(builder) => Some(builder.handler().thread(thread_id).is_some()),
        }
    }

    /// Whether `event` can be replayed, and if not, why not. Nothing is
    /// changed.
    fn check_event(&self, event: &Event) -> (result: Result<(), ReplayError>)
        ensures
            match result {
                Ok(()) => self@.apply_event(event@) is Ok,
                Err(error) => self@.apply_event(event@) == Err::<RegistryView, ReplayErrorView>(
                    error@,
                ),
            },
    {
        match event {
            Event::UserConnected(_) => Ok(()),
            Event::ThreadStarted(ev) => {
                if !self.builders.contains_key(ev.login.as_str()) {
                    Err(ReplayError::UserNotFound(ev.login.clone()))
                } else if !self.user_handles.contains_key(ev.other_login.as_str()) {
                    Err(ReplayError::UserNotFound(ev.other_login.clone()))
                } else {
                    Ok(())
                }
            },
            Event::ThreadMessageReceived(ev) => {
                if !self.builders.contains_key(ev.login.as_str()) {
                    Err(ReplayError::UserNotFound(ev.login.clone()))
                } else {
                    Ok(())
                }
            },
            Event::ThreadTerminated(ev) => {
                match self.holds_thread(ev.login.as_str(), ev.my_thread_id.as_str()) {
                    None => {
                        return Err(ReplayError::UserNotFound(ev.login.clone()));
                    },
                    Some(false) => {
                        return Err(ReplayError::ThreadNotFound(ev.my_thread_id.clone()));
                    },
                    Some(true) => {},
                }
                let ghost actors = self@.actors;
                let ghost first = at(actors, ev.login@);
                let ghost closed = first.apply(InstructionView::RemoveThread(ev.my_thread_id@));
                proof {
                    crate::string_map::lemma_without(actors, ev.login@);
                    crate::string_map::lemma_put(without(actors, ev.login@), ev.login@, closed);
                    crate::string_map::lemma_without(first.threads, ev.my_thread_id@);
                }
                if same_text(ev.other_login.as_str(), ev.login.as_str()) {
                    // The same actor holds both halves: the second is looked
                    // for where the first is gone.
                    let held = !same_text(ev.other_thread_id.as_str(), ev.my_thread_id.as_str())
                        && match self.holds_thread(
                        ev.login.as_str(),
                        ev.other_thread_id.as_str(),
                    ) {
                        Some(yes) => yes,
                        None => false,
                    };
                    if held {
                        Ok(())
                    } else {
                        Err(ReplayError::ThreadNotFound(ev.other_thread_id.clone()))
                    }
                } else {
                    match self.holds_thread(ev.other_login.as_str(), ev.other_thread_id.as_str()) {
                        None => Err(ReplayError::UserNotFound(ev.other_login.clone())),
                        Some(false) => Err(ReplayError::ThreadNotFound(ev.other_thread_id.clone())),
                        Some(true) => Ok(()),
                    }
                }
            },
            Event::UserBanned(ev) => {
                match self.holds_thread(ev.login.as_str(), ev.banned_thread_id.as_str()) {
                    None => Err(ReplayError::UserNotFound(ev.login.clone())),
                    Some(false) => Err(ReplayError::ThreadNotFound(ev.banned_thread_id.clone())),
                    Some(true) => Ok(()),
                }
            },
            Event::UserUnbanned(ev) => {
                match self.builders.get(ev.login.as_str()) {
                    None => Err(ReplayError::UserNotFound(ev.login.clone())),
                    Some(builder) => {
                        if builder.handler().banned_thread(ev.unbanned_login.as_str()).is_some() {
                            Ok(())
                        } else {
                            Err(ReplayError::UserNotBanned(ev.unbanned_login.clone()))
                        }
                    },
                }
            },
            Event::UserStopped(ev) => {
                if !self.builders.contains_key(ev.login.as_str()) {
                    Err(ReplayError::UserNotFound(ev.login.clone()))
                } else {
                    Ok(())
                }
            },
            Event::UserStarted(ev) => {
                if !self.builders.contains_key(ev.login.as_str()) {
                    Err(ReplayError::UserNotFound(ev.login.clone()))
                } else {
                    Ok(())
                }
            },
        }
    }

    /// Carries out an event. The actor that the event is about is taken out,
    /// changed and put back in the last place.
    fn change(&mut self, event: Event) -> (result: Result<(), ReplayError>)
        ensures
            outcome_view(result, final(self)@) == old(self)@.apply_event(event@),
    {
        match event {
            Event::UserConnected(ev) => {
                self.handle_user_connected(ev);
                Ok(())
            },
            Event::ThreadStarted(ev) => {
                let mut builder = match self.builders.remove(ev.login.as_str()) {
                    Some(builder) => builder,
                    None => {
                        return Err(ReplayError::UserNotFound(ev.login));
                    },
                };
                let login = ev.login.clone();
                match builder.handle_thread_started(ev, &self.user_handles) {
                    Ok(()) => {},
                    Err(error) => {
                        return Err(error);
                    },
                }
                self.builders.insert(login, builder);
                Ok(())
            },
            Event::ThreadMessageReceived(ev) => {
                let mut builder = match self.builders.remove(ev.login.as_str()) {
                    Some(builder) => builder,
                    None => {
                        return Err(ReplayError::UserNotFound(ev.login));
                    },
                };
                let login = ev.login.clone();
                builder.handle_thread_message_received(ev);
                self.builders.insert(login, builder);
                Ok(())
            },
            Event::ThreadTerminated(ev) => {
                let mut builder = match self.builders.remove(ev.login.as_str()) {
                    Some(builder) => builder,
                    None => {
                        return Err(ReplayError::UserNotFound(ev.login));
                    },
                };
                match builder.terminate_thread(ev.my_thread_id.as_str()) {
                    Ok(()) => {},
                    Err(error) => {
                        return Err(error);
                    },
                }
                self.builders.insert(ev.login, builder);
                let mut other = match self.builders.remove(ev.other_login.as_str()) {
                    Some(builder) => builder,
                    None => {
                        return Err(ReplayError::UserNotFound(ev.other_login));
                    },
                };
                match other.terminate_thread(ev.other_thread_id.as_str()) {
                    Ok(()) => {},
                    Err(error) => {
                        return Err(error);
                    },
                }
                self.builders.insert(ev.other_login, other);
                Ok(())
            },
            Event::UserBanned(ev) => {
                let mut builder = match self.builders.remove(ev.login.as_str()) {
                    Some(builder) => builder,
                    None => {
                        return Err(ReplayError::UserNotFound(ev.login));
                    },
                };
                let login = ev.login.clone();
                match builder.handle_user_banned(ev) {
                    Ok(()) => {},
                    Err(error) => {
                        return Err(error);
                    },
                }
                self.builders.insert(login, builder);
                Ok(())
            },
            Event::UserUnbanned(ev) => {
                let mut builder = match self.builders.remove(ev.login.as_str()) {
                    Some(builder) => builder,
                    None => {
                        return Err(ReplayError::UserNotFound(ev.login));
                    },
                };
                let login = ev.login.clone();
                match builder.handle_user_unbanned(ev) {
                    Ok(()) => {},
                    Err(error) => {
                        return Err(error);
                    },
                }
                self.builders.insert(login, builder);
                Ok(())
            },
            Event::UserStopped(ev) => {
                let mut builder = match self.builders.remove(ev.login.as_str()) {
                    Some(builder) => builder,
                    None => {
                        return Err(ReplayError::UserNotFound(ev.login));
                    },
                };
                builder.handle_user_stopped();
                set_flag(&mut self.user_handles, ev.login.as_str(), true);
                self.builders.insert(ev.login, builder);
                Ok(())
            },
            Event::UserStarted(ev) => {
                let mut builder = match self.builders.remove(ev.login.as_str()) {
                    Some(builder) => builder,
                    None => {
                        return Err(ReplayError::UserNotFound(ev.login));
                    },
                };
                builder.handle_user_started();
                set_flag(&mut self.user_handles, ev.login.as_str(), false);
                self.builders.insert(ev.login, builder);
                Ok(())
            },
        }
    }

    /// Replays the first contact of a login: its handle goes into the
    /// directory and its actor starts from nothing.
    fn handle_user_connected(&mut self, event: UserConnectedEvent)
        ensures
            Ok::<RegistryView, ReplayErrorView>(final(self)@) == old(self)@.apply_event(
                EventView::UserConnected { user: event.user@, chat_id: event.chat_id },
            ),
    {
        let login = event.user.login.clone();
        let user_handle = UserHandle { user: event.user, is_stopped: false };
        self.user_handles.insert(login.clone(), user_handle.clone());
        self.builders.insert(login, HandlerBuilder::new(user_handle, event.chat_id));
    }

    /// The directory as it stands.
    pub fn user_handles(&self) -> (directory: &Directory)
        ensures
            directory@ == self@.directory,
    {
        &self.user_handles
    }

    /// The actor of `login` as it stands.
    pub fn builder(&self, login: &str) -> (builder: Option<&HandlerBuilder>)
        ensures
            match builder {
                Some(b) => has_key(self@.actors, login@) && b@ == at(self@.actors, login@),
                None => !has_key(self@.actors, login@),
            },
    {
        self.builders.get(login)
    }

    /// Ends the reconstruction: the dispatcher, which owns the directory,
    /// and the actors themselves, in the order of the population, for the
    /// caller to set running.
    pub fn build(self) -> (made: (CommandDispatcher, Vec<Handler>))
        ensures
            made.0.directory() == self@.directory,
            made.1@.len() == self@.actors.len(),
            forall|i: int| 0 <= i < made.1@.len() ==> (#[trigger] made.1@[i])@ == self@.actors[i].1,
    {
        // Built from the back, and then turned round.
        let mut pending = self.builders.into_values();
        let mut reversed: Vec<Handler> = Vec::new();
        let ghost all = pending@;
        while pending.len() > 0
            invariant
                pending@.len() + reversed@.len() == all.len(),
                pending@ == all.take(pending@.len() as int),
                forall|i: int|
                    0 <= i < reversed@.len() ==> (#[trigger] reversed@[i])@ == all[all.len() - 1 - i]@,
            decreases pending@.len(),
        {
            match pending.pop() {
                Some(builder) => {
                    reversed.push(builder.build());
                    assert(pending@ =~= all.take(pending@.len() as int));
                },
                None => {},
            }
        }
        let mut handlers: Vec<Handler> = Vec::new();
        while reversed.len() > 0
            invariant
                reversed@.len() + handlers@.len() == all.len(),
                forall|i: int|
                    0 <= i < reversed@.len() ==> (#[trigger] reversed@[i])@ == all[all.len() - 1 - i]@,
                forall|i: int| 0 <= i < handlers@.len() ==> (#[trigger] handlers@[i])@ == all[i]@,
            decreases reversed@.len(),
        {
            match reversed.pop() {
                Some(handler) => {
                    handlers.push(handler);
                },
                None => {},
            }
        }
        (CommandDispatcher { user_handles: self.user_handles }, handlers)
    }
}

/// What the first contact of a login brings forth: the event to make
/// durable, and the actor to set running. The event goes to the log before
/// the actor runs, so that nothing that the actor writes comes before it.
pub struct Spawned {
    pub event: Event,
    pub handler: Handler,
}

/// A command on its way to an actor.
pub struct Dispatch {
    /// The login whose actor gets the command.
    pub login: String,
    pub command: Command,
    /// What came of the first contact, if this is the first.
    pub spawned: Option<Spawned>,
}

/// Resolves a login to its actor, making the actor at the first contact. It
/// owns the directory and alone changes it; the actors read it where it
/// stands, between two changes.
pub struct CommandDispatcher {
    user_handles: Directory,
}

impl CommandDispatcher {
    /// The directory: the handle of every login that has an actor, in the
    /// order in which the logins came.
    pub closed spec fn directory(self) -> DirectoryView {
        self.user_handles@
    }

    /// A dispatcher without actors.
    pub fn new() -> (dispatcher: Self)
        ensures
            dispatcher.directory() == Seq::<(Seq<char>, UserHandleView)>::empty(),
    {
        CommandDispatcher { user_handles: StringMap::new() }
    }

    /// Whether `login` has an actor.
    pub fn knows(&self, login: &str) -> (yes: bool)
        ensures
            yes == has_key(self.directory(), login@),
    {
        self.user_handles.contains_key(login)
    }

    /// The directory as it stands, for the actors to read. No login occurs
    /// twice in it.
    pub fn user_handles(&self) -> (directory: &Directory)
        ensures
            directory@ == self.directory(),
            crate::string_map::distinct(self.directory()),
    {
        proof {
            use_type_invariant(&self.user_handles);
            self.user_handles.lemma_distinct();
        }
        &self.user_handles
    }

    /// Resolves `user` to its actor. A login that has one brings forth
    /// nothing. At the first contact of a login its actor is made, and the
    /// event that records the contact, and its handle is entered in the
    /// directory; from then on the login is known, so that it gets no second
    /// actor.
    pub fn get_command_sender(&mut self, user: &User, chat_id: i64) -> (made: Option<Spawned>)
        ensures
            has_key(final(self).directory(), user.login@),
            match made {
                None => has_key(old(self).directory(), user.login@) && final(self).directory() == old(self).directory(),
                Some(spawned) => {
                    &&& !has_key(old(self).directory(), user.login@)
                    &&& final(self).directory() == old(self).directory().push(
                        (user.login@, UserHandleView { user: user@, is_stopped: false }),
                    )
                    &&& spawned.event@ == (EventView::UserConnected { user: user@, chat_id })
                    &&& spawned.handler@ == HandlerView::fresh(user@, chat_id)
                },
            },
    {
        if self.user_handles.contains_key(user.login.as_str()) {
            return None;
        }
        let event = Event::UserConnected(UserConnectedEvent { user: user.clone(), chat_id });
        let handler = self.spawn_handler(user, chat_id);
        assert(self.directory()[old(self).directory().len() as int].0 == user.login@);
        Some(Spawned { event, handler })
    }

    /// Makes the actor of `user` and enters its handle in the directory.
    fn spawn_handler(&mut self, user: &User, chat_id: i64) -> (handler: Handler)
        ensures
            final(self).directory() == put(
                old(self).directory(),
                user.login@,
                UserHandleView { user: user@, is_stopped: false },
            ),
            handler@ == HandlerView::fresh(user@, chat_id),
    {
        let user_handle = UserHandle { user: user.clone(), is_stopped: false };
        let handler = Handler::new(user_handle.clone(), chat_id);
        self.user_handles.insert(user.login.clone(), user_handle);
        handler
    }

    /// Shows in the directory whether the user of `login` has stopped the
    /// bot. A login that is not in the directory changes nothing.
    pub fn publish(&mut self, login: &str, stopped: bool)
        ensures
            final(self).directory() == with_flag(old(self).directory(), login@, stopped),
    {
        set_flag(&mut self.user_handles, login, stopped);
    }

    /// Takes a command of `user` on its way: the actor of the login is
    /// resolved, or made at the first contact.
    pub fn handle_command(&mut self, user: &User, chat_id: i64, command: Command) -> (dispatch: Dispatch)
        ensures
            dispatch.login@ == user.login@,
            dispatch.command == command,
            dispatch.spawned is Some <==> !has_key(old(self).directory(), user.login@),
            has_key(final(self).directory(), user.login@),
            dispatch.spawned is None ==> final(self).directory() == old(self).directory(),
            dispatch.spawned matches Some(spawned) ==> {
                &&& final(self).directory() == old(self).directory().push(
                    (user.login@, UserHandleView { user: user@, is_stopped: false }),
                )
                &&& spawned.event@ == (EventView::UserConnected { user: user@, chat_id })
                &&& spawned.handler@ == HandlerView::fresh(user@, chat_id)
            },
    {
        let spawned = self.get_command_sender(user, chat_id);
        Dispatch { login: user.login.clone(), command, spawned }
    }

    /// Whether the dispatcher goes on to wait for the actor's reply, once
    /// the wait for the record of a first contact has ended with `outcome`:
    /// a contact that is not durable is not admitted to, whatever the actor
    /// would have replied.
    pub fn after_connected(outcome: Result<(), PersistenceError>) -> (go_on: Result<(), HandlerError>)
        ensures
            match outcome {
                Ok(()) => go_on is Ok,
                Err(error) => go_on matches Err(failure) && failure@ == crate::error::HandlerErrorView::Persistence(
                    error.reason(),
                ),
            },
    {
        match outcome {
            Ok(()) => Ok(()),
            Err(error) => Err(HandlerError::Persistence(error)),
        }
    }
}

/// Once a prefix of a log cannot be replayed, no longer prefix can, and the
/// error is the same.
pub proof fn lemma_replay_fails_for_good(events: Seq<EventView>, n: int)
    requires
        0 <= n <= events.len(),
        replay(events.take(n)) is Err,
    ensures
        replay(events) == replay(events.take(n)),
    decreases events.len() - n,
{
    if n == events.len() {
        assert(events.take(n) =~= events);
    } else {
        assert(events.take(n + 1).drop_last() =~= events.take(n));
        lemma_replay_fails_for_good(events, n + 1);
    }
}

} // verus!

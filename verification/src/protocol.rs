//! What holds of every actor and every log, proved from the model.

use vstd::prelude::*;
use crate::command::CommandView;
use crate::command_dispatcher::CommandDispatcherBuilder;
use crate::command_dispatcher::DirectoryView;
use crate::command_dispatcher::rebuilt;
use crate::command_dispatcher::replay;
use crate::data::ThreadAnonimityMode;
use crate::data::UserView;
use crate::error::HandlerErrorView;
use crate::error::ReplayError;
use crate::event_log::Event;
use crate::event_log::event_views;
use crate::handler::ActionView;
use crate::handler::ThreadView;
use crate::model::DiceView;
use crate::model::HandlerView;
use crate::model::is_addressed;
use crate::model::minted_id;
use crate::model::tell;
use crate::plan::InstructionView;
use crate::plan::OnDeliveryView;
use crate::plan::OnFailure;
use crate::plan::StepView;
use crate::string_map::at;
use crate::string_map::has_key;
use crate::string_map::lemma_put;
use crate::string_map::lemma_without;

verus! {

/// A log decides the population: two replays of logs with the same events
/// end alike, in the same error or in the same directory and the same
/// state of every actor, threads, message index and ban list included.
pub proof fn lemma_replay_is_deterministic(
    first: Vec<Event>,
    second: Vec<Event>,
    first_result: Result<CommandDispatcherBuilder, ReplayError>,
    second_result: Result<CommandDispatcherBuilder, ReplayError>,
)
    requires
        event_views(first@) == event_views(second@),
        rebuilt(first_result) == replay(event_views(first@)),
        rebuilt(second_result) == replay(event_views(second@)),
    ensures
        rebuilt(first_result) == rebuilt(second_result),
{
}

/// What the two sides hold once a thread is paired: `a` keeps `mine` when
/// the owner of `b` has taken the mirror and the record of it is durable.
/// Each half names the other's id as its `other_id`, the modes mirror each
/// other, and the peer's half names the owner of `a`.
pub proof fn lemma_pairing_is_symmetric(
    a: HandlerView,
    b: HandlerView,
    mine: ThreadView,
    directory: DirectoryView,
    rest: Seq<InstructionView>,
)
    requires
        a.well_formed(),
        b.well_formed(),
        has_key(directory, mine.other_login),
        !b.stopped,
        !has_key(b.threads, mine.other_id),
        !(has_key(b.banlist, a.user.login) && mine.anon_mode == ThreadAnonimityMode::Me),
    ensures
        ({
            let offer = mine.mirror(a.user.login);
            let kept = a.apply(InstructionView::InsertThread(mine));
            let (b1, written) = b.on_action(ActionView::StartAnonymousThread(offer));
            let (b2, done) = b1.after_await(seq![InstructionView::InsertThread(offer)], Ok(()));
            &&& a.pair(mine, directory, rest) == (
                a,
                StepView::Ask {
                    login: mine.other_login,
                    action: ActionView::StartAnonymousThread(offer),
                    on_failure: OnFailure::Fail,
                    rest: seq![InstructionView::InsertThread(mine)] + rest,
                },
            )
            &&& a.after_ask(
                mine.other_login,
                OnFailure::Fail,
                seq![InstructionView::InsertThread(mine)] + rest,
                Ok(()),
            ) == kept.run(rest)
            &&& written == (StepView::Write {
                events: seq![b.started_event(offer)],
                rest: seq![InstructionView::Await, InstructionView::InsertThread(offer)],
            })
            &&& done == StepView::Done(Ok(()))
            &&& has_key(kept.threads, mine.id)
            &&& has_key(b2.threads, mine.other_id)
            &&& at(kept.threads, mine.id).other_id == at(b2.threads, mine.other_id).id
            &&& at(b2.threads, mine.other_id).other_id == at(kept.threads, mine.id).id
            &&& at(b2.threads, mine.other_id).anon_mode == at(
                kept.threads,
                mine.id,
            ).anon_mode.spec_mirror()
            &&& at(b2.threads, mine.other_id).other_login == a.user.login
        }),
{
    let offer = mine.mirror(a.user.login);
    let first = InstructionView::Ask {
        login: mine.other_login,
        action: ActionView::StartAnonymousThread(offer),
        on_failure: OnFailure::Fail,
    };
    let keep = seq![InstructionView::InsertThread(mine)] + rest;
    let plan = a.pairing_plan(mine, rest);
    assert(plan[0] == first);
    assert(plan.skip(1) =~= keep);
    assert(keep[0] == InstructionView::InsertThread(mine));
    assert(keep.skip(1) =~= rest);
    let offered = b.offered_plan(offer);
    assert(offered.skip(1) =~= seq![InstructionView::Await, InstructionView::InsertThread(offer)]);
    let tail = seq![InstructionView::InsertThread(offer)];
    assert(tail.skip(1) =~= Seq::<InstructionView>::empty());
    reveal_with_fuel(HandlerView::run, 3);
    lemma_put(a.threads, mine.id, mine);
    lemma_put(b.threads, offer.id, offer);
}

/// `/send` opens a thread in which the sender shows and the peer stays
/// hidden: the halves have the modes `Me` and `Them`.
pub proof fn lemma_send_pairs_me_with_them(
    state: HandlerView,
    thread_id: Seq<char>,
    message_id: i32,
    text: Seq<char>,
    directory: DirectoryView,
    fresh_id: Seq<char>,
)
    requires
        !has_key(state.threads, thread_id),
        is_addressed(thread_id),
        thread_id.skip(1) != state.user.login,
    ensures
        ({
            let mine = ThreadView {
                id: thread_id,
                anon_mode: ThreadAnonimityMode::Me,
                other_id: fresh_id,
                other_login: thread_id.skip(1),
            };
            &&& state.on_send(thread_id, message_id, text, directory, fresh_id) == state.pair(
                mine,
                directory,
                state.opening_plan(mine, message_id, text),
            )
            &&& mine.mirror(state.user.login).anon_mode == ThreadAnonimityMode::Them
        }),
{
}

/// `/random` opens a thread in which both sides are hidden: both halves
/// have the mode `Both`.
pub proof fn lemma_random_pairs_both_with_both(
    state: HandlerView,
    message_id: i32,
    text: Seq<char>,
    directory: DirectoryView,
    dice: DiceView,
)
    requires
        crate::model::other_logins(directory, state.user.login).len() > 0,
        dice.peer != state.user.login,
    ensures
        ({
            let mine = ThreadView {
                id: dice.first_id,
                anon_mode: ThreadAnonimityMode::Both,
                other_id: dice.second_id,
                other_login: dice.peer,
            };
            &&& state.on_random(message_id, text, directory, dice) == state.pair(
                mine,
                directory,
                state.random_plan(mine, message_id, text),
            )
            &&& mine.mirror(state.user.login).anon_mode == ThreadAnonimityMode::Both
        }),
{
}

/// `/send` to a login, carried through on both sides. The sender offers the
/// mirror of its half to the peer. Once the peer has taken the offer and
/// made it durable, the sender keeps its half under the id that was typed,
/// in the mode `Me`, and the peer holds the half under the fresh id, in the
/// mode `Them`; each names the other's id, and the peer's half names the
/// sender. The sender then hands the thread and the message to the log.
pub proof fn lemma_send_pairs_the_two_sides(
    a: HandlerView,
    b: HandlerView,
    thread_id: Seq<char>,
    message_id: i32,
    text: Seq<char>,
    directory: DirectoryView,
    fresh_id: Seq<char>,
)
    requires
        a.well_formed(),
        b.well_formed(),
        !has_key(a.threads, thread_id),
        is_addressed(thread_id),
        thread_id.skip(1) != a.user.login,
        has_key(directory, thread_id.skip(1)),
        !b.stopped,
        !has_key(b.threads, fresh_id),
        !has_key(b.banlist, a.user.login),
    ensures
        ({
            let peer = thread_id.skip(1);
            let mine = ThreadView {
                id: thread_id,
                anon_mode: ThreadAnonimityMode::Me,
                other_id: fresh_id,
                other_login: peer,
            };
            let offer = ThreadView {
                id: fresh_id,
                anon_mode: ThreadAnonimityMode::Them,
                other_id: thread_id,
                other_login: a.user.login,
            };
            let rest = seq![InstructionView::InsertThread(mine)] + a.opening_plan(
                mine,
                message_id,
                text,
            );
            let (a1, written) = a.after_ask(peer, OnFailure::Fail, rest, Ok(()));
            let (b1, _) = b.on_action(ActionView::StartAnonymousThread(offer));
            let (b2, done) = b1.after_await(seq![InstructionView::InsertThread(offer)], Ok(()));
            &&& a.on_send(thread_id, message_id, text, directory, fresh_id) == (
                a,
                StepView::Ask {
                    login: peer,
                    action: ActionView::StartAnonymousThread(offer),
                    on_failure: OnFailure::Fail,
                    rest,
                },
            )
            &&& written == (StepView::Write {
                events: seq![a.started_event(mine), a.message_event(message_id, thread_id)],
                rest: seq![InstructionView::Await, crate::model::send_text(mine, text)],
            })
            &&& has_key(a1.threads, thread_id)
            &&& at(a1.threads, thread_id) == mine
            &&& a1.message_index == a.message_index.insert(message_id, thread_id)
            &&& done == StepView::Done(Ok(()))
            &&& has_key(b2.threads, fresh_id)
            &&& at(b2.threads, fresh_id) == offer
        }),
{
    let peer = thread_id.skip(1);
    let mine = ThreadView {
        id: thread_id,
        anon_mode: ThreadAnonimityMode::Me,
        other_id: fresh_id,
        other_login: peer,
    };
    let opening = a.opening_plan(mine, message_id, text);
    lemma_pairing_is_symmetric(a, b, mine, directory, opening);
    let kept = a.apply(InstructionView::InsertThread(mine));
    assert(opening.skip(1).skip(1) =~= seq![
        InstructionView::Await,
        crate::model::send_text(mine, text),
    ]);
    reveal_with_fuel(HandlerView::run, 3);
    lemma_put(a.threads, thread_id, mine);
    assert(kept.run(opening).0.threads == kept.threads);
}

/// `/random`, carried through on both sides. The sender offers the mirror
/// of its half to the peer that the dice name. Once the peer has taken the
/// offer and made it durable, both hold their halves in the mode `Both`,
/// each under its own id and naming the other's, and the peer's half names
/// the sender.
pub proof fn lemma_random_pairs_the_two_sides(
    a: HandlerView,
    b: HandlerView,
    message_id: i32,
    text: Seq<char>,
    directory: DirectoryView,
    dice: DiceView,
)
    requires
        a.well_formed(),
        b.well_formed(),
        crate::model::other_logins(directory, a.user.login).len() > 0,
        dice.peer != a.user.login,
        has_key(directory, dice.peer),
        !b.stopped,
        !has_key(b.threads, dice.second_id),
    ensures
        ({
            let mine = ThreadView {
                id: dice.first_id,
                anon_mode: ThreadAnonimityMode::Both,
                other_id: dice.second_id,
                other_login: dice.peer,
            };
            let offer = ThreadView {
                id: dice.second_id,
                anon_mode: ThreadAnonimityMode::Both,
                other_id: dice.first_id,
                other_login: a.user.login,
            };
            let rest = seq![InstructionView::InsertThread(mine)] + a.random_plan(
                mine,
                message_id,
                text,
            );
            let (a1, written) = a.after_ask(dice.peer, OnFailure::Fail, rest, Ok(()));
            let (b1, _) = b.on_action(ActionView::StartAnonymousThread(offer));
            let (b2, done) = b1.after_await(seq![InstructionView::InsertThread(offer)], Ok(()));
            &&& a.on_random(message_id, text, directory, dice) == (
                a,
                StepView::Ask {
                    login: dice.peer,
                    action: ActionView::StartAnonymousThread(offer),
                    on_failure: OnFailure::Fail,
                    rest,
                },
            )
            &&& written matches StepView::Write { events, .. } && events == seq![
                a.started_event(mine),
                a.message_event(message_id, dice.first_id),
            ]
            &&& has_key(a1.threads, dice.first_id)
            &&& at(a1.threads, dice.first_id) == mine
            &&& a1.message_index == a.message_index.insert(message_id, dice.first_id)
            &&& done == StepView::Done(Ok(()))
            &&& has_key(b2.threads, dice.second_id)
            &&& at(b2.threads, dice.second_id) == offer
        }),
{
    let mine = ThreadView {
        id: dice.first_id,
        anon_mode: ThreadAnonimityMode::Both,
        other_id: dice.second_id,
        other_login: dice.peer,
    };
    let plan = a.random_plan(mine, message_id, text);
    lemma_pairing_is_symmetric(a, b, mine, directory, plan);
    let kept = a.apply(InstructionView::InsertThread(mine));
    reveal_with_fuel(HandlerView::run, 3);
    lemma_put(a.threads, dice.first_id, mine);
    assert(kept.run(plan).0.threads == kept.threads);
}

/// The notice of `/random` is a message of the new thread like any other:
/// under the id that the transport gave it, it is indexed at once, and the
/// event that is handed to the log carries that id and the thread. The two
/// waits of the plan follow.
pub proof fn lemma_notice_is_logged_under_its_id(
    state: HandlerView,
    thread_id: Seq<char>,
    rest: Seq<InstructionView>,
    delivered: i32,
)
    ensures
        state.after_send(OnDeliveryView::Note(thread_id), rest, Ok(delivered)) == (
            state.apply(InstructionView::Index { message_id: delivered, thread_id }),
            StepView::Write {
                events: seq![
                    crate::event_log::EventView::ThreadMessageReceived {
                        login: state.user.login,
                        message_id: delivered,
                        thread_id,
                    },
                ],
                rest,
            },
        ),
{
    let plan = seq![
        InstructionView::Index { message_id: delivered, thread_id },
        InstructionView::Write { events: seq![state.message_event(delivered, thread_id)] },
    ] + rest;
    assert(plan.skip(1).skip(1) =~= rest);
    reveal_with_fuel(HandlerView::run, 3);
}

/// While its owner has stopped the bot an actor takes nothing but `/start`
/// and what is broadcast: every other command fails with `Stopped`, every
/// other action with `PeerStopped`, and the state stays as it is.
pub proof fn lemma_stopped_actor_takes_only_start(
    state: HandlerView,
    command: CommandView,
    action: ActionView,
    directory: DirectoryView,
    dice: DiceView,
)
    requires
        state.stopped,
        command != CommandView::Start,
        !(action is Broadcast),
    ensures
        state.on_command(command, directory, dice) == (
            state,
            StepView::Done(Err(HandlerErrorView::Stopped)),
        ),
        state.on_action(action) == (state, StepView::Done(Err(HandlerErrorView::PeerStopped))),
{
}

/// What is broadcast reaches every owner: the actor hands out the one step
/// that shows the text, whatever its state, stopped or not, and its state
/// stays as it is.
pub proof fn lemma_broadcast_is_always_shown(state: HandlerView, text: Seq<char>)
    ensures
        state.on_action(ActionView::Broadcast(text)) == (
            state,
            StepView::Send {
                text,
                on_delivery: OnDeliveryView::Nothing,
                rest: Seq::<InstructionView>::empty(),
            },
        ),
{
    assert(seq![tell(text)].skip(1) =~= Seq::<InstructionView>::empty());
}

/// No one opens a thread to oneself: `/send` to the sender's own login
/// fails with `SelfSend`, leaves the state alone and hands nothing to the
/// log. The one way round is a thread that the sender already holds under
/// that id, which is then written to.
pub proof fn lemma_send_to_self_is_rejected(
    state: HandlerView,
    message_id: i32,
    text: Seq<char>,
    directory: DirectoryView,
    dice: DiceView,
)
    requires
        !state.stopped,
        !has_key(state.threads, "@"@ + state.user.login),
    ensures
        state.on_command(
            CommandView::Send { thread_id: "@"@ + state.user.login, message_id, text },
            directory,
            dice,
        ) == (state, StepView::Done(Err(HandlerErrorView::SelfSend))),
{
    reveal_strlit("@");
    let thread_id = "@"@ + state.user.login;
    assert(thread_id[0] == '@');
    assert(thread_id.skip(1) =~= state.user.login);
}

/// The pairing protocol never makes an actor wait for itself: where a
/// command leads to the offer of a thread, the offer goes to another login.
pub proof fn lemma_no_offer_to_self(
    state: HandlerView,
    command: CommandView,
    directory: DirectoryView,
    dice: DiceView,
)
    ensures
        ({
            let (after, step) = state.on_command(command, directory, dice);
            step matches StepView::Ask {
                login,
                action: ActionView::StartAnonymousThread(_),
                ..
            } ==> login != state.user.login
        }),
{
    reveal_with_fuel(HandlerView::run, 2);
    match command {
        CommandView::Send { thread_id, message_id, text } => {
            if !state.stopped && has_key(state.threads, thread_id) {
                lemma_send_plan_writes_first(
                    state,
                    at(state.threads, thread_id),
                    thread_id,
                    message_id,
                    text,
                );
            }
        },
        CommandView::Broadcast { text } => {
            if !state.stopped && state.user.login == crate::util::OPERATOR_LOGIN@ {
                let plan = state.broadcast_plan(text, directory);
                assert(plan[0] == tell(
                    "Starting broadcast to "@ + crate::text::decimal(directory.len())
                        + " users..."@,
                ));
            }
        },
        _ => {},
    }
}

/// `/send` to a thread that the sender holds hands the message to the log
/// before anything is asked of the peer.
pub proof fn lemma_send_plan_writes_first(
    state: HandlerView,
    thread: ThreadView,
    thread_id: Seq<char>,
    message_id: i32,
    text: Seq<char>,
)
    ensures
        state.run(state.send_plan(thread, thread_id, message_id, text)) == (
            state.apply(InstructionView::Index { message_id, thread_id }),
            StepView::Write {
                events: seq![state.message_event(message_id, thread_id)],
                rest: seq![InstructionView::Await, crate::model::send_text(thread, text)],
            },
        ),
{
    let plan = state.send_plan(thread, thread_id, message_id, text);
    assert(plan.skip(1).skip(1) =~= seq![
        InstructionView::Await,
        crate::model::send_text(thread, text),
    ]);
    reveal_with_fuel(HandlerView::run, 3);
}

/// An actor that has seen nothing answers `/threads` with
/// `There are no active threads.` and `/banlist` with
/// `You have not banned anybody.`, and stays as it is.
pub proof fn lemma_fresh_actor_lists_nothing(
    user: UserView,
    chat_id: i64,
    directory: DirectoryView,
    dice: DiceView,
)
    ensures
        ({
            let fresh = HandlerView::fresh(user, chat_id);
            &&& fresh.on_command(CommandView::Threads, directory, dice) == (
                fresh,
                StepView::Send {
                    text: "There are no active threads."@,
                    on_delivery: OnDeliveryView::Nothing,
                    rest: Seq::<InstructionView>::empty(),
                },
            )
            &&& fresh.on_command(CommandView::Banlist, directory, dice) == (
                fresh,
                StepView::Send {
                    text: "You have not banned anybody."@,
                    on_delivery: OnDeliveryView::Nothing,
                    rest: Seq::<InstructionView>::empty(),
                },
            )
        }),
{
    let fresh = HandlerView::fresh(user, chat_id);
    assert(fresh.threads.filter_map(minted_id()) =~= Seq::<Seq<char>>::empty());
    let threads = seq![tell("There are no active threads."@)];
    assert(threads.skip(1) =~= Seq::<InstructionView>::empty());
    let banlist = seq![tell("You have not banned anybody."@)];
    assert(banlist.skip(1) =~= Seq::<InstructionView>::empty());
}

/// `/ban` carried through: once the peer has dropped its half and the ban is
/// durable, the thread is gone and the peer's login stands in the ban list.
pub proof fn lemma_ban_stands(state: HandlerView, thread_id: Seq<char>)
    requires
        state.well_formed(),
        has_key(state.threads, thread_id),
        at(state.threads, thread_id).anon_mode == ThreadAnonimityMode::Them,
    ensures
        ({
            let thread = at(state.threads, thread_id);
            let (asking, ask) = state.on_ban(thread_id);
            let after_peer = state.ban_plan(thread, thread_id).skip(1);
            let (waiting, write) = asking.after_ask(
                thread.other_login,
                OnFailure::FailTermination,
                after_peer,
                Ok(()),
            );
            let after_write = after_peer.skip(2);
            let (waited, wait) = waiting.run(after_write);
            let (banned, done) = waited.after_await(after_write.skip(1), Ok(()));
            &&& ask == crate::model::terminate(thread).step_view(after_peer)
            &&& write matches StepView::Write { rest, .. } && rest == after_write
            &&& wait == (StepView::Await { rest: after_write.skip(1) })
            &&& done == StepView::Done(Ok(()))
            &&& !has_key(banned.threads, thread_id)
            &&& has_key(banned.banlist, thread.other_login)
            &&& at(banned.banlist, thread.other_login) == thread_id
        }),
{
    let thread = at(state.threads, thread_id);
    let plan = state.ban_plan(thread, thread_id);
    let after_peer = plan.skip(1);
    let after_write = after_peer.skip(2);
    assert(after_peer[0] == InstructionView::RemoveThread(thread_id));
    assert(after_peer.skip(1).skip(1) =~= after_write);
    assert(after_write[0] == InstructionView::Await);
    assert(after_write.skip(1)[0] == (InstructionView::Ban {
        login: thread.other_login,
        thread_id,
    }));
    assert(after_write.skip(1).skip(1) =~= Seq::<InstructionView>::empty());
    reveal_with_fuel(HandlerView::run, 3);
    lemma_without(state.threads, thread_id);
    lemma_put(state.banlist, thread.other_login, thread_id);
}

/// A ban is enforced: an actor that has banned a login takes from it no
/// half that would hide that login again, and takes every other half as if
/// there were no ban.
pub proof fn lemma_ban_is_enforced(state: HandlerView, offer: ThreadView)
    requires
        !state.stopped,
        !has_key(state.threads, offer.id),
        has_key(state.banlist, offer.other_login),
    ensures
        offer.anon_mode == ThreadAnonimityMode::Them ==> state.on_action(
            ActionView::StartAnonymousThread(offer),
        ) == (state, StepView::Done(Err(HandlerErrorView::Banned))),
        offer.anon_mode != ThreadAnonimityMode::Them ==> state.on_action(
            ActionView::StartAnonymousThread(offer),
        ) == state.run(state.offered_plan(offer)),
{
}

/// A reply finds its thread whatever came later: if the message `known`
/// belongs to the thread `thread_id`, then after any other thread has been
/// taken up a reply to `known` still goes to the peer of `thread_id`.
pub proof fn lemma_reply_finds_its_thread(
    state: HandlerView,
    known: i32,
    thread_id: Seq<char>,
    later: ThreadView,
    message_id: i32,
    text: Seq<char>,
)
    requires
        state.well_formed(),
        state.message_index.contains_key(known),
        state.message_index[known] == thread_id,
        has_key(state.threads, thread_id),
        later.id != thread_id,
    ensures
        ({
            let thread = at(state.threads, thread_id);
            let grown = state.apply(InstructionView::InsertThread(later));
            grown.on_reply(known, message_id, text) == (
                grown,
                StepView::Ask {
                    login: thread.other_login,
                    action: ActionView::SendText(thread.other_id, text),
                    on_failure: OnFailure::Fail,
                    rest: grown.reply_plan(thread, thread_id, message_id, text).skip(1),
                },
            )
        }),
{
    lemma_put(state.threads, later.id, later);
}

/// `/close` and `/ban` part the threads between them: a thread in which
/// only the owner is hidden cannot be closed, and no other can be banned.
/// Neither failure changes the state.
pub proof fn lemma_close_and_ban_are_gated(state: HandlerView, thread_id: Seq<char>)
    requires
        has_key(state.threads, thread_id),
    ensures
        at(state.threads, thread_id).anon_mode == ThreadAnonimityMode::Them ==> state.on_close(
            thread_id,
        ) == (state, StepView::Done(Err(HandlerErrorView::CloseSemiAnonymous))),
        at(state.threads, thread_id).anon_mode != ThreadAnonimityMode::Them ==> state.on_ban(
            thread_id,
        ) == (state, StepView::Done(Err(HandlerErrorView::BanNotAnonymous))),
{
}

} // verus!

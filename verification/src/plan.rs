//! Requests in flight: the instructions of a plan, and the steps by which an
//! actor hands work to the outside world.

use std::collections::VecDeque;
use vstd::prelude::*;
use crate::data::ThreadId;
use crate::error::HandlerError;
use crate::error::HandlerErrorView;
use crate::event_log::Event;
use crate::event_log::EventView;
use crate::event_log::event_views;
use crate::handler::Action;
use crate::handler::ActionView;
use crate::handler::Thread;
use crate::handler::ThreadView;

verus! {

/// What is done with a peer's refusal.
#[derive(Debug, Clone, Copy, PartialEq, Eq, Structural)]
pub enum OnFailure {
    /// The request in flight fails with the peer's error.
    Fail,
    /// The request in flight fails: the peer would not drop its half.
    FailTermination,
    /// The owner is told, and the request goes on.
    Report,
}

/// What is done with the id of a message that reached the owner.
#[derive(Debug, Clone, PartialEq, Eq)]
pub enum OnDelivery {
    /// Nothing.
    Nothing,
    /// It is indexed under the thread at once, and the event that records it
    /// is handed to the log; the wait for that event is the plan's.
    Note(ThreadId),
    /// It is recorded in the log under the thread, and indexed once the
    /// record is durable.
    Record(ThreadId),
}

/// The mathematical value of an [`OnDelivery`].
pub enum OnDeliveryView {
    Nothing,
    Note(Seq<char>),
    Record(Seq<char>),
}

impl View for OnDelivery {
    type V = OnDeliveryView;

    open spec fn view(&self) -> OnDeliveryView {
        match *self {
            OnDelivery::Nothing => OnDeliveryView::Nothing,
            OnDelivery::Note(thread_id) => OnDeliveryView::Note(thread_id@),
            OnDelivery::Record(thread_id) => OnDeliveryView::Record(thread_id@),
        }
    }
}

/// One step of a request in flight. The first five kinds are work for the
/// outside world; the rest change the actor's own state.
#[derive(Debug, Clone, PartialEq, Eq)]
pub enum Instruction {
    /// Send `action` to the actor of `login` and wait for its reply.
    Ask { login: String, action: Action, on_failure: OnFailure },
    /// Hand `events` to the event service as one batch.
    Write { events: Vec<Event> },
    /// Wait until the oldest batch that was handed over and not yet waited
    /// for is durable.
    Await,
    /// Deliver `text` to the owner.
    Send { text: String, on_delivery: OnDelivery },
    /// Show in the shared directory whether the owner has stopped the bot.
    Publish { stopped: bool },
    InsertThread(Thread),
    RemoveThread(ThreadId),
    Index { message_id: i32, thread_id: ThreadId },
    Ban { login: String, thread_id: ThreadId },
    Unban { login: String },
}

/// The mathematical value of an [`Instruction`].
pub enum InstructionView {
    Ask { login: Seq<char>, action: ActionView, on_failure: OnFailure },
    Write { events: Seq<EventView> },
    Await,
    Send { text: Seq<char>, on_delivery: OnDeliveryView },
    Publish { stopped: bool },
    InsertThread(ThreadView),
    RemoveThread(Seq<char>),
    Index { message_id: i32, thread_id: Seq<char> },
    Ban { login: Seq<char>, thread_id: Seq<char> },
    Unban { login: Seq<char> },
}

impl View for Instruction {
    type V = InstructionView;

    open spec fn view(&self) -> InstructionView {
        match *self {
            Instruction::Ask { login, action, on_failure } => InstructionView::Ask {
                login: login@,
                action: action@,
                on_failure,
            },
            Instruction::Write { events } => InstructionView::Write { events: event_views(events@) },
            Instruction::Await => InstructionView::Await,
            Instruction::Send { text, on_delivery } => InstructionView::Send {
                text: text@,
                on_delivery: on_delivery@,
            },
            Instruction::Publish { stopped } => InstructionView::Publish { stopped },
            Instruction::InsertThread(thread) => InstructionView::InsertThread(thread@),
            Instruction::RemoveThread(thread_id) => InstructionView::RemoveThread(thread_id@),
            Instruction::Index { message_id, thread_id } => InstructionView::Index {
                message_id,
                thread_id: thread_id@,
            },
            Instruction::Ban { login, thread_id } => InstructionView::Ban {
                login: login@,
                thread_id: thread_id@,
            },
            Instruction::Unban { login } => InstructionView::Unban { login: login@ },
        }
    }
}

impl InstructionView {
    /// The step that hands this instruction out, with `rest` to follow; for
    /// an instruction that changes the actor's own state, the end of the
    /// request.
    pub open spec fn step_view(self, rest: Seq<InstructionView>) -> StepView {
        match self {
            InstructionView::Ask { login, action, on_failure } => StepView::Ask {
                login,
                action,
                on_failure,
                rest,
            },
            InstructionView::Write { events } => StepView::Write { events, rest },
            InstructionView::Await => StepView::Await { rest },
            InstructionView::Send { text, on_delivery } => StepView::Send { text, on_delivery, rest },
            InstructionView::Publish { stopped } => StepView::Publish { stopped, rest },
            _ => StepView::Done(Ok(())),
        }
    }
}

/// What is left to do of a request in flight, next step first.
#[derive(Debug, Clone, PartialEq, Eq)]
pub struct Plan {
    steps: VecDeque<Instruction>,
}

impl View for Plan {
    type V = Seq<InstructionView>;

    closed spec fn view(&self) -> Seq<InstructionView> {
        self.steps@.map_values(|i: Instruction| i@)
    }
}

/// Where a request stands: done, or waiting for the outside world to do one
/// thing, after which `rest` goes on.
#[derive(Debug, PartialEq, Eq)]
pub enum Step {
    /// The request is over; this is the reply to whoever made it.
    Done(Result<(), HandlerError>),
    /// Send `action` to the actor of `login`, wait for its reply, and hand
    /// the reply to `after_ask`.
    Ask { login: String, action: Action, on_failure: OnFailure, rest: Plan },
    /// Hand `events` to the event service as one batch, and go on with
    /// `advance`.
    Write { events: Vec<Event>, rest: Plan },
    /// Wait until the oldest batch not yet waited for is durable, and hand
    /// the outcome to `after_await`.
    Await { rest: Plan },
    /// Deliver `text` to the owner, and hand the outcome to `after_send`.
    Send { text: String, on_delivery: OnDelivery, rest: Plan },
    /// Show `stopped` for the owner in the shared directory, and go on with
    /// `advance`.
    Publish { stopped: bool, rest: Plan },
}

/// The mathematical value of a [`Step`].
pub enum StepView {
    Done(Result<(), HandlerErrorView>),
    Ask { login: Seq<char>, action: ActionView, on_failure: OnFailure, rest: Seq<InstructionView> },
    Write { events: Seq<EventView>, rest: Seq<InstructionView> },
    Await { rest: Seq<InstructionView> },
    Send { text: Seq<char>, on_delivery: OnDeliveryView, rest: Seq<InstructionView> },
    Publish { stopped: bool, rest: Seq<InstructionView> },
}

/// The value of a reply.
pub open spec fn reply_view(reply: Result<(), HandlerError>) -> Result<(), HandlerErrorView> {
    match reply {
        Ok(()) => Ok(()),
        Err(error) => Err(error@),
    }
}

impl View for Step {
    type V = StepView;

    open spec fn view(&self) -> StepView {
        match *self {
            Step::Done(reply) => StepView::Done(reply_view(reply)),
            Step::Ask { login, action, on_failure, rest } => StepView::Ask {
                login: login@,
                action: action@,
                on_failure,
                rest: rest@,
            },
            Step::Write { events, rest } => StepView::Write {
                events: event_views(events@),
                rest: rest@,
            },
            Step::Await { rest } => StepView::Await { rest: rest@ },
            Step::Send { text, on_delivery, rest } => StepView::Send {
                text: text@,
                on_delivery: on_delivery@,
                rest: rest@,
            },
            Step::Publish { stopped, rest } => StepView::Publish { stopped, rest: rest@ },
        }
    }
}

impl Plan {
    /// The plan with nothing left to do.
    pub fn new() -> (plan: Plan)
        ensures
            plan@ == Seq::<InstructionView>::empty(),
    {
        let plan = Plan { steps: VecDeque::new() };
        assert(plan@ =~= Seq::<InstructionView>::empty());
        plan
    }

    /// How many steps are left.
    pub fn len(&self) -> (n: usize)
        ensures
            n == self@.len(),
    {
        self.steps.len()
    }

    /// This plan, and `instruction` after it.
    pub fn followed_by(self, instruction: Instruction) -> (plan: Plan)
        ensures
            plan@ == self@.push(instruction@),
    {
        let mut steps = self.steps;
        steps.push_back(instruction);
        let plan = Plan { steps };
        assert(plan@ =~= self@.push(instruction@));
        plan
    }

    /// `instruction`, and this plan after it.
    pub fn after(self, instruction: Instruction) -> (plan: Plan)
        ensures
            plan@ == seq![instruction@] + self@,
    {
        let mut steps = self.steps;
        steps.push_front(instruction);
        let plan = Plan { steps };
        assert(plan@ =~= seq![instruction@] + self@);
        plan
    }

    /// Takes the next step off the plan.
    pub fn next(&mut self) -> (instruction: Option<Instruction>)
        ensures
            match instruction {
                Some(i) => old(self)@.len() > 0 && i@ == old(self)@[0] && final(self)@ == old(self)@.skip(1),
                None => old(self)@.len() == 0 && final(self)@ == old(self)@,
            },
    {
        let instruction = self.steps.pop_front();
        proof {
            if instruction is Some {
                assert(self@ =~= old(self)@.skip(1));
            }
        }
        instruction
    }
}

} // verus!

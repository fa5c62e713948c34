//! The deadline supervisor: one emulator run raced against a timeout.
//!
//! The supervisor never touches the child process itself. It is a state
//! machine that names the next request to make of the process ([`Action`])
//! and takes the answer to that request ([`Event`]). The caller owns the
//! process handle and makes the requests, one at a time, on one thread.
//!
//! | pending request | answer | what follows |
//! |---|---|---|
//! | wait | `Exited(code)` | done: completed with `code` |
//! | wait | `DeadlinePassed` | kill |
//! | wait | `WaitFailed` | failed: wait |
//! | kill | `Killed` | reap |
//! | kill | `KillFailed` | failed: kill |
//! | reap | `Reaped`, `ReapFailed` | done: timed out |
//!
//! A timeout of zero never waits: the supervision starts in `Killing`, so a
//! zero timeout always ends as timed out and cannot hang. For a positive
//! timeout the bounded wait decides the race, and the supervisor takes its
//! word: an exit it reports counts as completed even when it comes at the
//! very end of the window.

use vstd::prelude::*;

verus! {

/// How a supervised run ended.
#[derive(Clone, Copy, Debug, PartialEq, Eq, Structural)]
pub enum Outcome {
    /// The child exited on its own before the deadline, with this exit code.
    Completed(i32),
    /// The deadline passed with the child still running; it was killed.
    TimedOut,
}

/// A request to the process that failed, ending the supervision without an
/// outcome.
#[derive(Clone, Copy, Debug, PartialEq, Eq, Structural)]
pub enum Fault {
    /// The bounded wait itself could not be carried out.
    Wait,
    /// The child outlived its deadline and could not be killed.
    Kill,
}

/// The request that the caller makes next of the child process.
#[derive(Clone, Copy, Debug, PartialEq, Eq, Structural)]
pub enum Action {
    /// Block until the child exits or `secs` seconds have passed, whichever
    /// comes first.
    Wait { secs: u32 },
    /// Terminate the child by force.
    Kill,
    /// Block until the killed child has been collected.
    Reap,
    /// Nothing: the supervision has ended.
    Stop,
}

/// The answer to a request.
#[derive(Clone, Copy, Debug, PartialEq, Eq, Structural)]
pub enum Event {
    /// The bounded wait saw the child exit. The code is `None` where the
    /// platform has none to report, as for a child that a signal ended.
    Exited(Option<i32>),
    /// The bounded wait ran its full length and the child is still running.
    DeadlinePassed,
    /// The bounded wait failed.
    WaitFailed,
    /// The kill went through.
    Killed,
    /// The kill failed.
    KillFailed,
    /// The killed child was collected.
    Reaped,
    /// Collecting the killed child failed.
    ReapFailed,
}

/// Why an event was refused.
#[derive(Clone, Copy, Debug, PartialEq, Eq, Structural)]
pub enum Misstep {
    /// The supervision had already ended. A supervision serves one run of one
    /// child and is not started over.
    Spent,
    /// The event does not answer the request that was pending.
    Unasked,
}

/// The state of one supervision.
///
/// It is neither `Clone` nor `Copy`: [`Supervision::step`] takes the state by
/// value and hands the next one back, so a state that has been stepped is gone.
#[derive(Debug, PartialEq, Eq, Structural)]
pub enum Supervision {
    /// The bounded wait of `secs` seconds is pending.
    Waiting { secs: u32 },
    /// The deadline passed; the kill is pending.
    Killing,
    /// The child was killed; collecting it is pending.
    Reaping,
    /// Ended with an outcome.
    Done(Outcome),
    /// Ended without an outcome.
    Failed(Fault),
}

/// The exit code that stands for a child whose platform reports none.
pub const MISSING_EXIT_CODE: i32 = 0;

/// The exit code that an exit event carries, or [`MISSING_EXIT_CODE`].
pub open spec fn reported_code(code: Option<i32>) -> i32 {
    match code {
        Some(c) => c,
        None => MISSING_EXIT_CODE,
    }
}

impl Event {
    /// Whether the event answers a bounded wait.
    pub open spec fn answers_wait(self) -> bool {
        self is Exited || self is DeadlinePassed || self is WaitFailed
    }

    /// Whether the event answers a kill.
    pub open spec fn answers_kill(self) -> bool {
        self is Killed || self is KillFailed
    }

    /// Whether the event answers a reap.
    pub open spec fn answers_reap(self) -> bool {
        self is Reaped || self is ReapFailed
    }
}

impl Supervision {
    /// The state in which a supervision with the given timeout starts.
    pub open spec fn initial(timeout_secs: u32) -> Supervision {
        if timeout_secs == 0 {
            Supervision::Killing
        } else {
            Supervision::Waiting { secs: timeout_secs }
        }
    }

    /// Whether the supervision has ended.
    pub open spec fn settled(self) -> bool {
        self is Done || self is Failed
    }

    /// The request that is pending in this state.
    pub open spec fn pending(self) -> Action {
        match self {
            Supervision::Waiting { secs } => Action::Wait { secs },
            Supervision::Killing => Action::Kill,
            Supervision::Reaping => Action::Reap,
            Supervision::Done(_) => Action::Stop,
            Supervision::Failed(_) => Action::Stop,
        }
    }

    /// Whether `event` answers the request that is pending in this state.
    pub open spec fn accepts(self, event: Event) -> bool {
        match self {
            Supervision::Waiting { .. } => event.answers_wait(),
            Supervision::Killing => event.answers_kill(),
            Supervision::Reaping => event.answers_reap(),
            Supervision::Done(_) => false,
            Supervision::Failed(_) => false,
        }
    }

    /// The state that follows this one on `event`.
    ///
    /// A reap that fails ends the supervision as one that succeeds does: once
    /// the kill has gone through, the run counts as timed out either way.
    pub open spec fn next(self, event: Event) -> Result<Supervision, Misstep> {
        if self.settled() {
            Err(Misstep::Spent)
        } else if !self.accepts(event) {
            Err(Misstep::Unasked)
        } else {
            Ok(
                match event {
                    Event::Exited(code) => Supervision::Done(
                        Outcome::Completed(reported_code(code)),
                    ),
                    Event::DeadlinePassed => Supervision::Killing,
                    Event::WaitFailed => Supervision::Failed(Fault::Wait),
                    Event::Killed => Supervision::Reaping,
                    Event::KillFailed => Supervision::Failed(Fault::Kill),
                    Event::Reaped => Supervision::Done(Outcome::TimedOut),
                    Event::ReapFailed => Supervision::Done(Outcome::TimedOut),
                },
            )
        }
    }

    /// The state after a whole sequence of events, taken in order; the first
    /// event that is refused ends the run with its refusal.
    pub open spec fn run(self, events: Seq<Event>) -> Result<Supervision, Misstep>
        decreases events.len(),
    {
        if events.len() == 0 {
            Ok(self)
        } else {
            match self.next(events[0]) {
                Ok(state) => state.run(events.skip(1)),
                Err(misstep) => Err(misstep),
            }
        }
    }

    /// How the supervision ended: `None` while it is still under way.
    pub open spec fn ending(self) -> Option<Result<Outcome, Fault>> {
        match self {
            Supervision::Done(outcome) => Some(Ok(outcome)),
            Supervision::Failed(fault) => Some(Err(fault)),
            _ => None,
        }
    }

    /// Starts the supervision of a freshly launched child.
    ///
    /// With a timeout of zero no wait is made and the kill is requested at
    /// once.
    pub fn begin(timeout_secs: u32) -> (state: Supervision)
        ensures
            state == Supervision::initial(timeout_secs),
            !state.settled(),
    {
        if timeout_secs == 0 {
            Supervision::Killing
        } else {
            Supervision::Waiting { secs: timeout_secs }
        }
    }

    /// The request to make next.
    pub fn action(&self) -> (action: Action)
        ensures
            action == self.pending(),
            action == Action::Stop <==> self.settled(),
    {
        match self {
            Supervision::Waiting { secs } => Action::Wait { secs: *secs },
            Supervision::Killing => Action::Kill,
            Supervision::Reaping => Action::Reap,
            Supervision::Done(_) => Action::Stop,
            Supervision::Failed(_) => Action::Stop,
        }
    }

    /// Takes the answer to the pending request and moves on.
    ///
    /// An event is refused, and the supervision lost, when the supervision has
    /// already ended or when the event answers another request than the
    /// pending one.
    pub fn step(self, event: Event) -> (result: Result<Supervision, Misstep>)
        ensures
            result == self.next(event),
            self.settled() ==> result == Err::<Supervision, Misstep>(Misstep::Spent),
            result is Ok <==> self.accepts(event),
    {
        match self {
            Supervision::Waiting { secs: _ } => match event {
                Event::Exited(Some(code)) => Ok(Supervision::Done(Outcome::Completed(code))),
                Event::Exited(None) => Ok(Supervision::Done(Outcome::Completed(MISSING_EXIT_CODE))),
                Event::DeadlinePassed => Ok(Supervision::Killing),
                Event::WaitFailed => Ok(Supervision::Failed(Fault::Wait)),
                _ => Err(Misstep::Unasked),
            },
            Supervision::Killing => match event {
                Event::Killed => Ok(Supervision::Reaping),
                Event::KillFailed => Ok(Supervision::Failed(Fault::Kill)),
                _ => Err(Misstep::Unasked),
            },
            Supervision::Reaping => match event {
                Event::Reaped => Ok(Supervision::Done(Outcome::TimedOut)),
                Event::ReapFailed => Ok(Supervision::Done(Outcome::TimedOut)),
                _ => Err(Misstep::Unasked),
            },
            Supervision::Done(_) => Err(Misstep::Spent),
            Supervision::Failed(_) => Err(Misstep::Spent),
        }
    }

    /// How the supervision ended, or `None` while a request is pending.
    pub fn result(&self) -> (ending: Option<Result<Outcome, Fault>>)
        ensures
            ending == self.ending(),
            ending is Some <==> self.settled(),
    {
        match self {
            Supervision::Done(outcome) => Some(Ok(*outcome)),
            Supervision::Failed(fault) => Some(Err(*fault)),
            _ => None,
        }
    }
}

/// The events of a run in which everything goes by the clock: the child
/// exits by itself after `runtime` seconds (`None`: never) with `code`, the
/// bounded wait reports an exit exactly when the child needs less than the
/// whole window, and kill and reap succeed.
///
/// In this model a child that needs exactly `timeout_secs` seconds has lost
/// the race. In a real run the bounded wait reports who won, and the
/// supervisor follows that report.
pub open spec fn clocked_events(timeout_secs: u32, runtime: Option<nat>, code: Option<i32>) -> Seq<
    Event,
> {
    if timeout_secs == 0 {
        seq![Event::Killed, Event::Reaped]
    } else if runtime is Some && runtime->0 < timeout_secs {
        seq![Event::Exited(code)]
    } else {
        seq![Event::DeadlinePassed, Event::Killed, Event::Reaped]
    }
}

/// The race against the deadline: in a run that goes by the clock, a child
/// that needs less than the timeout completes with its exit code, and every
/// other child, one that needs exactly the timeout included, is timed out.
/// With a timeout of zero every child is timed out.
pub proof fn law_deadline_race(timeout_secs: u32, runtime: Option<nat>, code: Option<i32>)
    ensures
        runtime is Some && runtime->0 < timeout_secs ==> Supervision::initial(timeout_secs).run(
            clocked_events(timeout_secs, runtime, code),
        ) == Ok::<Supervision, Misstep>(
            Supervision::Done(Outcome::Completed(reported_code(code))),
        ),
        !(runtime is Some && runtime->0 < timeout_secs) ==> Supervision::initial(timeout_secs).run(
            clocked_events(timeout_secs, runtime, code),
        ) == Ok::<Supervision, Misstep>(Supervision::Done(Outcome::TimedOut)),
{
    reveal_with_fuel(Supervision::run, 4);
    let events = clocked_events(timeout_secs, runtime, code);
    if events.len() == 3 {
        assert(events.skip(1) =~= seq![Event::Killed, Event::Reaped]);
        assert(events.skip(1).skip(1) =~= seq![Event::Reaped]);
        assert(events.skip(1).skip(1).skip(1) =~= Seq::<Event>::empty());
    } else if events.len() == 2 {
        assert(events.skip(1) =~= seq![Event::Reaped]);
        assert(events.skip(1).skip(1) =~= Seq::<Event>::empty());
    } else {
        assert(events.skip(1) =~= Seq::<Event>::empty());
    }
}

/// A supervision completes along one path only: the timeout is positive and
/// the bounded wait, the only request made, reported the exit. The outcome
/// carries the reported exit code, or zero where none was reported.
pub proof fn law_completed_means_exit_reported(timeout_secs: u32, events: Seq<Event>, exit_code: i32)
    requires
        Supervision::initial(timeout_secs).run(events) == Ok::<Supervision, Misstep>(
            Supervision::Done(Outcome::Completed(exit_code)),
        ),
    ensures
        timeout_secs > 0,
        events.len() == 1,
        events[0] is Exited,
        exit_code == reported_code(events[0]->Exited_0),
{
    lemma_run_unfolded(Supervision::initial(timeout_secs), events);
}

/// A supervision ends as timed out along one path only: the bounded wait ran
/// its full length (or the timeout was zero and no wait was made), then the
/// kill was requested and went through, then the reap was requested and
/// answered. The kill comes before the reap, and no run ends as timed out
/// without both.
pub proof fn law_timed_out_means_killed_then_reaped(timeout_secs: u32, events: Seq<Event>)
    requires
        Supervision::initial(timeout_secs).run(events) == Ok::<Supervision, Misstep>(
            Supervision::Done(Outcome::TimedOut),
        ),
    ensures
        timeout_secs == 0 ==> events.len() == 2,
        timeout_secs > 0 ==> events.len() == 3 && events[0] == Event::DeadlinePassed,
        events[events.len() - 2] == Event::Killed,
        events[events.len() - 1].answers_reap(),
        Supervision::initial(timeout_secs).run(events.take(events.len() - 2)) == Ok::<
            Supervision,
            Misstep,
        >(Supervision::Killing),
        Supervision::initial(timeout_secs).run(events.take(events.len() - 1)) == Ok::<
            Supervision,
            Misstep,
        >(Supervision::Reaping),
{
    let start = Supervision::initial(timeout_secs);
    lemma_run_unfolded(start, events);
    lemma_run_unfolded(start, events.take(events.len() - 2));
    lemma_run_unfolded(start, events.take(events.len() - 1));
}

/// A kill that went through is always followed by the request to reap: the
/// supervision does not end, and asks for nothing else, before the killed
/// child has been waited for.
pub proof fn law_reap_follows_kill(timeout_secs: u32, events: Seq<Event>, at: int)
    requires
        Supervision::initial(timeout_secs).run(events) is Ok,
        0 <= at < events.len(),
        events[at] == Event::Killed,
    ensures
        Supervision::initial(timeout_secs).run(events.take(at + 1)) == Ok::<Supervision, Misstep>(
            Supervision::Reaping,
        ),
        Supervision::Reaping.pending() == Action::Reap,
{
    let start = Supervision::initial(timeout_secs);
    let seen = events.take(at + 1);
    lemma_run_unfolded(start, events);
    lemma_run_unfolded(start, seen);
    assert(forall|i: int| 0 <= i <= at ==> seen[i] == events[i]);
}

/// A supervision fails along two paths only: the bounded wait failed, or the
/// deadline passed and the kill failed. After a failed kill no reap is
/// requested.
pub proof fn law_failed_means_request_failed(timeout_secs: u32, events: Seq<Event>, fault: Fault)
    requires
        Supervision::initial(timeout_secs).run(events) == Ok::<Supervision, Misstep>(
            Supervision::Failed(fault),
        ),
    ensures
        fault == Fault::Wait ==> timeout_secs > 0 && events =~= seq![Event::WaitFailed],
        fault == Fault::Kill && timeout_secs > 0 ==> events =~= seq![
            Event::DeadlinePassed,
            Event::KillFailed,
        ],
        fault == Fault::Kill && timeout_secs == 0 ==> events =~= seq![Event::KillFailed],
{
    lemma_run_unfolded(Supervision::initial(timeout_secs), events);
}

/// Every supervision ends after at most three requests, whatever the answers:
/// a run of accepted events from the start has at most three events, and after
/// three the supervision has ended.
pub proof fn law_ends_within_three_requests(timeout_secs: u32, events: Seq<Event>)
    requires
        Supervision::initial(timeout_secs).run(events) is Ok,
    ensures
        events.len() <= 3,
        timeout_secs == 0 ==> events.len() <= 2,
        events.len() == 3 ==> Supervision::initial(timeout_secs).run(events)->Ok_0.settled(),
{
    lemma_run_unfolded(Supervision::initial(timeout_secs), events);
}

/// The bounded wait is asked for at most once, as the first request: after
/// any event the supervision never waits again, so it cannot wait past its
/// deadline by waiting anew.
pub proof fn law_waits_at_most_once(timeout_secs: u32, events: Seq<Event>)
    requires
        Supervision::initial(timeout_secs).run(events) is Ok,
        events.len() > 0,
    ensures
        !(Supervision::initial(timeout_secs).run(events)->Ok_0 is Waiting),
{
    lemma_run_unfolded(Supervision::initial(timeout_secs), events);
}

/// A supervision is single-shot: once it has ended, every further event is
/// refused as [`Misstep::Spent`], and the ending it reached is not handed out
/// a second time.
pub proof fn law_spent_supervision_refuses(state: Supervision, events: Seq<Event>)
    requires
        state.settled(),
        events.len() > 0,
    ensures
        state.run(events) == Err::<Supervision, Misstep>(Misstep::Spent),
{
}

/// An outcome, once reached, is final: a run that goes on past the end of the
/// supervision is refused as a whole.
pub proof fn law_outcome_is_final(timeout_secs: u32, events: Seq<Event>, more: Seq<Event>)
    requires
        Supervision::initial(timeout_secs).run(events) is Ok,
        Supervision::initial(timeout_secs).run(events)->Ok_0.settled(),
        more.len() > 0,
    ensures
        Supervision::initial(timeout_secs).run(events + more) == Err::<Supervision, Misstep>(
            Misstep::Spent,
        ),
{
    lemma_run_concat(Supervision::initial(timeout_secs), events, more);
}

/// Running two sequences of events one after the other is running their
/// concatenation.
pub proof fn lemma_run_concat(state: Supervision, first: Seq<Event>, second: Seq<Event>)
    ensures
        state.run(first + second) == match state.run(first) {
            Ok(middle) => middle.run(second),
            Err(misstep) => Err(misstep),
        },
    decreases first.len(),
{
    if first.len() == 0 {
        assert(first + second =~= second);
    } else {
        assert((first + second)[0] == first[0]);
        assert((first + second).skip(1) =~= first.skip(1) + second);
        match state.next(first[0]) {
            Ok(after) => lemma_run_concat(after, first.skip(1), second),
            Err(_) => {},
        }
    }
}

/// The first four steps of a run written out: a run of no events stays where
/// it is, a run from an unsettled state goes through `next` event by event,
/// and no run of more than three events from a state is accepted unless the
/// state had a request pending for each.
proof fn lemma_run_unfolded(state: Supervision, events: Seq<Event>)
    ensures
        events.len() == 0 ==> state.run(events) == Ok::<Supervision, Misstep>(state),
        events.len() == 1 ==> state.run(events) == state.next(events[0]),
        events.len() == 2 ==> state.run(events) == match state.next(events[0]) {
            Ok(a) => a.next(events[1]),
            Err(e) => Err(e),
        },
        events.len() == 3 ==> state.run(events) == match state.next(events[0]) {
            Ok(a) => match a.next(events[1]) {
                Ok(b) => b.next(events[2]),
                Err(e) => Err(e),
            },
            Err(e) => Err(e),
        },
        events.len() > 3 ==> state.run(events) is Err,
{
    reveal_with_fuel(Supervision::run, 5);
    if events.len() >= 1 {
        let e1 = events.skip(1);
        if events.len() >= 2 {
            assert(e1[0] == events[1]);
            let e2 = e1.skip(1);
            if events.len() >= 3 {
                assert(e2[0] == events[2]);
                let e3 = e2.skip(1);
                if events.len() >= 4 {
                    assert(e3[0] == events[3]);
                }
            }
        }
    }
}

} // verus!

//! Ending a child process.
use vstd::prelude::*;

use crate::error::{IoError, IoErrorView};

verus! {

/// How often it is checked whether a child has heeded the request to end.
pub const KILL_ATTEMPTS: u32 = 5;

/// The pause between two checks, in milliseconds.
pub const KILL_PAUSE_MILLIS: u64 = 50;

/// What an attempt to do something came to.
pub open spec fn result_view(result: Result<(), IoError>) -> Result<(), IoErrorView> {
    match result {
        Ok(_) => Ok(()),
        Err(error) => Err(error@),
    }
}

/// What is to be done next to end a child.
#[derive(Debug)]
pub enum KillStep {
    /// Ask the child to end, by a hangup signal.
    Hangup,
    /// Wait before check `attempt`.
    Pause { attempt: u32 },
    /// Check whether the child has ended.
    Poll { attempt: u32 },
    /// Kill the child.
    Force,
    /// Nothing; this is the result.
    Done(Result<(), IoError>),
}

/// What a [`KillStep`] says.
pub enum KillStepView {
    Hangup,
    Pause { attempt: nat },
    Poll { attempt: nat },
    Force,
    Done(Result<(), IoErrorView>),
}

impl View for KillStep {
    type V = KillStepView;

    open spec fn view(&self) -> KillStepView {
        match self {
            KillStep::Hangup => KillStepView::Hangup,
            KillStep::Pause { attempt } => KillStepView::Pause { attempt: *attempt as nat },
            KillStep::Poll { attempt } => KillStepView::Poll { attempt: *attempt as nat },
            KillStep::Force => KillStepView::Force,
            KillStep::Done(result) => KillStepView::Done(result_view(*result)),
        }
    }
}

/// What came of the step.
#[derive(Debug)]
pub enum KillEvent {
    /// A signal was sent, or could not be.
    Sent(Result<(), IoError>),
    /// The pause is over.
    Paused,
    /// The child was checked; has it ended?
    Polled(bool),
}

/// What a [`KillEvent`] says.
pub enum KillEventView {
    Sent(Result<(), IoErrorView>),
    Paused,
    Polled(bool),
}

impl View for KillEvent {
    type V = KillEventView;

    open spec fn view(&self) -> KillEventView {
        match self {
            KillEvent::Sent(result) => KillEventView::Sent(result_view(*result)),
            KillEvent::Paused => KillEventView::Paused,
            KillEvent::Polled(ended) => KillEventView::Polled(*ended),
        }
    }
}

/// The step after an event: a child that does not end by itself within the
/// checks is killed.  An event that does not belong to the step changes
/// nothing.
pub open spec fn kill_next(step: KillStepView, event: KillEventView) -> KillStepView {
    match (step, event) {
        (KillStepView::Hangup, KillEventView::Sent(result)) => match result {
            Ok(_) => KillStepView::Poll { attempt: 0 },
            Err(error) => KillStepView::Done(Err(error)),
        },
        (KillStepView::Pause { attempt }, KillEventView::Paused) => KillStepView::Poll { attempt },
        (KillStepView::Poll { attempt }, KillEventView::Polled(ended)) => if ended {
            KillStepView::Done(Ok(()))
        } else if attempt + 1 < KILL_ATTEMPTS {
            KillStepView::Pause { attempt: attempt + 1 }
        } else {
            KillStepView::Force
        },
        (KillStepView::Force, KillEventView::Sent(result)) => KillStepView::Done(result),
        _ => step,
    }
}

impl KillStep {
    /// The step after an event.
    pub fn next(self, event: KillEvent) -> (r: KillStep)
        ensures
            r@ == kill_next(self@, event@),
    {
        match (self, event) {
            (KillStep::Hangup, KillEvent::Sent(result)) => match result {
                Ok(_) => KillStep::Poll { attempt: 0 },
                Err(error) => KillStep::Done(Err(error)),
            },
            (KillStep::Pause { attempt }, KillEvent::Paused) => KillStep::Poll { attempt },
            (KillStep::Poll { attempt }, KillEvent::Polled(ended)) => if ended {
                KillStep::Done(Ok(()))
            } else if attempt < KILL_ATTEMPTS - 1 {
                KillStep::Pause { attempt: attempt + 1 }
            } else {
                KillStep::Force
            },
            (KillStep::Force, KillEvent::Sent(result)) => KillStep::Done(result),
            (step, _) => step,
        }
    }
}

/// A child, as far as ending it is concerned: what sending it signals comes
/// to, and whether it has ended at each check.
pub struct Victim {
    pub hangup: Result<(), IoErrorView>,
    pub ended: spec_fn(nat) -> bool,
    pub force: Result<(), IoErrorView>,
}

/// What comes of a step with a child.
pub open spec fn event_of(victim: Victim, step: KillStepView) -> KillEventView {
    match step {
        KillStepView::Hangup => KillEventView::Sent(victim.hangup),
        KillStepView::Pause { .. } => KillEventView::Paused,
        KillStepView::Poll { attempt } => KillEventView::Polled((victim.ended)(attempt)),
        KillStepView::Force => KillEventView::Sent(victim.force),
        KillStepView::Done(_) => KillEventView::Paused,
    }
}

/// How much is left until the end.
pub open spec fn kill_left(step: KillStepView) -> nat {
    match step {
        KillStepView::Hangup => 100,
        KillStepView::Pause { attempt } => if attempt < KILL_ATTEMPTS {
            (2 * (KILL_ATTEMPTS - attempt) + 3) as nat
        } else {
            3
        },
        KillStepView::Poll { attempt } => if attempt < KILL_ATTEMPTS {
            (2 * (KILL_ATTEMPTS - attempt) + 2) as nat
        } else {
            2
        },
        KillStepView::Force => 1,
        KillStepView::Done(_) => 0,
    }
}

/// The steps with a child, from the given one to the last.
pub open spec fn kill_steps(victim: Victim, step: KillStepView) -> Seq<KillStepView>
    decreases kill_left(step),
{
    match step {
        KillStepView::Done(_) => seq![step],
        _ => seq![step] + kill_steps(victim, kill_next(step, event_of(victim, step))),
    }
}

/// Whether a child has ended at one of the checks.
pub open spec fn heeds(victim: Victim) -> bool {
    exists|i: nat| i < KILL_ATTEMPTS && #[trigger] (victim.ended)(i)
}

/// From check `attempt` on: a child that ends is left alone, and any other is
/// killed in the end.
proof fn lemma_kill_from(victim: Victim, attempt: nat)
    requires
        attempt < KILL_ATTEMPTS,
        forall|i: nat| i < attempt ==> !(#[trigger] (victim.ended)(i)),
    ensures
        ({
            let steps = kill_steps(victim, KillStepView::Poll { attempt });
            &&& steps.len() > 0
            &&& steps.last() == KillStepView::Done(
                if heeds(victim) {
                    Ok(())
                } else {
                    victim.force
                },
            )
            &&& steps.contains(KillStepView::Force) == !heeds(victim)
        }),
    decreases KILL_ATTEMPTS - attempt,
{
    let step = KillStepView::Poll { attempt };
    let next = kill_next(step, event_of(victim, step));
    let steps = kill_steps(victim, step);
    let rest = kill_steps(victim, next);
    assert(steps =~= seq![step] + rest);
    if (victim.ended)(attempt) {
        assert(heeds(victim));
        assert(rest =~= seq![next]);
        assert(steps[1] == next);
    } else if attempt + 1 < KILL_ATTEMPTS {
        let poll = KillStepView::Poll { attempt: attempt + 1 };
        let tail = kill_steps(victim, poll);
        assert(rest =~= seq![next] + tail);
        lemma_kill_from(victim, attempt + 1);
        assert(steps =~= seq![step, next] + tail);
        if heeds(victim) {
            assert forall|i: int| 0 <= i < steps.len() implies steps[i] != KillStepView::Force by {
                if i >= 2 {
                    assert(steps[i] == tail[i - 2]);
                }
            }
        } else {
            let k = tail.index_of(KillStepView::Force);
            assert(steps[k + 2] == KillStepView::Force);
        }
    } else {
        assert forall|i: nat| i < KILL_ATTEMPTS implies !(#[trigger] (victim.ended)(i)) by {
            if i == attempt {
            }
        }
        assert(!heeds(victim));
        let last = KillStepView::Done(victim.force);
        assert(kill_next(next, event_of(victim, next)) == last);
        assert(kill_steps(victim, last) =~= seq![last]);
        assert(rest =~= seq![next, last]);
        assert(steps =~= seq![step, next, last]);
        assert(steps[1] == KillStepView::Force);
        assert(steps[2] == last);
    }
}

/// Ending a child: it is asked first.  One that cannot be asked is left
/// alone, with the error.  One that ends within the checks is not killed.
/// Only one that does not is killed, and that result counts.
pub proof fn kill_is_a_last_resort(victim: Victim)
    ensures
        ({
            let steps = kill_steps(victim, KillStepView::Hangup);
            &&& steps.len() > 0
            &&& steps.last() == KillStepView::Done(
                if victim.hangup is Err {
                    victim.hangup
                } else if heeds(victim) {
                    Ok(())
                } else {
                    victim.force
                },
            )
            &&& steps.contains(KillStepView::Force) == (victim.hangup is Ok && !heeds(victim))
        }),
{
    let step = KillStepView::Hangup;
    let next = kill_next(step, event_of(victim, step));
    let steps = kill_steps(victim, step);
    let rest = kill_steps(victim, next);
    assert(steps =~= seq![step] + rest);
    if victim.hangup is Ok {
        lemma_kill_from(victim, 0);
        if heeds(victim) {
            assert forall|i: int| 0 <= i < steps.len() implies steps[i] != KillStepView::Force by {
                if i >= 1 {
                    assert(steps[i] == rest[i - 1]);
                }
            }
        } else {
            let k = rest.index_of(KillStepView::Force);
            assert(steps[k + 1] == KillStepView::Force);
        }
    } else {
        assert(rest =~= seq![next]);
        assert(steps =~= seq![step, next]);
        assert(steps[1] == next);
    }
}

/// Signals a child apart from whoever waits for it.
#[derive(Debug)]
pub struct ProcessSignaller {
    pid: Option<u32>,
}

impl View for ProcessSignaller {
    type V = Option<u32>;

    /// The process, if there is one.
    closed spec fn view(&self) -> Option<u32> {
        self.pid
    }
}

/// Thirty-two bits read as a signed number.
pub open spec fn signed_pid(pid: u32) -> int {
    if pid < 0x8000_0000 {
        pid as int
    } else {
        pid - 0x1_0000_0000
    }
}

impl ProcessSignaller {
    /// A signaller for a process.
    pub fn new(pid: Option<u32>) -> (r: Self)
        ensures
            r@ == pid,
    {
        ProcessSignaller { pid }
    }

    /// The process to send a hangup to; without one there is nothing to do.
    pub fn target(&self) -> (r: Option<i32>)
        ensures
            match r {
                Some(target) => self@ is Some && target == signed_pid(self@->0),
                None => self@ is None,
            },
    {
        match self.pid {
            Some(pid) => {
                let wide = pid as i64;
                if wide < 0x8000_0000 {
                    Some(wide as i32)
                } else {
                    Some((wide - 0x1_0000_0000) as i32)
                }
            },
            None => None,
        }
    }

    /// Another signaller for the same process.
    pub fn clone_killer(&self) -> (r: Self)
        ensures
            r@ == self@,
    {
        ProcessSignaller { pid: self.pid }
    }
}

} // verus!

//! Children on Windows: whether they have ended, ending them, and waiting.
use vstd::prelude::*;

use crate::error::{Error, ErrorView, IoError, IoErrorView};
use crate::exit_status::{ExitStatus, ExitStatusView};
use crate::kill::result_view;

verus! {

/// The exit code of a child that is terminated.
pub const TERMINATED_CODE: u32 = 1;

/// The exit code of a process that is terminated by a signaller.
pub const SIGNALLED_CODE: u32 = 127;

/// A process that exited with a code.
pub open spec fn exited(code: u32) -> ExitStatusView {
    ExitStatusView { code, signal: None }
}

/// What asking for an exit code came to: the result of the call, which is zero
/// where it failed, and the code.
#[derive(Debug, Clone, Copy, PartialEq, Eq, Structural)]
pub struct ExitCodeReply {
    pub result: i32,
    pub code: u32,
}

/// What looking at a process came to, without waiting: whether it has ended,
/// and its exit code.
#[derive(Debug, Clone, Copy, PartialEq, Eq, Structural)]
pub struct CompletionReply {
    pub ended: bool,
    pub exit: ExitCodeReply,
}

/// How a process has ended: it has a status exactly when it has ended and its
/// exit code could be read.  Any code can be that of a process that has ended,
/// also the one that Windows gives for processes that still run.
pub open spec fn completed(reply: CompletionReply) -> Option<ExitStatusView> {
    if reply.ended && reply.exit.result != 0 {
        Some(exited(reply.exit.code))
    } else {
        None
    }
}

/// What a result about a process says.
pub open spec fn status_result(result: Result<Option<ExitStatus>, IoError>) -> Result<
    Option<ExitStatusView>,
    IoErrorView,
> {
    match result {
        Ok(Some(status)) => Ok(Some(status@)),
        Ok(None) => Ok(None),
        Err(error) => Err(error@),
    }
}

/// What looking at a process says, or why that was not possible.
pub open spec fn reply_result(reply: Result<CompletionReply, IoError>) -> Result<
    Option<ExitStatusView>,
    IoErrorView,
> {
    match reply {
        Ok(reply) => Ok(completed(reply)),
        Err(error) => Err(error@),
    }
}

/// Whether a process has ended, and how.  There is no reply where the process
/// could not be reached.
pub fn is_complete(reply: Result<CompletionReply, IoError>) -> (r: Result<
    Option<ExitStatus>,
    IoError,
>)
    ensures
        status_result(r) == reply_result(reply),
{
    match reply {
        Ok(reply) => if reply.ended && reply.exit.result != 0 {
            Ok(Some(ExitStatus::with_exit_code(reply.exit.code)))
        } else {
            Ok(None)
        },
        Err(error) => Err(error),
    }
}

/// What a request to terminate a process came to: `result` is zero where it
/// failed, and then `last_error` is why.
pub fn terminated(result: i32, last_error: IoError) -> (r: Result<(), IoError>)
    ensures
        match r {
            Ok(_) => result != 0,
            Err(error) => result == 0 && error@ == last_error@,
        },
{
    if result == 0 {
        Err(last_error)
    } else {
        Ok(())
    }
}

/// The process with this number, where zero is none.
pub fn process_id(number: u32) -> (r: Option<u32>)
    ensures
        r == if number == 0 {
            None
        } else {
            Some(number)
        },
{
    if number == 0 {
        None
    } else {
        Some(number)
    }
}

/// What is to be done next to wait for a child.
#[derive(Debug)]
pub enum WaitStep {
    /// Ask for the exit code.
    Check,
    /// Get hold of the process.
    Reach,
    /// Wait until the process has ended.
    Block,
    /// Ask for the exit code of the process, which has ended.
    Collect,
    /// Nothing; this is the result.
    Done(Result<ExitStatus, IoError>),
}

/// What a [`WaitStep`] says.
pub enum WaitStepView {
    Check,
    Reach,
    Block,
    Collect,
    Done(Result<ExitStatusView, IoErrorView>),
}

/// What waiting came to.
pub open spec fn wait_result(result: Result<ExitStatus, IoError>) -> Result<
    ExitStatusView,
    IoErrorView,
> {
    match result {
        Ok(status) => Ok(status@),
        Err(error) => Err(error@),
    }
}

impl View for WaitStep {
    type V = WaitStepView;

    open spec fn view(&self) -> WaitStepView {
        match self {
            WaitStep::Check => WaitStepView::Check,
            WaitStep::Reach => WaitStepView::Reach,
            WaitStep::Block => WaitStepView::Block,
            WaitStep::Collect => WaitStepView::Collect,
            WaitStep::Done(result) => WaitStepView::Done(wait_result(*result)),
        }
    }
}

/// What came of the step.
#[derive(Debug)]
pub enum WaitEvent {
    /// The child was asked whether it has ended.
    Checked(Result<Option<ExitStatus>, IoError>),
    /// The process was got hold of, or not.
    Reached(Result<(), IoError>),
    /// The process has ended.
    Ended,
    /// The exit code, with why it could not be had where that failed.
    Collected(ExitCodeReply, IoError),
}

/// What a [`WaitEvent`] says.
pub enum WaitEventView {
    Checked(Result<Option<ExitStatusView>, IoErrorView>),
    Reached(Result<(), IoErrorView>),
    Ended,
    Collected(ExitCodeReply, IoErrorView),
}

impl View for WaitEvent {
    type V = WaitEventView;

    open spec fn view(&self) -> WaitEventView {
        match self {
            WaitEvent::Checked(result) => WaitEventView::Checked(status_result(*result)),
            WaitEvent::Reached(result) => WaitEventView::Reached(result_view(*result)),
            WaitEvent::Ended => WaitEventView::Ended,
            WaitEvent::Collected(reply, error) => WaitEventView::Collected(*reply, error@),
        }
    }
}

/// The step after an event: a child that has not ended, or about which nothing
/// could be learned, is waited for.  An event that does not belong to the step
/// changes nothing.
pub open spec fn wait_next(step: WaitStepView, event: WaitEventView) -> WaitStepView {
    match (step, event) {
        (WaitStepView::Check, WaitEventView::Checked(result)) => match result {
            Ok(Some(status)) => WaitStepView::Done(Ok(status)),
            _ => WaitStepView::Reach,
        },
        (WaitStepView::Reach, WaitEventView::Reached(result)) => match result {
            Ok(_) => WaitStepView::Block,
            Err(error) => WaitStepView::Done(Err(error)),
        },
        (WaitStepView::Block, WaitEventView::Ended) => WaitStepView::Collect,
        (WaitStepView::Collect, WaitEventView::Collected(reply, error)) => if reply.result != 0 {
            WaitStepView::Done(Ok(exited(reply.code)))
        } else {
            WaitStepView::Done(Err(error))
        },
        _ => step,
    }
}

impl WaitStep {
    /// The step after an event.
    pub fn next(self, event: WaitEvent) -> (r: WaitStep)
        ensures
            r@ == wait_next(self@, event@),
    {
        match (self, event) {
            (WaitStep::Check, WaitEvent::Checked(result)) => match result {
                Ok(Some(status)) => WaitStep::Done(Ok(status)),
                _ => WaitStep::Reach,
            },
            (WaitStep::Reach, WaitEvent::Reached(result)) => match result {
                Ok(_) => WaitStep::Block,
                Err(error) => WaitStep::Done(Err(error)),
            },
            (WaitStep::Block, WaitEvent::Ended) => WaitStep::Collect,
            (WaitStep::Collect, WaitEvent::Collected(reply, error)) => if reply.result != 0 {
                WaitStep::Done(Ok(ExitStatus::with_exit_code(reply.code)))
            } else {
                WaitStep::Done(Err(error))
            },
            (step, _) => step,
        }
    }
}

/// A child, as far as waiting for it is concerned: what its exit code is at
/// once and after it has ended, and whether the process can be got hold of.
pub struct Waited {
    pub checked: Result<Option<ExitStatusView>, IoErrorView>,
    pub reached: Result<(), IoErrorView>,
    pub collected: (ExitCodeReply, IoErrorView),
}

/// What comes of a step with a child.
pub open spec fn wait_event(waited: Waited, step: WaitStepView) -> WaitEventView {
    match step {
        WaitStepView::Check => WaitEventView::Checked(waited.checked),
        WaitStepView::Reach => WaitEventView::Reached(waited.reached),
        WaitStepView::Block => WaitEventView::Ended,
        WaitStepView::Collect => WaitEventView::Collected(waited.collected.0, waited.collected.1),
        WaitStepView::Done(_) => WaitEventView::Ended,
    }
}

/// How much is left until the end.
pub open spec fn wait_left(step: WaitStepView) -> nat {
    match step {
        WaitStepView::Check => 4,
        WaitStepView::Reach => 3,
        WaitStepView::Block => 2,
        WaitStepView::Collect => 1,
        WaitStepView::Done(_) => 0,
    }
}

/// What waiting for a child comes to, from a step on.
pub open spec fn waited_for(waited: Waited, step: WaitStepView) -> Result<
    ExitStatusView,
    IoErrorView,
>
    decreases wait_left(step),
{
    match step {
        WaitStepView::Done(result) => result,
        _ => waited_for(waited, wait_next(step, wait_event(waited, step))),
    }
}

/// Waiting gives the status of a child that has ended already, and otherwise
/// the code with which it ends.
pub proof fn wait_gives_the_code(waited: Waited)
    ensures
        waited_for(waited, WaitStepView::Check) == match waited.checked {
            Ok(Some(status)) => Ok::<ExitStatusView, IoErrorView>(status),
            _ => match waited.reached {
                Err(error) => Err(error),
                Ok(_) => if waited.collected.0.result != 0 {
                    Ok(exited(waited.collected.0.code))
                } else {
                    Err(waited.collected.1)
                },
            },
        },
{
    reveal_with_fuel(waited_for, 5);
}

/// Looking at a child that has ended gives the same status as waiting for it,
/// whatever its exit code is, and a child that runs has none.
pub proof fn looking_and_waiting_agree(
    exit: ExitCodeReply,
    reached: Result<(), IoErrorView>,
    error: IoErrorView,
)
    requires
        exit.result != 0,
        reached is Ok,
    ensures
        completed(CompletionReply { ended: true, exit }) == Some(exited(exit.code)),
        completed(CompletionReply { ended: false, exit }) is None,
        waited_for(
            Waited {
                checked: Ok(completed(CompletionReply { ended: true, exit })),
                reached,
                collected: (exit, error),
            },
            WaitStepView::Check,
        ) == Ok::<ExitStatusView, IoErrorView>(exited(exit.code)),
        waited_for(
            Waited {
                checked: Ok(completed(CompletionReply { ended: false, exit })),
                reached,
                collected: (exit, error),
            },
            WaitStepView::Check,
        ) == Ok::<ExitStatusView, IoErrorView>(exited(exit.code)),
{
    reveal_with_fuel(waited_for, 5);
}

/// A child, with the task that waits for it.
#[derive(Debug)]
pub struct WinChild {
    wait_started: bool,
    task: Option<usize>,
}

/// What a [`WinChild`] holds.
pub struct WinChildView {
    /// Whether a thread was started to wait for the child.
    pub wait_started: bool,
    /// The task to wake when the child has ended.
    pub task: Option<usize>,
}

impl View for WinChild {
    type V = WinChildView;

    closed spec fn view(&self) -> WinChildView {
        WinChildView { wait_started: self.wait_started, task: self.task }
    }
}

/// What a task gets, or what is to be done for it.
#[derive(Debug)]
pub enum PollStep {
    /// The child has ended, or cannot be asked.
    Ready(Result<ExitStatus, Error>),
    /// The task waits.  With `start_waiter` a thread is to be started that
    /// waits for the child and wakes the task that [`WinChild::child_ended`]
    /// gives then.
    Pending { start_waiter: bool },
}

/// What a [`PollStep`] says.
pub enum PollStepView {
    Ready(Result<ExitStatusView, ErrorView>),
    Pending { start_waiter: bool },
}

impl View for PollStep {
    type V = PollStepView;

    open spec fn view(&self) -> PollStepView {
        match self {
            PollStep::Ready(Ok(status)) => PollStepView::Ready(Ok(status@)),
            PollStep::Ready(Err(error)) => PollStepView::Ready(Err(error@)),
            PollStep::Pending { start_waiter } => PollStepView::Pending {
                start_waiter: *start_waiter,
            },
        }
    }
}

/// What a task gets: the waiter is only started once.
pub open spec fn poll_step(
    wait_started: bool,
    completion: Result<Option<ExitStatusView>, IoErrorView>,
) -> PollStepView {
    match completion {
        Ok(Some(status)) => PollStepView::Ready(Ok(status)),
        Err(error) => PollStepView::Ready(Err(ErrorView::Io(error))),
        Ok(None) => PollStepView::Pending { start_waiter: !wait_started },
    }
}

/// Whether a waiter counts as started after a task has asked.
pub open spec fn started_after(
    wait_started: bool,
    completion: Result<Option<ExitStatusView>, IoErrorView>,
) -> bool {
    wait_started || completion == Ok::<Option<ExitStatusView>, IoErrorView>(None)
}

/// The task to wake after a task has asked: the one that asked last and was
/// told to wait.
pub open spec fn task_after(
    task: Option<usize>,
    completion: Result<Option<ExitStatusView>, IoErrorView>,
    asking: usize,
) -> Option<usize> {
    if completion == Ok::<Option<ExitStatusView>, IoErrorView>(None) {
        Some(asking)
    } else {
        task
    }
}

/// The task that is woken when the child has ended, and what is left then.
pub open spec fn woken(poll: WinChildView) -> (Option<usize>, WinChildView) {
    (poll.task, WinChildView { task: None, ..poll })
}

/// Why no waiter could be started.
#[derive(Debug)]
pub enum WaiterFailure {
    /// The process could not be reached.
    Reach(IoError),
    /// Another thread failed while it held the process.
    Poisoned(String),
}

/// The error of a task for which no waiter could be started.
pub open spec fn waiter_error(failure: WaiterFailure) -> ErrorView {
    match failure {
        WaiterFailure::Reach(error) => ErrorView::Io(error@),
        WaiterFailure::Poisoned(text) => ErrorView::Other(text@),
    }
}

impl WaiterFailure {
    /// The error of a task for which no waiter could be started.
    pub fn into_error(self) -> (r: Error)
        ensures
            r@ == waiter_error(self),
    {
        match self {
            WaiterFailure::Reach(error) => Error::Io(error),
            WaiterFailure::Poisoned(text) => Error::Other(text),
        }
    }
}

impl WinChild {
    /// Nobody has asked yet.
    pub fn new() -> (r: Self)
        ensures
            r@ == (WinChildView { wait_started: false, task: None }),
    {
        WinChild { wait_started: false, task: None }
    }

    /// Whether the child has ended, and how.  There is no reply where the
    /// process could not be reached.
    pub fn try_wait(&self, reply: Result<CompletionReply, IoError>) -> (r: Result<
        Option<ExitStatus>,
        IoError,
    >)
        ensures
            status_result(r) == reply_result(reply),
    {
        is_complete(reply)
    }

    /// The task with the number `asking` asks; `completion` says whether the
    /// child has ended.
    pub fn poll(
        &mut self,
        completion: Result<Option<ExitStatus>, IoError>,
        asking: usize,
    ) -> (r: PollStep)
        ensures
            r@ == poll_step(old(self)@.wait_started, status_result(completion)),
            final(self)@ == (WinChildView {
                wait_started: started_after(old(self)@.wait_started, status_result(completion)),
                task: task_after(old(self)@.task, status_result(completion), asking),
            }),
    {
        match completion {
            Ok(Some(status)) => PollStep::Ready(Ok(status)),
            Err(error) => PollStep::Ready(Err(Error::Io(error))),
            Ok(None) => {
                let start_waiter = !self.wait_started;
                self.wait_started = true;
                self.task = Some(asking);
                PollStep::Pending { start_waiter }
            },
        }
    }

    /// The child has ended: gives the task to wake, once.
    pub fn child_ended(&mut self) -> (r: Option<usize>)
        ensures
            (r, final(self)@) == woken(old(self)@),
    {
        let task = self.task;
        self.task = None;
        task
    }
}

/// What tasks get that ask one after the other.
pub open spec fn poll_steps(
    wait_started: bool,
    completions: Seq<Result<Option<ExitStatusView>, IoErrorView>>,
) -> Seq<PollStepView>
    decreases completions.len(),
{
    if completions.len() == 0 {
        seq![]
    } else {
        seq![poll_step(wait_started, completions[0])] + poll_steps(
            started_after(wait_started, completions[0]),
            completions.drop_first(),
        )
    }
}

/// Each task that asks gets an answer, and where a waiter was started before,
/// none starts one.
proof fn lemma_poll_steps(
    wait_started: bool,
    completions: Seq<Result<Option<ExitStatusView>, IoErrorView>>,
    k: int,
)
    ensures
        poll_steps(wait_started, completions).len() == completions.len(),
        wait_started && 0 <= k < completions.len() ==> poll_steps(wait_started, completions)[k]
            != (PollStepView::Pending { start_waiter: true }),
    decreases completions.len(),
{
    if completions.len() > 0 {
        lemma_poll_steps(
            started_after(wait_started, completions[0]),
            completions.drop_first(),
            k - 1,
        );
    }
}

/// However often tasks ask, at most one waiter is started.
pub proof fn one_waiter_is_started(
    wait_started: bool,
    completions: Seq<Result<Option<ExitStatusView>, IoErrorView>>,
    i: int,
    j: int,
)
    requires
        0 <= i < completions.len(),
        0 <= j < completions.len(),
        poll_steps(wait_started, completions)[i] == (PollStepView::Pending { start_waiter: true }),
        poll_steps(wait_started, completions)[j] == (PollStepView::Pending { start_waiter: true }),
    ensures
        i == j,
    decreases completions.len(),
{
    let rest = completions.drop_first();
    let started = started_after(wait_started, completions[0]);
    lemma_poll_steps(started, rest, i - 1);
    lemma_poll_steps(started, rest, j - 1);
    if i > 0 && j > 0 {
        one_waiter_is_started(started, rest, i - 1, j - 1);
    }
}

/// No task is left to wait for nothing: whenever one is told to, a waiter has
/// been started.
pub proof fn pending_has_a_waiter(
    wait_started: bool,
    completions: Seq<Result<Option<ExitStatusView>, IoErrorView>>,
    k: int,
)
    requires
        0 <= k < completions.len(),
        poll_steps(wait_started, completions)[k] is Pending,
    ensures
        wait_started || exists|i: int|
            0 <= i <= k && #[trigger] poll_steps(wait_started, completions)[i] == (
            PollStepView::Pending { start_waiter: true }),
    decreases completions.len(),
{
    let steps = poll_steps(wait_started, completions);
    let rest = completions.drop_first();
    let started = started_after(wait_started, completions[0]);
    lemma_poll_steps(started, rest, 0);
    if !wait_started {
        if started {
            assert(steps[0] == (PollStepView::Pending { start_waiter: true }));
        } else {
            if k > 0 {
                pending_has_a_waiter(started, rest, k - 1);
                let i = choose|i: int|
                    0 <= i <= k - 1 && #[trigger] poll_steps(started, rest)[i] == (
                    PollStepView::Pending { start_waiter: true });
                assert(steps[i + 1] == poll_steps(started, rest)[i]);
            }
        }
    }
}

/// The task to wake after tasks have asked one after the other, each with what
/// it was told of the child.
pub open spec fn task_after_all(
    task: Option<usize>,
    asked: Seq<(Result<Option<ExitStatusView>, IoErrorView>, usize)>,
) -> Option<usize>
    decreases asked.len(),
{
    if asked.len() == 0 {
        task
    } else {
        task_after(
            task_after_all(task, asked.drop_last()),
            asked.last().0,
            asked.last().1,
        )
    }
}

/// When the child ends, the task is woken that asked last while it ran, and it
/// is woken once: nobody is left to wake after that.
pub proof fn last_task_is_woken(
    task: Option<usize>,
    asked: Seq<(Result<Option<ExitStatusView>, IoErrorView>, usize)>,
    k: int,
    wait_started: bool,
)
    requires
        0 <= k < asked.len(),
        asked[k].0 == Ok::<Option<ExitStatusView>, IoErrorView>(None),
        forall|j: int|
            k < j < asked.len() ==> (#[trigger] asked[j]).0 != Ok::<
                Option<ExitStatusView>,
                IoErrorView,
            >(None),
    ensures
        task_after_all(task, asked) == Some(asked[k].1),
        woken(WinChildView { wait_started, task: task_after_all(task, asked) }) == (
            Some(asked[k].1),
            WinChildView { wait_started, task: None },
        ),
        woken(WinChildView { wait_started, task: None }).0 is None,
    decreases asked.len(),
{
    if k < asked.len() - 1 {
        assert(asked[asked.len() - 1].0 != Ok::<Option<ExitStatusView>, IoErrorView>(None));
        last_task_is_woken(task, asked.drop_last(), k, wait_started);
    }
}

} // verus!

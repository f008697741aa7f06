//! What the state machines of the crate make of answers that do not belong to
//! the question, and of answers after the end.
use vstd::prelude::*;
use vstd::utf8::{decode_utf8_encode_utf8, encode_utf8, valid_utf8};

use crate::cmdbuilder::BuilderView;
use crate::kill::{kill_next, KillEventView, KillStepView};
use crate::launch::{launch_query, launch_step, LaunchStanding};
use crate::lookup::{lookup_chooses, shell_found, shell_query, shell_start, shell_step, PasswdField,
    QueryView, ReplyView, ShellStanding, System};
use crate::search::{search_step, Answer, Probe, Request, Standing};
use crate::unix::{open_next, OpenEventView, OpenStepView};
use crate::win_child::{wait_next, WaitEventView, WaitStepView};
use crate::win_search::{win_step, WinRequest, WinStanding};

verus! {

/// Whether a reply is one to a question.
pub open spec fn replies_to(reply: ReplyView, query: QueryView) -> bool {
    reply is Passwd == query is Passwd
}

/// A launch stays where it is after a reply to another question than its own;
/// and at its end, where it has no question, after any.
pub proof fn launch_heeds_only_its_question(
    builder: BuilderView,
    path_text: Seq<char>,
    standing: LaunchStanding,
    reply: ReplyView,
)
    ensures
        launch_query(builder, path_text, standing) matches Some(query) && !replies_to(reply, query)
            ==> launch_step(builder, path_text, standing, reply) == standing,
        standing is Ready || standing is Failed ==> launch_query(builder, path_text, standing)
            is None && launch_step(builder, path_text, standing, reply) == standing,
{
}

/// A lookup of the shell stays where it is after a reply to another question
/// than its own; and when the shell is known, after any.
pub proof fn lookup_heeds_only_its_question(standing: ShellStanding, reply: ReplyView)
    ensures
        match shell_query(standing) {
            Some(query) => !replies_to(reply, query) ==> shell_step(standing, reply) == standing,
            None => standing is Known && shell_step(standing, reply) == standing,
        },
{
}

/// Without the environment, the shell is the one in the password database,
/// where that is text and may be executed, and else `/bin/sh`.
pub proof fn login_shell_is_looked_up(system: System)
    ensures
        shell_found(shell_start(None), system) matches ShellStanding::Known(shell) && encode_utf8(
            shell,
        ) == match (system.passwd)(PasswdField::Shell) {
            Some(login) => if valid_utf8(login) && (system.files)(Probe::Execute, login)
                == Answer::Yes {
                login
            } else {
                encode_utf8("/bin/sh"@)
            },
            None => encode_utf8("/bin/sh"@),
        },
{
    lookup_chooses(None, system);
    if let Some(login) = (system.passwd)(PasswdField::Shell) {
        if valid_utf8(login) {
            decode_utf8_encode_utf8(login);
        }
    }
}

/// Searches stay at their end.
pub proof fn searches_stay_at_their_end(
    request: Request,
    standing: Standing,
    answer: Answer,
    win_request: WinRequest,
    win_standing: WinStanding,
    found: Option<Seq<u8>>,
)
    ensures
        standing is Found || standing is Failed ==> search_step(request, standing, answer)
            == standing,
        win_standing is Found || win_standing is Unusable ==> win_step(
            win_request,
            win_standing,
            found,
        ) == win_standing,
{
}

/// A path at which the search on Windows finds something ends it.
pub proof fn what_is_found_ends_the_search(request: WinRequest, dir: int, ext: int, path: Seq<u8>)
    ensures
        win_step(request, WinStanding::Asking { dir, ext }, Some(path)) == WinStanding::Found(path),
{
}

/// A kill stays where it is after an event that does not belong to its step;
/// and when it is done, after any.
pub proof fn kill_heeds_only_its_step(step: KillStepView, event: KillEventView)
    ensures
        match (step, event) {
            (KillStepView::Hangup, KillEventView::Sent(_)) => true,
            (KillStepView::Pause { .. }, KillEventView::Paused) => true,
            (KillStepView::Poll { .. }, KillEventView::Polled(_)) => true,
            (KillStepView::Force, KillEventView::Sent(_)) => true,
            _ => kill_next(step, event) == step,
        },
{
}

/// An opening stays where it is after an event that does not belong to its
/// step; and at its end, after any.
pub proof fn opening_heeds_only_its_step(step: OpenStepView, event: OpenEventView)
    ensures
        match (step, event) {
            (OpenStepView::Open(_), OpenEventView::Opened(_)) => true,
            (OpenStepView::Name { .. }, OpenEventView::Named { .. }) => true,
            (OpenStepView::GetFlags { .. }, OpenEventView::Flags(_)) => true,
            (OpenStepView::SetFlags { .. }, OpenEventView::FlagsSet(_)) => true,
            _ => open_next(step, event) == step,
        },
{
}

/// A wait stays where it is after an event that does not belong to its step;
/// and when it is done, after any.
pub proof fn wait_heeds_only_its_step(step: WaitStepView, event: WaitEventView)
    ensures
        match (step, event) {
            (WaitStepView::Check, WaitEventView::Checked(_)) => true,
            (WaitStepView::Reach, WaitEventView::Reached(_)) => true,
            (WaitStepView::Block, WaitEventView::Ended) => true,
            (WaitStepView::Collect, WaitEventView::Collected(_, _)) => true,
            _ => wait_next(step, event) == step,
        },
{
}

} // verus!

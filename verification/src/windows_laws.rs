//! What a Windows process is started with and what becomes of it, told by
//! plain values.
use vstd::prelude::*;
use vstd::utf8::{encode_utf8, valid_utf8};

use crate::cmdbuilder::{env_value, BuilderView};
use crate::conpty::{DEFAULT_PSEUDOCONSOLE_FLAGS, PROC_THREAD_ATTRIBUTE_PSEUDOCONSOLE, S_OK};
use crate::env::{EnvEntryView, Listing};
use crate::error::{ErrorView, IoErrorView};
use crate::exit_status::ExitStatusView;
use crate::quoting::{argument_tail, backslashes, leading_backslashes, lemma_leading_backslashes,
    needs_quotes, quoted_arg, quoted_body};
use crate::wide::wide_units;
use crate::win_child::{completed, poll_steps, started_after, waiter_error, CompletionReply,
    PollStepView, WaiterFailure, SIGNALLED_CODE, TERMINATED_CODE};
use crate::win_launch::{block_entries, block_strings, comspec_of, create_failure, line_of,
    start_dir, trailing_args, wide_list, windows_plan_of};
use crate::win_search::{bare_extension, extensions_of};

verus! {

/// Whether a unit keeps an argument from standing on its own: a space, a tab,
/// a line feed, a vertical tab or a quote.
pub open spec fn parts_arguments(unit: u16) -> bool {
    unit == 32 || unit == 9 || unit == 10 || unit == 11 || unit == 34
}

/// Whether every quote in a row of units follows a backslash.
pub open spec fn quotes_are_escaped(units: Seq<u16>) -> bool {
    forall|i: int| 0 <= i < units.len() && #[trigger] units[i] == 34 ==> i > 0 && units[i - 1] == 92
}

/// An argument stands as it is, unless it is empty or holds something that
/// would part it.  Otherwise it stands between two quotes.
pub proof fn arguments_are_quoted_where_needed(arg: Seq<u16>)
    ensures
        arg.len() > 0 && (forall|i: int|
            0 <= i < arg.len() ==> !parts_arguments(#[trigger] arg[i])) ==> quoted_arg(arg) == arg,
        arg.len() == 0 || (exists|i: int|
            0 <= i < arg.len() && parts_arguments(#[trigger] arg[i])) ==> quoted_arg(arg)
            == seq![34u16] + quoted_body(arg) + seq![34u16],
{
    if arg.len() > 0 && (forall|i: int| 0 <= i < arg.len() ==> !parts_arguments(#[trigger] arg[i]))
    {
        assert(!needs_quotes(arg));
    }
    if exists|i: int| 0 <= i < arg.len() && parts_arguments(#[trigger] arg[i]) {
        let i = choose|i: int| 0 <= i < arg.len() && parts_arguments(#[trigger] arg[i]);
        assert(crate::quoting::needs_quotes_for(arg[i]));
        assert(needs_quotes(arg));
    }
}

/// Between the quotes, each quote of the argument follows a backslash, and an
/// argument without quotes and backslashes stands as it is.
pub proof fn quotes_are_escaped_inside(arg: Seq<u16>)
    ensures
        quotes_are_escaped(quoted_body(arg)),
        (forall|i: int| 0 <= i < arg.len() ==> #[trigger] arg[i] != 34 && arg[i] != 92)
            ==> quoted_body(arg) == arg,
    decreases arg.len(),
{
    let n = leading_backslashes(arg);
    let rest = arg.skip(n as int);
    lemma_leading_backslashes(arg);
    if rest.len() > 0 {
        let more = rest.drop_first();
        let body = quoted_body(more);
        quotes_are_escaped_inside(more);
        let front = if rest[0] == 34 {
            backslashes(2 * n + 1) + seq![34u16]
        } else {
            backslashes(n) + seq![rest[0]]
        };
        assert(quoted_body(arg) == front + body);
        assert forall|i: int| 0 <= i < (front + body).len() && #[trigger] (front + body)[i]
            == 34 implies i > 0 && (front + body)[i - 1] == 92 by {
            if i >= front.len() {
                assert(body[i - front.len()] == 34);
                assert(body[i - front.len() - 1] == 92);
            }
        }
        if forall|i: int| 0 <= i < arg.len() ==> #[trigger] arg[i] != 34 && arg[i] != 92 {
            if n > 0 {
                assert(arg.take(n as int)[0] == arg[0]);
                assert(arg[0] == 92);
            }
            assert forall|i: int| 0 <= i < more.len() implies #[trigger] more[i] != 34 && more[i]
                != 92 by {
                assert(more[i] == arg[i + 1]);
            }
            assert(backslashes(0) =~= seq![]);
            assert(front + body =~= arg);
        }
    } else if forall|i: int| 0 <= i < arg.len() ==> #[trigger] arg[i] != 34 && arg[i] != 92 {
        if n > 0 {
            assert(arg.take(n as int)[0] == arg[0]);
            assert(arg[0] == 92);
        }
        assert(quoted_body(arg) =~= arg);
    }
}

/// The command line begins with the program, whatever the command calls it,
/// and each argument is put behind it, after a space.
pub proof fn arguments_follow_the_program(exe: Seq<u8>, argv: Seq<Seq<u8>>, arg: Seq<u8>)
    ensures
        line_of(exe, seq![]) == quoted_arg(wide_units(exe)),
        line_of(exe, seq![arg]) == quoted_arg(wide_units(exe)),
        argv.len() > 0 ==> line_of(exe, argv.push(arg)) == line_of(exe, argv) + seq![32u16]
            + quoted_arg(wide_units(arg)),
{
    let none: Seq<Seq<u8>> = seq![];
    assert(wide_list(none) =~= seq![]);
    assert(trailing_args(seq![arg]) =~= none);
    assert(argument_tail(seq![]) =~= seq![]);
    assert(quoted_arg(wide_units(exe)) + Seq::<u16>::empty() =~= quoted_arg(wide_units(exe)));
    if argv.len() > 0 {
        let args = wide_list(trailing_args(argv));
        let more = wide_list(trailing_args(argv.push(arg)));
        assert(more =~= args.push(wide_units(arg)));
        assert(more.drop_last() =~= args);
        assert(line_of(exe, argv.push(arg)) =~= line_of(exe, argv) + seq![32u16] + quoted_arg(
            wide_units(arg),
        ));
    }
}

/// In an environment block each variable is a string of its name, an equals
/// sign and its value, and a zero ends it.
pub proof fn block_lists_the_variables(listing: Listing, key: Seq<u8>, entry: EnvEntryView)
    ensures
        ({
            let string = wide_units(entry.preferred_key) + seq![61u16] + wide_units(entry.value);
            &&& block_entries(seq![]) == Seq::<u16>::empty()
            &&& block_entries(listing.push((key, entry))) == block_entries(listing) + string
                + seq![0u16]
            &&& block_strings(listing.push((key, entry))) == block_strings(listing).push(string)
        }),
{
    let string = wide_units(entry.preferred_key) + seq![61u16] + wide_units(entry.value);
    let more = listing.push((key, entry));
    assert(more.drop_last() =~= listing);
    assert(block_entries(more) =~= block_entries(listing) + string + seq![0u16]);
    assert(block_strings(more) =~= block_strings(listing).push(string));
}

/// A process starts in the directory of its command where that is one, else in
/// the profile of the user where that is one, else where the caller is.
pub proof fn process_starts_somewhere(builder: BuilderView, home_is_dir: bool, cwd_is_dir: bool)
    ensures
        match start_dir(builder, home_is_dir, cwd_is_dir) {
            Some(dir) => (cwd_is_dir && builder.cwd == Some(dir)) || ((!cwd_is_dir || builder.cwd
                is None) && home_is_dir && env_value(builder, encode_utf8("USERPROFILE"@))
                == Some(dir)),
            None => (!cwd_is_dir || builder.cwd is None) && (!home_is_dir || env_value(
                builder,
                encode_utf8("USERPROFILE"@),
            ) is None),
        },
{
}

/// The plan for a process holds the program, the command line, the environment
/// and the directory, each with a zero at its end, and asks for an extended
/// start-up block and a Unicode environment.
pub proof fn windows_plan_is_complete(
    builder: BuilderView,
    exe: Seq<u8>,
    dir: Option<Seq<u8>>,
)
    ensures
        ({
            let plan = windows_plan_of(builder, exe, dir);
            &&& plan.program == wide_units(exe) + seq![0u16]
            &&& plan.line == line_of(exe, builder.argv) + seq![0u16]
            &&& plan.environment == block_entries(builder.env) + seq![0u16]
            &&& dir is None ==> plan.dir is None
            &&& forall|path: Seq<u8>|
                dir == Some(path) ==> plan.dir == Some(#[trigger] wide_units(path) + seq![0u16])
            &&& plan.flags == 0x0008_0400
        }),
{
    let plan = windows_plan_of(builder, exe, dir);
    assert(plan.program =~= wide_units(exe) + seq![0u16]);
    assert(plan.line =~= line_of(exe, builder.argv) + seq![0u16]);
    assert(plan.environment =~= block_entries(builder.env) + seq![0u16]);
    if let Some(path) = dir {
        assert(wide_units(path).push(0) =~= wide_units(path) + seq![0u16]);
    }
    assert(0x0008_0000u32 | 0x0000_0400u32 == 0x0008_0400u32) by (bit_vector);
}

/// Which program runs without one being named, which extensions are tried
/// without a list of them, and what is told of a process that was not started.
pub proof fn windows_defaults(
    builder: BuilderView,
    line: Seq<char>,
    dir: Seq<char>,
    error: Seq<char>,
)
    ensures
        match env_value(builder, encode_utf8("ComSpec"@)) {
            Some(path) => comspec_of(builder) == path,
            None => comspec_of(builder) == encode_utf8("cmd.exe"@),
        },
        match env_value(builder, encode_utf8("PATHEXT"@)) {
            Some(list) => extensions_of(builder) == list,
            None => extensions_of(builder) == encode_utf8(".EXE"@),
        },
        create_failure(line, dir, error) == ErrorView::Other(
            "CreateProcessW `"@ + line + "` in cwd `"@ + dir + "` failed: "@ + error,
        ),
{
}

/// An extension goes without its first character, which is one byte long; one
/// that is no text, or has no such character, is of no use.
pub proof fn extensions_lose_their_dot(extension: Seq<u8>, first: u8)
    ensures
        first < 128 && valid_utf8(seq![first] + extension) ==> bare_extension(
            seq![first] + extension,
        ) == Some(extension),
        first >= 128 || !valid_utf8(seq![first] + extension) ==> bare_extension(
            seq![first] + extension,
        ) is None,
        bare_extension(seq![]) is None,
{
    assert((seq![first] + extension).skip(1) =~= extension);
}

/// A process has ended with a code exactly where the system says that it has
/// ended and gives the code; no signal is told.
pub proof fn code_is_taken_at_the_end(reply: CompletionReply)
    ensures
        match completed(reply) {
            Some(status) => reply.ended && reply.exit.result != 0 && status.code == reply.exit.code
                && status.signal is None,
            None => !reply.ended || reply.exit.result == 0,
        },
        TERMINATED_CODE == 1,
        SIGNALLED_CODE == 127,
{
}

/// Every look at a child is answered by what was seen: its status, the error,
/// or that it still runs.
pub proof fn looks_are_answered(
    wait_started: bool,
    completions: Seq<Result<Option<ExitStatusView>, IoErrorView>>,
    k: int,
)
    requires
        0 <= k < completions.len(),
    ensures
        poll_steps(wait_started, completions).len() == completions.len(),
        match completions[k] {
            Ok(Some(status)) => poll_steps(wait_started, completions)[k] == PollStepView::Ready(
                Ok(status),
            ),
            Ok(None) => poll_steps(wait_started, completions)[k] is Pending,
            Err(error) => poll_steps(wait_started, completions)[k] == PollStepView::Ready(
                Err(ErrorView::Io(error)),
            ),
        },
    decreases completions.len(),
{
    let rest = completions.drop_first();
    let started = started_after(wait_started, completions[0]);
    if k > 0 {
        looks_are_answered(started, rest, k - 1);
        assert(poll_steps(wait_started, completions)[k] == poll_steps(started, rest)[k - 1]);
    } else if rest.len() > 0 {
        looks_are_answered(started, rest, 0);
    }
}

/// What kept a waiter from waiting is passed on.
pub proof fn failures_of_a_waiter_are_passed_on(failure: WaiterFailure)
    ensures
        failure matches WaiterFailure::Reach(error) ==> waiter_error(failure) == ErrorView::Io(
            error@,
        ),
        failure matches WaiterFailure::Poisoned(text) ==> waiter_error(failure)
            == ErrorView::Other(text@),
{
}

/// The numbers that Windows gives to what is asked of it here.
pub proof fn windows_numbers()
    ensures
        DEFAULT_PSEUDOCONSOLE_FLAGS == 7,
        S_OK == 0,
        PROC_THREAD_ATTRIBUTE_PSEUDOCONSOLE == 0x0002_0016,
{
    assert(1u32 | 2u32 | 4u32 == 7u32) by (bit_vector);
}

} // verus!

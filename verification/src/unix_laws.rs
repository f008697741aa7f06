//! How a child is killed, a pty opened and descriptors closed on Unix, step by
//! step.
use vstd::prelude::*;

use crate::error::{ErrorView, IoErrorView};
use crate::kill::{kill_steps, KillStepView, Victim, KILL_PAUSE_MILLIS};
use crate::pty::WinSize;
use crate::spawn::{fds_to_close, integer_text, only_standard_fds_stay};
use crate::unix::{master_read, open_next, tty_sizes, tty_step, until_zero, OpenEventView,
    OpenStepView, OpenedPtyView, TtyStanding};

verus! {

/// A look at the child.
pub open spec fn looked(attempt: nat) -> KillStepView {
    KillStepView::Poll { attempt }
}

/// A pause before a look at the child.
pub open spec fn paused(attempt: nat) -> KillStepView {
    KillStepView::Pause { attempt }
}

/// From a look at the child on, it is looked at again until it has ended, and
/// for the fifth time at most.
proof fn lemma_looks(victim: Victim, attempt: nat, k: nat)
    requires
        attempt <= k <= 5,
        attempt < 5,
        forall|i: nat| i < k ==> !(#[trigger] (victim.ended)(i)),
        k < 5 ==> (victim.ended)(k),
    ensures
        ({
            let steps = kill_steps(victim, KillStepView::Poll { attempt });
            &&& forall|j: nat|
                attempt <= j <= k && j < 5 ==> steps[2 * (j - attempt)] == (
                #[trigger] looked(j))
            &&& forall|j: nat|
                attempt < j <= k && j < 5 ==> steps[2 * (j - attempt) - 1] == (
                #[trigger] paused(j))
            &&& k < 5 ==> steps.len() == 2 * (k - attempt) + 2 && steps.last()
                == KillStepView::Done(Ok(()))
            &&& k == 5 ==> steps.len() == 2 * (4 - attempt) + 3 && steps[2 * (4 - attempt) + 1]
                == KillStepView::Force && steps.last() == KillStepView::Done(victim.force)
        }),
    decreases 5 - attempt,
{
    reveal_with_fuel(kill_steps, 4);
    let steps = kill_steps(victim, KillStepView::Poll { attempt });
    if attempt < k && attempt < 4 {
        let rest = kill_steps(victim, KillStepView::Poll { attempt: attempt + 1 });
        assert(!(victim.ended)(attempt));
        lemma_looks(victim, attempt + 1, k);
        assert(steps =~= seq![looked(attempt), paused(attempt + 1)] + rest);
        assert forall|j: nat| attempt <= j <= k && j < 5 implies steps[2 * (j - attempt)] == (
        #[trigger] looked(j)) by {
            if j > attempt {
                assert(steps[2 * (j - attempt)] == rest[2 * (j - attempt) - 2]);
            }
        }
        assert forall|j: nat| attempt < j <= k && j < 5 implies steps[2 * (j - attempt) - 1] == (
        #[trigger] paused(j)) by {
            if j > attempt + 1 {
                assert(steps[2 * (j - attempt) - 1] == rest[2 * (j - attempt) - 3]);
            }
        }
    } else if attempt == k {
        assert((victim.ended)(attempt));
        assert(steps =~= seq![looked(attempt), KillStepView::Done(Ok(()))]);
    } else {
        assert(!(victim.ended)(attempt));
        assert(steps =~= seq![
            looked(attempt),
            KillStepView::Force,
            KillStepView::Done(victim.force),
        ]);
    }
}

/// A child that took the hangup is looked at five times at most, with a pause
/// before each look but the first.  It is left alone at the look at which it
/// has ended, and killed only when it has not ended at the fifth.
pub proof fn child_is_looked_at_five_times(victim: Victim, k: nat)
    requires
        victim.hangup is Ok,
        k <= 5,
        forall|i: nat| i < k ==> !(#[trigger] (victim.ended)(i)),
        k < 5 ==> (victim.ended)(k),
    ensures
        ({
            let steps = kill_steps(victim, KillStepView::Hangup);
            &&& steps[0] == KillStepView::Hangup
            &&& forall|j: nat|
                j <= k && j < 5 ==> steps[2 * j as int + 1] == (#[trigger] looked(j))
            &&& forall|j: nat|
                0 < j <= k && j < 5 ==> steps[2 * j as int] == (#[trigger] paused(j))
            &&& k < 5 ==> steps.len() == 2 * k + 3 && steps.last() == KillStepView::Done(Ok(()))
            &&& k == 5 ==> steps.len() == 12 && steps[10] == KillStepView::Force && steps[11]
                == KillStepView::Done(victim.force)
        }),
{
    let steps = kill_steps(victim, KillStepView::Hangup);
    let rest = kill_steps(victim, KillStepView::Poll { attempt: 0 });
    lemma_looks(victim, 0, k);
    assert(steps =~= seq![KillStepView::Hangup] + rest);
    assert forall|j: nat| j <= k && j < 5 implies steps[2 * j as int + 1] == (#[trigger] looked(j)) by {
        assert(steps[2 * j as int + 1] == rest[2 * (j - 0)]);
    }
    assert forall|j: nat| 0 < j <= k && j < 5 implies steps[2 * j as int] == (#[trigger] paused(
        j,
    )) by {
        assert(steps[2 * j as int] == rest[2 * (j - 0) - 1]);
    }
}

/// A child that cannot be sent the hangup is left alone, and the error is
/// passed on.
pub proof fn refused_hangup_is_passed_on(victim: Victim, error: IoErrorView)
    requires
        victim.hangup == Err::<(), IoErrorView>(error),
    ensures
        kill_steps(victim, KillStepView::Hangup) == seq![
            KillStepView::Hangup,
            KillStepView::Done(Err(error)),
        ],
{
    reveal_with_fuel(kill_steps, 2);
}

/// The pause before a look takes fifty milliseconds.
pub proof fn pauses_are_short()
    ensures
        KILL_PAUSE_MILLIS == 50,
{
}

/// The master side of a pty ends, rather than fails, where the system reports
/// an input or output error; everything else that a read gives is passed on.
pub proof fn hangup_reads_as_the_end(result: Result<usize, IoErrorView>)
    ensures
        match result {
            Ok(_) => master_read(result) == result,
            Err(error) => if error.raw_os_error == Some(5i32) {
                master_read(result) == Ok::<usize, IoErrorView>(0)
            } else {
                master_read(result) == result
            },
        },
{
}

/// A string ends at its first zero.
pub proof fn string_ends_at_zero(bytes: Seq<u8>)
    ensures
        ({
            let text = until_zero(bytes);
            &&& text.len() <= bytes.len()
            &&& text == bytes.take(text.len() as int)
            &&& forall|i: int| 0 <= i < text.len() ==> #[trigger] bytes[i] != 0
            &&& text.len() < bytes.len() ==> bytes[text.len() as int] == 0
        }),
    decreases bytes.len(),
{
    let text = until_zero(bytes);
    if bytes.len() > 0 && bytes[0] != 0 {
        let rest = bytes.drop_first();
        string_ends_at_zero(rest);
        let more = until_zero(rest);
        assert(text =~= bytes.take(text.len() as int)) by {
            assert forall|i: int| 0 <= i < text.len() implies text[i] == bytes[i] by {
                if i > 0 {
                    assert(more[i - 1] == rest[i - 1]);
                }
            }
        }
        assert forall|i: int| 0 <= i < text.len() implies #[trigger] bytes[i] != 0 by {
            if i > 0 {
                assert(rest[i - 1] != 0);
            }
        }
        if text.len() < bytes.len() {
            assert(rest[more.len() as int] == 0);
        }
    } else {
        assert(text =~= bytes.take(0));
    }
}

/// A buffer that is too small for the name of a terminal is doubled, from 128
/// bytes on, until it is larger than 65536.
pub proof fn name_buffer_is_doubled()
    ensures
        tty_sizes(128) == seq![
            128nat,
            256,
            512,
            1024,
            2048,
            4096,
            8192,
            16384,
            32768,
            65536,
            131072,
        ],
{
    reveal_with_fuel(tty_sizes, 11);
}

/// The name of a terminal is known when the system has given it, is asked for
/// again with more room where there was too little, and is given up after any
/// other answer, or where there was too little room already in a buffer that
/// is larger than 65536 bytes.
pub proof fn terminal_is_named(size: nat, code: i32, buffer: Seq<u8>)
    ensures
        match tty_step(size, code, buffer) {
            TtyStanding::Known(Some(name)) => code == 0 && name == until_zero(buffer),
            TtyStanding::Known(None) => code != 0 && (code == 34 ==> size > 65536),
            TtyStanding::Ask(next) => code == 34 && size <= 65536 && next == size + size,
        },
{
}

/// Where the opening of a pty stands after some events.
pub open spec fn open_after(step: OpenStepView, events: Seq<OpenEventView>) -> OpenStepView
    decreases events.len(),
{
    if events.len() == 0 {
        step
    } else {
        open_after(open_next(step, events[0]), events.drop_first())
    }
}

/// A pty that was opened, whose terminal was named and whose descriptors could
/// be secured is ready, with those descriptors and that name.
pub proof fn opened_pty_is_ready(
    size: WinSize,
    fds: (i32, i32),
    code: i32,
    buffer: Seq<u8>,
    flags: (i32, i32),
)
    requires
        code != 34,
    ensures
        open_after(
            OpenStepView::Open(size),
            seq![
                OpenEventView::Opened(Ok(fds)),
                OpenEventView::Named { code, buffer },
                OpenEventView::Flags(Ok(flags.0)),
                OpenEventView::FlagsSet(Ok(())),
                OpenEventView::Flags(Ok(flags.1)),
                OpenEventView::FlagsSet(Ok(())),
            ],
        ) == OpenStepView::Ready(
            OpenedPtyView {
                master: fds.0,
                slave: fds.1,
                tty_name: if code == 0 {
                    Some(until_zero(buffer))
                } else {
                    None
                },
            },
        ),
{
    let events = seq![
        OpenEventView::Opened(Ok(fds)),
        OpenEventView::Named { code, buffer },
        OpenEventView::Flags(Ok(flags.0)),
        OpenEventView::FlagsSet(Ok(())),
        OpenEventView::Flags(Ok(flags.1)),
        OpenEventView::FlagsSet(Ok(())),
    ];
    assert(events.drop_first() =~= events.subrange(1, 6));
    assert(events.subrange(1, 6).drop_first() =~= events.subrange(2, 6));
    assert(events.subrange(2, 6).drop_first() =~= events.subrange(3, 6));
    assert(events.subrange(3, 6).drop_first() =~= events.subrange(4, 6));
    assert(events.subrange(4, 6).drop_first() =~= events.subrange(5, 6));
    assert(events.subrange(5, 6).drop_first() =~= seq![]);
    reveal_with_fuel(open_after, 7);
}

/// While the name is asked for again with more room, the descriptors stay.
pub proof fn more_room_keeps_the_pty(
    master: i32,
    slave: i32,
    size: nat,
    buffer: Seq<u8>,
)
    ensures
        open_next(
            OpenStepView::Name { master, slave, size },
            OpenEventView::Named { code: 34, buffer },
        ) == if size <= 65536 {
            OpenStepView::Name { master, slave, size: size + size }
        } else {
            OpenStepView::GetFlags {
                pty: OpenedPtyView { master, slave, tty_name: None },
                of_master: true,
            }
        },
{
}

/// A descriptor is secured by one more flag: all others stay as they were.
pub proof fn other_flags_are_written_back(
    pty: OpenedPtyView,
    of_master: bool,
    flags: i32,
    mask: i32,
)
    requires
        mask & 1 == 0,
    ensures
        open_next(
            OpenStepView::GetFlags { pty, of_master },
            OpenEventView::Flags(Ok(flags)),
        ) matches OpenStepView::SetFlags { pty: of, of_master: which, flags: written } && of == pty
            && which == of_master && written & 1 == 1 && written & mask == flags & mask,
{
    assert((flags | 1) & 1 == 1) by (bit_vector);
    assert(mask & 1 == 0 ==> (flags | 1) & mask == flags & mask) by (bit_vector);
}

/// The opening fails at the step that the system refuses, with its error, and
/// for no other reason.
pub proof fn refused_step_fails_the_opening(step: OpenStepView, event: OpenEventView)
    ensures
        !(step is Failed) ==> (open_next(step, event) is Failed <==> match (step, event) {
            (OpenStepView::Open(_), OpenEventView::Opened(Err(_))) => true,
            (OpenStepView::GetFlags { .. }, OpenEventView::Flags(Err(_))) => true,
            (OpenStepView::SetFlags { .. }, OpenEventView::FlagsSet(Err(_))) => true,
            _ => false,
        }),
        forall|error: IoErrorView|
            (step is Open && event == OpenEventView::Opened(Err(error))) || (step is GetFlags
                && event == OpenEventView::Flags(Err(error))) || (step is SetFlags && event
                == OpenEventView::FlagsSet(Err(error))) ==> open_next(step, event)
                == OpenStepView::Failed(ErrorView::Io(error)),
{
}

/// Of the descriptors that are named, those above two are closed, and none
/// else; in the order of their names.
pub proof fn descriptors_above_two_are_closed(names: Seq<Seq<u8>>, name: Seq<u8>, fd: int)
    ensures
        fds_to_close(names).contains(fd) <==> 2 < fd <= 0x7fff_ffff && exists|i: int|
            0 <= i < names.len() && integer_text(#[trigger] names[i]) == Some(fd),
        integer_text(name) == Some(fd) && 2 < fd <= 0x7fff_ffff ==> fds_to_close(names.push(name))
            == fds_to_close(names).push(fd),
{
    only_standard_fds_stay(names, fd);
    assert(names.push(name).drop_last() =~= names);
}

} // verus!

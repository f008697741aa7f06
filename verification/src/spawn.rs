//! Setting up a child between fork and exec.
use vstd::prelude::*;

use crate::cmdbuilder::{BuilderView, CommandBuilder};
use crate::os_string::{os_views, OsString};

verus! {

/// Signals whose handling a child starts with afresh.
#[derive(Debug, Clone, Copy, PartialEq, Eq, Structural)]
pub enum Signal {
    Child,
    Hangup,
    Interrupt,
    Quit,
    Terminate,
    Alarm,
}

/// Something that is done in the child.
#[derive(Debug, Clone, Copy, PartialEq, Eq, Structural)]
pub enum SetupStep {
    /// Handle a signal in the default way.
    DefaultSignal(Signal),
    /// Block no signals.
    UnblockSignals,
    /// Become the leader of a new session.
    NewSession,
    /// Make the pty the controlling terminal.
    ControllingTty,
    /// Close all file descriptors but standard input, output and error.
    CloseFds,
    /// Set the file mode mask.
    Umask(u32),
    /// Call what was registered under this number.
    Hook(usize),
}

/// Whether the child gives up when the step fails.
pub open spec fn is_vital(step: SetupStep) -> bool {
    match step {
        SetupStep::NewSession => true,
        SetupStep::ControllingTty => true,
        SetupStep::Hook(_) => true,
        _ => false,
    }
}

/// The steps that every child starts with.
pub open spec fn common_steps() -> Seq<SetupStep> {
    seq![
        SetupStep::DefaultSignal(Signal::Child),
        SetupStep::DefaultSignal(Signal::Hangup),
        SetupStep::DefaultSignal(Signal::Interrupt),
        SetupStep::DefaultSignal(Signal::Quit),
        SetupStep::DefaultSignal(Signal::Terminate),
        SetupStep::DefaultSignal(Signal::Alarm),
        SetupStep::UnblockSignals,
        SetupStep::NewSession,
    ]
}

/// The step that makes the pty the controlling terminal, where it is wanted.
pub open spec fn tty_steps(builder: BuilderView) -> Seq<SetupStep> {
    if builder.controlling_tty {
        seq![SetupStep::ControllingTty]
    } else {
        seq![]
    }
}

/// The step that sets the file mode mask, where one was given.
pub open spec fn umask_steps(builder: BuilderView) -> Seq<SetupStep> {
    match builder.umask {
        Some(mask) => seq![SetupStep::Umask(mask)],
        None => seq![],
    }
}

/// The calls that were registered, in that order.
pub open spec fn hook_steps(builder: BuilderView) -> Seq<SetupStep> {
    builder.hooks.map_values(|hook: usize| SetupStep::Hook(hook))
}

/// All steps in the child of a command, in order.
pub open spec fn setup_steps(builder: BuilderView) -> Seq<SetupStep> {
    common_steps() + tty_steps(builder) + seq![SetupStep::CloseFds] + umask_steps(builder)
        + hook_steps(builder)
}

/// Registered calls come last: everything that the library sets up in the
/// child has been done before the first of them.
pub proof fn hooks_run_last(builder: BuilderView, i: int, j: int)
    requires
        0 <= i < setup_steps(builder).len(),
        0 <= j < setup_steps(builder).len(),
        setup_steps(builder)[i] is Hook,
        !(setup_steps(builder)[j] is Hook),
    ensures
        j < i,
{
    let own = common_steps() + tty_steps(builder) + seq![SetupStep::CloseFds] + umask_steps(
        builder,
    );
    let steps = setup_steps(builder);
    assert(steps =~= own + hook_steps(builder));
    if i < own.len() {
        assert(steps[i] == own[i]);
        assert(!(own[i] is Hook));
    }
    if j >= own.len() {
        assert(steps[j] == hook_steps(builder)[j - own.len()]);
    }
}

/// Registered calls are made in the order in which they were registered, each
/// once.
pub proof fn hooks_run_in_order(builder: BuilderView, i: int)
    requires
        0 <= i < builder.hooks.len(),
    ensures
        ({
            let steps = setup_steps(builder);
            let first = steps.len() - builder.hooks.len();
            &&& steps[first + i] == SetupStep::Hook(builder.hooks[i])
            &&& forall|j: int| 0 <= j < first ==> !(#[trigger] steps[j] is Hook)
        }),
{
    let own = common_steps() + tty_steps(builder) + seq![SetupStep::CloseFds] + umask_steps(
        builder,
    );
    let steps = setup_steps(builder);
    assert(steps =~= own + hook_steps(builder));
    assert forall|j: int| 0 <= j < own.len() implies !(#[trigger] steps[j] is Hook) by {
        assert(steps[j] == own[j]);
    }
}

/// The place of a step in the order of things.
pub open spec fn place_of(step: SetupStep) -> int {
    match step {
        SetupStep::DefaultSignal(_) => 0,
        SetupStep::UnblockSignals => 1,
        SetupStep::NewSession => 2,
        SetupStep::ControllingTty => 3,
        SetupStep::CloseFds => 4,
        SetupStep::Umask(_) => 5,
        SetupStep::Hook(_) => 6,
    }
}

/// Which steps there are in the child of a command: every signal is handled in
/// the default way, signals are unblocked, a session is started and file
/// descriptors are closed, always; the pty becomes the controlling terminal
/// exactly when that is asked for, the mask is set exactly when one is given,
/// and exactly the registered calls are made.
pub proof fn child_steps_are_those_asked_for(builder: BuilderView, step: SetupStep)
    ensures
        setup_steps(builder).contains(step) <==> match step {
            SetupStep::DefaultSignal(_) => true,
            SetupStep::UnblockSignals => true,
            SetupStep::NewSession => true,
            SetupStep::ControllingTty => builder.controlling_tty,
            SetupStep::CloseFds => true,
            SetupStep::Umask(mask) => builder.umask == Some(mask),
            SetupStep::Hook(hook) => builder.hooks.contains(hook),
        },
{
    let steps = setup_steps(builder);
    let common = common_steps();
    let tty = tty_steps(builder);
    let close = seq![SetupStep::CloseFds];
    let umask = umask_steps(builder);
    let hooks = hook_steps(builder);
    let a = common.len() as int;
    let b = a + tty.len();
    let c = b + 1;
    let d = c + umask.len();
    assert(forall|i: int| 0 <= i < a ==> steps[i] == #[trigger] common[i]);
    assert(forall|i: int| 0 <= i < tty.len() ==> steps[a + i] == #[trigger] tty[i]);
    assert(steps[b] == SetupStep::CloseFds);
    assert(forall|i: int| 0 <= i < umask.len() ==> steps[c + i] == #[trigger] umask[i]);
    assert(forall|i: int| 0 <= i < hooks.len() ==> steps[d + i] == #[trigger] hooks[i]);
    match step {
        SetupStep::DefaultSignal(signal) => {
            assert(common[0] == SetupStep::DefaultSignal(Signal::Child));
            assert(common[1] == SetupStep::DefaultSignal(Signal::Hangup));
            assert(common[2] == SetupStep::DefaultSignal(Signal::Interrupt));
            assert(common[3] == SetupStep::DefaultSignal(Signal::Quit));
            assert(common[4] == SetupStep::DefaultSignal(Signal::Terminate));
            assert(common[5] == SetupStep::DefaultSignal(Signal::Alarm));
        },
        SetupStep::UnblockSignals => {
            assert(common[6] == step);
        },
        SetupStep::NewSession => {
            assert(common[7] == step);
        },
        SetupStep::ControllingTty => {
            if builder.controlling_tty {
                assert(tty[0] == step);
            }
        },
        SetupStep::CloseFds => {},
        SetupStep::Umask(mask) => {
            if builder.umask == Some(mask) {
                assert(umask[0] == step);
            }
        },
        SetupStep::Hook(hook) => {
            if builder.hooks.contains(hook) {
                let k = builder.hooks.index_of(hook);
                assert(hooks[k] == step);
            }
        },
    }
    if steps.contains(step) {
        let k = steps.index_of(step);
        if k < a {
            assert(steps[k] == common[k]);
        } else if k < b {
            assert(steps[k] == tty[k - a]);
        } else if k == b {
        } else if k < d {
            assert(steps[k] == umask[k - c]);
        } else {
            assert(steps[k] == hooks[k - d]);
            assert(builder.hooks[k - d] == step->Hook_0);
        }
    }
}

/// In what order the steps are done: signals first, then the session, the
/// controlling terminal, the file descriptors, the mask and the calls.  No step
/// but a signal or a call is done twice.
pub proof fn child_steps_are_in_order(builder: BuilderView, i: int, j: int)
    requires
        0 <= i < j < setup_steps(builder).len(),
    ensures
        place_of(setup_steps(builder)[i]) <= place_of(setup_steps(builder)[j]),
        place_of(setup_steps(builder)[i]) == place_of(setup_steps(builder)[j]) ==> (
        setup_steps(builder)[i] is DefaultSignal && setup_steps(builder)[i] != setup_steps(
            builder,
        )[j]) || setup_steps(builder)[i] is Hook,
{
    let steps = setup_steps(builder);
    let own = common_steps() + tty_steps(builder) + seq![SetupStep::CloseFds] + umask_steps(
        builder,
    );
    assert(steps =~= own + hook_steps(builder));
    assert(forall|k: int| own.len() <= k < steps.len() ==> #[trigger] steps[k] is Hook);
    assert(forall|k: int| 0 <= k < own.len() ==> #[trigger] steps[k] == own[k]);
}

/// The child gives up where no session can be started, where the pty cannot
/// become the controlling terminal, and where a registered call fails; no other
/// failure stops it.
pub proof fn child_gives_up_only_for_these(step: SetupStep)
    ensures
        is_vital(step) <==> place_of(step) == 2 || place_of(step) == 3 || place_of(step) == 6,
{
}

impl SetupStep {
    /// Whether the child gives up when the step fails.
    pub fn must_succeed(self) -> (r: bool)
        ensures
            r == is_vital(self),
    {
        match self {
            SetupStep::NewSession => true,
            SetupStep::ControllingTty => true,
            SetupStep::Hook(_) => true,
            _ => false,
        }
    }
}

/// All steps in the child of a command, in order.
pub fn child_setup(builder: &CommandBuilder) -> (r: Vec<SetupStep>)
    ensures
        r@ == setup_steps(builder@),
{
    let mut out: Vec<SetupStep> = Vec::new();
    out.push(SetupStep::DefaultSignal(Signal::Child));
    out.push(SetupStep::DefaultSignal(Signal::Hangup));
    out.push(SetupStep::DefaultSignal(Signal::Interrupt));
    out.push(SetupStep::DefaultSignal(Signal::Quit));
    out.push(SetupStep::DefaultSignal(Signal::Terminate));
    out.push(SetupStep::DefaultSignal(Signal::Alarm));
    out.push(SetupStep::UnblockSignals);
    out.push(SetupStep::NewSession);
    assert(out@ =~= common_steps());
    if builder.get_controlling_tty() {
        out.push(SetupStep::ControllingTty);
    }
    assert(out@ =~= common_steps() + tty_steps(builder@));
    out.push(SetupStep::CloseFds);
    if let Some(mask) = builder.get_umask() {
        out.push(SetupStep::Umask(mask));
    }
    let ghost own = common_steps() + tty_steps(builder@) + seq![SetupStep::CloseFds]
        + umask_steps(builder@);
    assert(out@ =~= own);
    let hooks = builder.hooks();
    let ghost all = hook_steps(builder@);
    assert(out@ =~= own + all.take(0));
    for i in 0..hooks.len()
        invariant
            hooks@ == builder@.hooks,
            all == hook_steps(builder@),
            out@ == own + all.take(i as int),
    {
        out.push(SetupStep::Hook(hooks[i]));
        assert(all.take(i + 1) =~= all.take(i as int).push(all[i as int]));
        assert(out@ =~= own + all.take(i + 1));
    }
    assert(all.take(hooks@.len() as int) =~= all);
    out
}

/// The lowest file descriptor that is closed in a child.
pub const FIRST_CLOSED_FD: u32 = 3;

/// Whether a byte is a decimal digit.
pub open spec fn is_digit(byte: u8) -> bool {
    48 <= byte <= 57
}

/// The number that digits stand for.
pub open spec fn digits_value(digits: Seq<u8>) -> nat
    decreases digits.len(),
{
    if digits.len() == 0 {
        0
    } else {
        digits_value(digits.drop_last()) * 10 + (digits.last() - 48) as nat
    }
}

/// Whether bytes are digits, and at least one.
pub open spec fn is_number(digits: Seq<u8>) -> bool {
    digits.len() > 0 && forall|i: int| 0 <= i < digits.len() ==> is_digit(#[trigger] digits[i])
}

/// The integer that a text stands for: digits, with a sign in front of them if
/// need be.
pub open spec fn integer_text(text: Seq<u8>) -> Option<int> {
    if text.len() > 0 && (text[0] == 43 || text[0] == 45) {
        let digits = text.drop_first();
        if is_number(digits) {
            Some(
                if text[0] == 45 {
                    -(digits_value(digits) as int)
                } else {
                    digits_value(digits) as int
                },
            )
        } else {
            None
        }
    } else if is_number(text) {
        Some(digits_value(text) as int)
    } else {
        None
    }
}

/// The file descriptor that a directory entry names, where it is one that is
/// to be closed.
pub open spec fn fd_to_close(name: Seq<u8>) -> Option<int> {
    match integer_text(name) {
        Some(fd) if FIRST_CLOSED_FD <= fd <= i32::MAX => Some(fd),
        _ => None,
    }
}

/// The file descriptors that directory entries name, where they are to be
/// closed.
pub open spec fn fds_to_close(names: Seq<Seq<u8>>) -> Seq<int>
    decreases names.len(),
{
    if names.len() == 0 {
        seq![]
    } else {
        let before = fds_to_close(names.drop_last());
        match fd_to_close(names.last()) {
            Some(fd) => before.push(fd),
            None => before,
        }
    }
}

/// More digits never make a smaller number.
proof fn lemma_digits_grow(digits: Seq<u8>, k: int)
    requires
        is_number(digits),
        0 <= k <= digits.len(),
    ensures
        digits_value(digits.take(k)) <= digits_value(digits),
    decreases digits.len() - k,
{
    if k < digits.len() {
        lemma_digits_grow(digits, k + 1);
        assert(is_digit(digits[k]));
        assert(digits.take(k + 1).drop_last() =~= digits.take(k));
    } else {
        assert(digits.take(k) =~= digits);
    }
}

/// The number that digits stand for, where it is one that fits.
fn parse_digits(bytes: &[u8], start: usize) -> (r: Option<u32>)
    requires
        start <= bytes@.len(),
    ensures
        match r {
            Some(value) => is_number(bytes@.skip(start as int)) && value == digits_value(
                bytes@.skip(start as int),
            ) && value <= i32::MAX,
            None => !is_number(bytes@.skip(start as int)) || digits_value(
                bytes@.skip(start as int),
            ) > i32::MAX,
        },
{
    let ghost digits = bytes@.skip(start as int);
    if start >= bytes.len() {
        return None;
    }
    let mut value: u32 = 0;
    assert(digits.take(0) =~= seq![]);
    for i in start..bytes.len()
        invariant
            start < bytes@.len(),
            digits == bytes@.skip(start as int),
            forall|j: int| 0 <= j < i - start ==> is_digit(#[trigger] digits[j]),
            value == digits_value(digits.take(i - start)),
            value <= i32::MAX,
    {
        let byte = bytes[i];
        assert(digits[i - start] == byte);
        if byte < 48 || byte > 57 {
            return None;
        }
        let wide: u64 = value as u64 * 10 + (byte - 48) as u64;
        assert(digits.take(i - start + 1).drop_last() =~= digits.take(i - start));
        assert(wide == digits_value(digits.take(i - start + 1)));
        if wide > 0x7fff_ffff {
            proof {
                if is_number(digits) {
                    lemma_digits_grow(digits, i - start + 1);
                }
            }
            return None;
        }
        value = wide as u32;
    }
    assert(digits.take(digits.len() as int) =~= digits);
    Some(value)
}

/// The file descriptor that a directory entry names, where it is one that is
/// to be closed.
fn parse_fd(name: &OsString) -> (r: Option<i32>)
    ensures
        match r {
            Some(fd) => fd_to_close(name@) == Some(fd as int),
            None => fd_to_close(name@) is None,
        },
{
    let bytes = name.as_bytes();
    if bytes.len() == 0 {
        return None;
    }
    assert(bytes@.skip(0) =~= bytes@);
    assert(bytes@.skip(1) =~= bytes@.drop_first());
    if bytes[0] == 45 {
        return None;
    }
    let start: usize = if bytes[0] == 43 { 1 } else { 0 };
    match parse_digits(bytes, start) {
        Some(value) => if value >= FIRST_CLOSED_FD {
            Some(value as i32)
        } else {
            None
        },
        None => None,
    }
}

/// The numbers in a list of file descriptors.
pub open spec fn fd_values(fds: Seq<i32>) -> Seq<int> {
    fds.map_values(|fd: i32| fd as int)
}

/// The file descriptors to close, from the names of the entries of a directory
/// that lists the open ones.
pub fn fds_from_names(names: &Vec<OsString>) -> (r: Vec<i32>)
    ensures
        fd_values(r@) == fds_to_close(os_views(names@)),
{
    let mut out: Vec<i32> = Vec::new();
    assert(fd_values(out@) =~= seq![]);
    for i in 0..names.len()
        invariant
            fd_values(out@) == fds_to_close(os_views(names@).take(i as int)),
    {
        let ghost before = out@;
        proof {
            let all = os_views(names@);
            assert(all.take(i + 1).drop_last() =~= all.take(i as int));
            assert(all.take(i + 1).last() == names@[i as int]@);
        }
        if let Some(fd) = parse_fd(&names[i]) {
            out.push(fd);
            assert(fd_values(out@) =~= fd_values(before).push(fd as int));
        }
    }
    assert(os_views(names@).take(names@.len() as int) =~= os_views(names@));
    out
}

/// Standard input, output and error stay open in a child, and nothing else
/// that was listed does.
pub proof fn only_standard_fds_stay(names: Seq<Seq<u8>>, fd: int)
    ensures
        fds_to_close(names).contains(fd) == (FIRST_CLOSED_FD <= fd <= i32::MAX && exists|i: int|
            0 <= i < names.len() && integer_text(#[trigger] names[i]) == Some(fd)),
    decreases names.len(),
{
    if names.len() > 0 {
        let front = names.drop_last();
        let before = fds_to_close(front);
        let all = fds_to_close(names);
        only_standard_fds_stay(front, fd);
        if all.contains(fd) {
            let k = all.index_of(fd);
            if k < before.len() {
                assert(before[k] == fd);
                let i = choose|i: int|
                    0 <= i < front.len() && integer_text(#[trigger] front[i]) == Some(fd);
                assert(names[i] == front[i]);
            } else {
                assert(integer_text(names[names.len() - 1]) == Some(fd));
            }
        }
        if FIRST_CLOSED_FD <= fd <= i32::MAX && exists|i: int|
            0 <= i < names.len() && integer_text(#[trigger] names[i]) == Some(fd) {
            let i = choose|i: int|
                0 <= i < names.len() && integer_text(#[trigger] names[i]) == Some(fd);
            if i < front.len() {
                assert(front[i] == names[i]);
                let k = before.index_of(fd);
                assert(all[k] == fd);
            } else {
                assert(all.last() == fd);
            }
        }
    }
}

/// One more digit makes a number ten times as large, and adds the digit.
pub proof fn digit_extends_a_number(text: Seq<u8>, digit: u8)
    requires
        48 <= digit <= 57,
        text.len() > 0,
        integer_text(text) is Some,
    ensures
        text[0] != 45 ==> integer_text(text.push(digit)) == Some(
            integer_text(text)->0 * 10 + (digit - 48),
        ),
        text[0] == 45 ==> integer_text(text.push(digit)) == Some(
            integer_text(text)->0 * 10 - (digit - 48),
        ),
{
    let more = text.push(digit);
    assert(more.drop_last() =~= text);
    if text[0] == 43 || text[0] == 45 {
        let digits = text.drop_first();
        let longer = more.drop_first();
        assert(longer =~= digits.push(digit));
        assert(longer.drop_last() =~= digits);
        assert(is_number(longer));
    } else {
        assert(is_number(more));
    }
}

/// A single digit is its own number, alone or behind a sign; and what holds
/// anything but digits behind the front is no number.
pub proof fn digits_make_numbers(digit: u8, text: Seq<u8>, k: int)
    requires
        48 <= digit <= 57,
    ensures
        integer_text(seq![digit]) == Some(digit - 48),
        integer_text(seq![43u8, digit]) == Some(digit - 48),
        integer_text(seq![45u8, digit]) == Some(48 - digit),
        integer_text(seq![]) is None,
        0 <= k < text.len() && !(48 <= text[k] <= 57) && (k > 0 || text.len() == 1 || (text[0]
            != 43 && text[0] != 45)) ==> integer_text(text) is None,
{
    let one = seq![digit];
    assert(one.drop_last() =~= seq![]);
    assert(is_number(one));
    assert(digits_value(one) == digit - 48) by {
        reveal_with_fuel(digits_value, 2);
    }
    assert(seq![43u8, digit].drop_first() =~= one);
    assert(seq![45u8, digit].drop_first() =~= one);
    if 0 <= k < text.len() && !(48 <= text[k] <= 57) {
        if text[0] == 43 || text[0] == 45 {
            if k > 0 {
                assert(text.drop_first()[k - 1] == text[k]);
            } else if text.len() == 1 {
                assert(text.drop_first().len() == 0);
            }
        } else {
            assert(!is_digit(text[k]));
        }
    }
}

} // verus!

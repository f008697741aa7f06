//! Working with ptys on Unix.
use vstd::prelude::*;

use crate::error::{Error, ErrorView, IoError, IoErrorView};
use crate::foreign::{eio, erange, fd_cloexec, EIO, ERANGE, FD_CLOEXEC};
use crate::os_string::OsString;
use crate::pty::{size_of_winsize, winsize_of, PtySize, WinSize};

verus! {

/// What a read came to.
pub open spec fn read_view(result: Result<usize, IoError>) -> Result<usize, IoErrorView> {
    match result {
        Ok(size) => Ok(size),
        Err(error) => Err(error@),
    }
}

/// What a read from the master means: a failed transfer is the end of input.
pub open spec fn master_read(result: Result<usize, IoErrorView>) -> Result<usize, IoErrorView> {
    match result {
        Err(error) if error.raw_os_error == Some(EIO) => Ok(0),
        _ => result,
    }
}

/// What a read from the master means.
pub fn read_result(result: Result<usize, IoError>) -> (r: Result<usize, IoError>)
    ensures
        read_view(r) == master_read(read_view(result)),
{
    match result {
        Ok(size) => Ok(size),
        Err(error) => {
            if let Some(code) = error.raw_os_error {
                if code == eio() {
                    return Ok(0);
                }
            }
            Err(error)
        },
    }
}

/// What a system call came to that returns zero where it succeeds; otherwise
/// `last_error` is why it failed.
pub fn zero_is_success(result: i32, last_error: IoError) -> (r: Result<(), IoError>)
    ensures
        match r {
            Ok(_) => result == 0,
            Err(error) => result != 0 && error@ == last_error@,
        },
{
    if result != 0 {
        Err(last_error)
    } else {
        Ok(())
    }
}

/// What a system call came to that returns minus one where it fails, and
/// something of use otherwise; `last_error` is why it failed.
pub fn minus_one_is_failure(result: i32, last_error: IoError) -> (r: Result<i32, IoError>)
    ensures
        match r {
            Ok(value) => result != -1 && value == result,
            Err(error) => result == -1 && error@ == last_error@,
        },
{
    if result == -1 {
        Err(last_error)
    } else {
        Ok(result)
    }
}

/// What setting the size of a pty came to.
pub fn resized(result: i32, last_error: IoError) -> (r: Result<(), Error>)
    ensures
        match r {
            Ok(_) => result == 0,
            Err(error) => result != 0 && error@ == ErrorView::Io(last_error@),
        },
{
    match zero_is_success(result, last_error) {
        Ok(_) => Ok(()),
        Err(error) => Err(Error::Io(error)),
    }
}

/// What asking for the size of a pty came to: `size` is what the kernel gave.
pub fn size_read(result: i32, size: WinSize, last_error: IoError) -> (r: Result<PtySize, Error>)
    ensures
        match r {
            Ok(read) => result == 0 && read == size_of_winsize(size),
            Err(error) => result != 0 && error@ == ErrorView::Io(last_error@),
        },
{
    match zero_is_success(result, last_error) {
        Ok(_) => Ok(size.to_pty_size()),
        Err(error) => Err(Error::Io(error)),
    }
}

/// The process group in the foreground, where the system gave one.
pub fn process_group_leader(pid: i32) -> (r: Option<i32>)
    ensures
        r == if pid > 0 {
            Some(pid)
        } else {
            None
        },
{
    if pid > 0 {
        Some(pid)
    } else {
        None
    }
}

/// What a writer sends when it is closed, so that the slave sees the end of
/// input: a line feed and the terminal's end-of-file character, unless the
/// terminal has none.
pub fn end_of_input(eof_char: u8) -> (r: Option<Vec<u8>>)
    ensures
        match r {
            Some(bytes) => eof_char != 0 && bytes@ == seq![10u8, eof_char],
            None => eof_char == 0,
        },
{
    if eof_char == 0 {
        return None;
    }
    let mut bytes: Vec<u8> = Vec::new();
    bytes.push(10);
    bytes.push(eof_char);
    assert(bytes@ =~= seq![10u8, eof_char]);
    Some(bytes)
}

/// The buffer size with which the name of a terminal is first asked for.
pub const TTY_NAME_FIRST: usize = 128;

/// The buffer size above which it is not asked for again.
pub const TTY_NAME_LIMIT: usize = 65536;

/// The bytes before the first zero.
pub open spec fn until_zero(bytes: Seq<u8>) -> Seq<u8>
    decreases bytes.len(),
{
    if bytes.len() == 0 || bytes[0] == 0 {
        seq![]
    } else {
        seq![bytes[0]] + until_zero(bytes.drop_first())
    }
}

/// Where asking for the name of a terminal stands.
pub enum TtyStanding {
    /// Ask with a buffer of this size.
    Ask(nat),
    /// This is the name, if there is one.
    Known(Option<Seq<u8>>),
}

/// Asking for the name of a terminal, after an answer.  While the buffer is
/// too small it is doubled, up to a limit.
pub open spec fn tty_step(size: nat, code: i32, buffer: Seq<u8>) -> TtyStanding {
    if code == ERANGE {
        if size > TTY_NAME_LIMIT {
            TtyStanding::Known(None)
        } else {
            TtyStanding::Ask(2 * size)
        }
    } else if code == 0 {
        TtyStanding::Known(Some(until_zero(buffer)))
    } else {
        TtyStanding::Known(None)
    }
}

/// The sizes that are asked with, from the given one on, while every buffer is
/// too small.
pub open spec fn tty_sizes(size: nat) -> Seq<nat>
    decreases if size == 0 || size > TTY_NAME_LIMIT { 0 } else { 1 + 2 * TTY_NAME_LIMIT - size },
{
    match tty_step(size, ERANGE, seq![]) {
        TtyStanding::Ask(next) if size > 0 => seq![size] + tty_sizes(next),
        _ => seq![size],
    }
}

/// The name of a terminal is asked for eleven times at most, and never with a
/// buffer of more than twice the limit.
pub proof fn tty_name_is_bounded(i: int)
    requires
        0 <= i < tty_sizes(TTY_NAME_FIRST as nat).len(),
    ensures
        tty_sizes(TTY_NAME_FIRST as nat).len() == 11,
        tty_sizes(TTY_NAME_FIRST as nat)[i] <= 2 * TTY_NAME_LIMIT,
{
    reveal_with_fuel(tty_sizes, 12);
    assert(tty_sizes(128) =~= seq![
        128nat,
        256nat,
        512nat,
        1024nat,
        2048nat,
        4096nat,
        8192nat,
        16384nat,
        32768nat,
        65536nat,
        131072nat,
    ]);
}

/// Asking for the name of a terminal.
#[derive(Debug)]
pub enum TtyName {
    Ask(usize),
    Known(Option<OsString>),
}

impl View for TtyName {
    type V = TtyStanding;

    open spec fn view(&self) -> TtyStanding {
        match self {
            TtyName::Ask(size) => TtyStanding::Ask(*size as nat),
            TtyName::Known(name) => TtyStanding::Known(
                match name {
                    Some(name) => Some(name@),
                    None => None,
                },
            ),
        }
    }
}

/// The bytes before the first zero.
fn c_string(buffer: &[u8]) -> (r: OsString)
    ensures
        r@ == until_zero(buffer@),
{
    let mut out: Vec<u8> = Vec::new();
    let mut i: usize = 0;
    assert(buffer@.skip(0) =~= buffer@);
    while i < buffer.len() && buffer[i] != 0
        invariant
            i <= buffer@.len(),
            until_zero(buffer@) == out@ + until_zero(buffer@.skip(i as int)),
        decreases buffer@.len() - i,
    {
        let ghost before = out@;
        let ghost left = buffer@.skip(i as int);
        out.push(buffer[i]);
        assert(left.drop_first() =~= buffer@.skip(i + 1));
        i += 1;
        assert(out@ + until_zero(buffer@.skip(i as int)) =~= before + until_zero(left));
    }
    assert(until_zero(buffer@.skip(i as int)) =~= seq![]);
    assert(out@ + until_zero(buffer@.skip(i as int)) =~= out@);
    OsString::from_bytes(out)
}

impl TtyName {
    /// Starts asking.
    pub fn start() -> (r: Self)
        ensures
            r@ == TtyStanding::Ask(TTY_NAME_FIRST as nat),
    {
        TtyName::Ask(TTY_NAME_FIRST)
    }

    /// Takes the answer that came with a buffer of the size asked with.
    pub fn answer(size: usize, code: i32, buffer: &[u8]) -> (r: Self)
        ensures
            r@ == tty_step(size as nat, code, buffer@),
    {
        if code == erange() {
            if size > TTY_NAME_LIMIT {
                TtyName::Known(None)
            } else {
                TtyName::Ask(size * 2)
            }
        } else if code == 0 {
            TtyName::Known(Some(c_string(buffer)))
        } else {
            TtyName::Known(None)
        }
    }
}

/// A pty that was opened.
#[derive(Debug)]
pub struct OpenedPty {
    /// The file descriptor of the master side.
    pub master: i32,
    /// The file descriptor of the slave side.
    pub slave: i32,
    /// The name of the slave's terminal, if it has one.
    pub tty_name: Option<OsString>,
}

/// What an [`OpenedPty`] holds.
pub struct OpenedPtyView {
    pub master: i32,
    pub slave: i32,
    pub tty_name: Option<Seq<u8>>,
}

impl View for OpenedPty {
    type V = OpenedPtyView;

    open spec fn view(&self) -> OpenedPtyView {
        OpenedPtyView {
            master: self.master,
            slave: self.slave,
            tty_name: match self.tty_name {
                Some(name) => Some(name@),
                None => None,
            },
        }
    }
}

/// What is to be done next to open a pty.
#[derive(Debug)]
pub enum OpenStep {
    /// Open a pair of file descriptors, with this size.
    Open(WinSize),
    /// Ask for the name of the slave's terminal with a buffer of this size.
    Name { master: i32, slave: i32, size: usize },
    /// Read the flags of the master, or of the slave.
    GetFlags { pty: OpenedPty, of_master: bool },
    /// Set the flags of the master, or of the slave.
    SetFlags { pty: OpenedPty, of_master: bool, flags: i32 },
    /// Nothing; the pty is open.
    Ready(OpenedPty),
    /// Nothing; this is the error.
    Failed(Error),
}

/// What an [`OpenStep`] says.
pub enum OpenStepView {
    Open(WinSize),
    Name { master: i32, slave: i32, size: nat },
    GetFlags { pty: OpenedPtyView, of_master: bool },
    SetFlags { pty: OpenedPtyView, of_master: bool, flags: i32 },
    Ready(OpenedPtyView),
    Failed(ErrorView),
}

impl View for OpenStep {
    type V = OpenStepView;

    open spec fn view(&self) -> OpenStepView {
        match self {
            OpenStep::Open(size) => OpenStepView::Open(*size),
            OpenStep::Name { master, slave, size } => OpenStepView::Name {
                master: *master,
                slave: *slave,
                size: *size as nat,
            },
            OpenStep::GetFlags { pty, of_master } => OpenStepView::GetFlags {
                pty: pty@,
                of_master: *of_master,
            },
            OpenStep::SetFlags { pty, of_master, flags } => OpenStepView::SetFlags {
                pty: pty@,
                of_master: *of_master,
                flags: *flags,
            },
            OpenStep::Ready(pty) => OpenStepView::Ready(pty@),
            OpenStep::Failed(error) => OpenStepView::Failed(error@),
        }
    }
}

/// What came of the step.
#[derive(Debug)]
pub enum OpenEvent {
    /// Master and slave were opened, or could not be.
    Opened(Result<(i32, i32), IoError>),
    /// The name was asked for: the system's code, and the buffer.
    Named { code: i32, buffer: Vec<u8> },
    /// The flags were read, or could not be.
    Flags(Result<i32, IoError>),
    /// The flags were set, or could not be.
    FlagsSet(Result<(), IoError>),
}

/// What an [`OpenEvent`] says.
pub enum OpenEventView {
    Opened(Result<(i32, i32), IoErrorView>),
    Named { code: i32, buffer: Seq<u8> },
    Flags(Result<i32, IoErrorView>),
    FlagsSet(Result<(), IoErrorView>),
}

impl View for OpenEvent {
    type V = OpenEventView;

    open spec fn view(&self) -> OpenEventView {
        match self {
            OpenEvent::Opened(result) => OpenEventView::Opened(
                match result {
                    Ok(fds) => Ok(*fds),
                    Err(error) => Err(error@),
                },
            ),
            OpenEvent::Named { code, buffer } => OpenEventView::Named {
                code: *code,
                buffer: buffer@,
            },
            OpenEvent::Flags(result) => OpenEventView::Flags(
                match result {
                    Ok(flags) => Ok(*flags),
                    Err(error) => Err(error@),
                },
            ),
            OpenEvent::FlagsSet(result) => OpenEventView::FlagsSet(
                match result {
                    Ok(_) => Ok(()),
                    Err(error) => Err(error@),
                },
            ),
        }
    }
}

/// The step after the name of the terminal was asked for.
pub open spec fn open_after_name(master: i32, slave: i32, standing: TtyStanding) -> OpenStepView {
    match standing {
        TtyStanding::Ask(size) => OpenStepView::Name { master, slave, size },
        TtyStanding::Known(tty_name) => OpenStepView::GetFlags {
            pty: OpenedPtyView { master, slave, tty_name },
            of_master: true,
        },
    }
}

/// The step after an event: the pair is opened, the name of its terminal is
/// found, and both file descriptors are set to be closed when a program is
/// run, the master first.  What fails ends it.  An event that does not belong
/// to the step changes nothing.
pub open spec fn open_next(step: OpenStepView, event: OpenEventView) -> OpenStepView {
    match (step, event) {
        (OpenStepView::Open(_), OpenEventView::Opened(result)) => match result {
            Ok((master, slave)) => OpenStepView::Name {
                master,
                slave,
                size: TTY_NAME_FIRST as nat,
            },
            Err(error) => OpenStepView::Failed(ErrorView::Io(error)),
        },
        (
            OpenStepView::Name { master, slave, size },
            OpenEventView::Named { code, buffer },
        ) => open_after_name(master, slave, tty_step(size, code, buffer)),
        (OpenStepView::GetFlags { pty, of_master }, OpenEventView::Flags(result)) => match result {
            Ok(flags) => OpenStepView::SetFlags { pty, of_master, flags: flags | FD_CLOEXEC },
            Err(error) => OpenStepView::Failed(ErrorView::Io(error)),
        },
        (
            OpenStepView::SetFlags { pty, of_master, .. },
            OpenEventView::FlagsSet(result),
        ) => match result {
            Ok(_) => if of_master {
                OpenStepView::GetFlags { pty, of_master: false }
            } else {
                OpenStepView::Ready(pty)
            },
            Err(error) => OpenStepView::Failed(ErrorView::Io(error)),
        },
        _ => step,
    }
}

/// Setting a file descriptor to be closed when a program is run leaves its
/// other flags alone.
pub proof fn cloexec_keeps_other_flags(flags: i32, mask: i32)
    requires
        mask & FD_CLOEXEC == 0,
    ensures
        (flags | FD_CLOEXEC) & FD_CLOEXEC == FD_CLOEXEC,
        (flags | FD_CLOEXEC) & mask == flags & mask,
{
    assert((flags | 1) & 1 == 1) by (bit_vector);
    assert((flags | 1) & mask == flags & mask) by (bit_vector)
        requires
            mask & 1 == 0,
    ;
}

/// Whether these are the steps of opening a pty, each but the first following
/// from the one before by some event.
pub open spec fn is_opening(steps: Seq<OpenStepView>) -> bool {
    &&& steps.len() > 0
    &&& steps[0] is Open
    &&& forall|k: int|
        0 < k < steps.len() ==> exists|event: OpenEventView|
            #[trigger] steps[k] == #[trigger] open_next(steps[k - 1], event)
}

/// Whether a step has the master, or the slave, closed when a program is run.
pub open spec fn secures(step: OpenStepView, pty: OpenedPtyView, of_master: bool) -> bool {
    step matches OpenStepView::SetFlags { pty: of, of_master: which, flags } && of == pty && which
        == of_master && flags & FD_CLOEXEC == FD_CLOEXEC
}

/// Whether one of the steps before `k` secures the master, or the slave.
pub open spec fn secured_before(
    steps: Seq<OpenStepView>,
    k: int,
    pty: OpenedPtyView,
    of_master: bool,
) -> bool {
    exists|i: int| 0 <= i < k && #[trigger] secures(steps[i], pty, of_master)
}

/// What has happened before a step of opening a pty.
proof fn lemma_opening(steps: Seq<OpenStepView>, k: int)
    requires
        is_opening(steps),
        0 <= k < steps.len(),
    ensures
        match steps[k] {
            OpenStepView::GetFlags { pty, of_master } => of_master || secured_before(
                steps,
                k,
                pty,
                true,
            ),
            OpenStepView::SetFlags { pty, of_master, .. } => secures(steps[k], pty, of_master) && (
            of_master || secured_before(steps, k, pty, true)),
            OpenStepView::Ready(pty) => secured_before(steps, k, pty, true) && secured_before(
                steps,
                k,
                pty,
                false,
            ),
            _ => true,
        },
    decreases k,
{
    if k > 0 {
        lemma_opening(steps, k - 1);
        let before = steps[k - 1];
        let event = choose|event: OpenEventView| steps[k] == open_next(before, event);
        assert(steps[k] == open_next(before, event));
        assert(forall|pty: OpenedPtyView, of_master: bool|
            secured_before(steps, k - 1, pty, of_master) ==> secured_before(
                steps,
                k,
                pty,
                of_master,
            ));
        match (before, event) {
            (OpenStepView::GetFlags { pty, of_master }, OpenEventView::Flags(Ok(flags))) => {
                assert((flags | 1) & 1 == 1) by (bit_vector);
            },
            (OpenStepView::SetFlags { pty, of_master, .. }, OpenEventView::FlagsSet(Ok(_))) => {
                assert(secures(steps[k - 1], pty, of_master));
            },
            _ => {},
        }
    }
}

/// A pty that was opened has both its file descriptors closed when a program
/// is run, so that none leaks into a child.
pub proof fn opened_pty_is_secured(steps: Seq<OpenStepView>, pty: OpenedPtyView)
    requires
        is_opening(steps),
        steps.last() == OpenStepView::Ready(pty),
    ensures
        secured_before(steps, steps.len() - 1, pty, true),
        secured_before(steps, steps.len() - 1, pty, false),
{
    lemma_opening(steps, steps.len() - 1);
}

impl OpenStep {
    /// Starts opening a pty of the given size.
    pub fn start(size: PtySize) -> (r: Self)
        ensures
            r@ == OpenStepView::Open(winsize_of(size)),
    {
        OpenStep::Open(size.to_winsize())
    }

    /// The step after an event.
    pub fn next(self, event: OpenEvent) -> (r: Self)
        ensures
            r@ == open_next(self@, event@),
    {
        match (self, event) {
            (OpenStep::Open(_), OpenEvent::Opened(result)) => match result {
                Ok((master, slave)) => OpenStep::Name { master, slave, size: TTY_NAME_FIRST },
                Err(error) => OpenStep::Failed(Error::Io(error)),
            },
            (OpenStep::Name { master, slave, size }, OpenEvent::Named { code, buffer }) => {
                match TtyName::answer(size, code, buffer.as_slice()) {
                    TtyName::Ask(size) => OpenStep::Name { master, slave, size },
                    TtyName::Known(tty_name) => OpenStep::GetFlags {
                        pty: OpenedPty { master, slave, tty_name },
                        of_master: true,
                    },
                }
            },
            (OpenStep::GetFlags { pty, of_master }, OpenEvent::Flags(result)) => match result {
                Ok(flags) => OpenStep::SetFlags { pty, of_master, flags: flags | fd_cloexec() },
                Err(error) => OpenStep::Failed(Error::Io(error)),
            },
            (OpenStep::SetFlags { pty, of_master, .. }, OpenEvent::FlagsSet(result)) => {
                match result {
                    Ok(_) => if of_master {
                        OpenStep::GetFlags { pty, of_master: false }
                    } else {
                        OpenStep::Ready(pty)
                    },
                    Err(error) => OpenStep::Failed(Error::Io(error)),
                }
            },
            (step, _) => step,
        }
    }
}

} // verus!

//! Pseudo consoles of Windows.
use vstd::prelude::*;

use crate::error::{Error, ErrorView, IoError};
use crate::pty::{signed_of, ConPtySystem, Coord, PtySize, WriterSlot};
use crate::text::concat;

verus! {

/// Start with the cursor where it is.
pub const PSEUDOCONSOLE_INHERIT_CURSOR: u32 = 0x1;

/// Do not draw everything anew when the size changes.
pub const PSEUDOCONSOLE_RESIZE_QUIRK: u32 = 0x2;

/// Take input in the form of Windows key events.
pub const PSEUDOCONSOLE_WIN32_INPUT_MODE: u32 = 0x4;

/// Let escape sequences pass as they are.
pub const PSEUDOCONSOLE_PASSTHROUGH_MODE: u32 = 0x8;

/// The flags of a pseudo console for which none are given: cursor, quirk and
/// input mode.
pub const DEFAULT_PSEUDOCONSOLE_FLAGS: u32 = PSEUDOCONSOLE_INHERIT_CURSOR
    | PSEUDOCONSOLE_RESIZE_QUIRK | PSEUDOCONSOLE_WIN32_INPUT_MODE;

/// The result of a call that succeeded.
pub const S_OK: i32 = 0;

/// The attribute by which a process gets its pseudo console.
pub const PROC_THREAD_ATTRIBUTE_PSEUDOCONSOLE: usize = 0x0002_0016;

/// What a call came to.
pub fn check_hresult(result: i32) -> (r: Result<(), Error>)
    ensures
        match r {
            Ok(_) => result == S_OK,
            Err(error) => result != S_OK && error@ == ErrorView::Hresult(result),
        },
{
    if result != S_OK {
        Err(Error::Hresult(result))
    } else {
        Ok(())
    }
}

/// What to ask for to make a pseudo console.
#[derive(Debug, Clone, Copy, PartialEq, Eq, Structural)]
pub struct PseudoCon {
    /// The size.
    pub size: Coord,
    /// The flags.
    pub flags: u32,
}

impl PseudoCon {
    /// A pseudo console with [`DEFAULT_PSEUDOCONSOLE_FLAGS`].
    pub fn new(size: Coord) -> (r: Self)
        ensures
            r == (PseudoCon { size, flags: DEFAULT_PSEUDOCONSOLE_FLAGS }),
    {
        Self::new_with_flags(size, DEFAULT_PSEUDOCONSOLE_FLAGS)
    }

    /// A pseudo console with the given flags.
    pub fn new_with_flags(size: Coord, flags: u32) -> (r: Self)
        ensures
            r == (PseudoCon { size, flags }),
    {
        PseudoCon { size, flags }
    }
}

/// What is known of a pseudo console: its size, and whether its writer was
/// given out.
#[derive(Debug)]
pub struct ConPtyState {
    size: PtySize,
    writer: WriterSlot,
}

/// What a [`ConPtyState`] holds.
pub struct ConPtyView {
    pub size: PtySize,
    pub writer_taken: bool,
}

impl View for ConPtyState {
    type V = ConPtyView;

    closed spec fn view(&self) -> ConPtyView {
        ConPtyView { size: self.size, writer_taken: self.writer@ }
    }
}

/// The size after an attempt to change it that had the given result.
pub open spec fn size_after(size: PtySize, wanted: PtySize, result: i32) -> PtySize {
    if result == S_OK {
        wanted
    } else {
        size
    }
}

impl ConPtyState {
    /// A pseudo console of the given size.
    pub fn new(size: PtySize) -> (r: Self)
        ensures
            r@ == (ConPtyView { size, writer_taken: false }),
    {
        ConPtyState { size, writer: WriterSlot::new() }
    }

    /// Takes note of an attempt to change the size: it counts if it succeeded.
    pub fn resize(&mut self, size: PtySize, result: i32) -> (r: Result<(), Error>)
        ensures
            final(self)@ == (ConPtyView {
                size: size_after(old(self)@.size, size, result),
                ..old(self)@
            }),
            match r {
                Ok(_) => result == S_OK,
                Err(error) => result != S_OK && error@ == ErrorView::Hresult(result),
            },
    {
        match check_hresult(result) {
            Ok(_) => {
                self.size = size;
                Ok(())
            },
            Err(error) => Err(error),
        }
    }

    /// The size.
    pub fn get_size(&self) -> (r: PtySize)
        ensures
            r == self@.size,
    {
        self.size
    }

    /// Takes the writer, which only succeeds the first time.
    pub fn take_writer(&mut self) -> (r: Result<(), Error>)
        ensures
            final(self)@ == (ConPtyView { writer_taken: true, ..old(self)@ }),
            match r {
                Ok(_) => !old(self)@.writer_taken,
                Err(error) => old(self)@.writer_taken && error@ == ErrorView::WriterAlreadyTaken,
            },
    {
        self.writer.take()
    }
}

impl ConPtySystem {
    /// What to ask for to open a pty of the given size, and what is known of
    /// it then.
    pub fn openpty(&self, size: PtySize) -> (r: (PseudoCon, ConPtyState))
        ensures
            r.0.size.x == signed_of(size.cols),
            r.0.size.y == signed_of(size.rows),
            r.0.flags == DEFAULT_PSEUDOCONSOLE_FLAGS,
            r.1@ == (ConPtyView { size, writer_taken: false }),
    {
        (PseudoCon::new(size.to_coord()), ConPtyState::new(size))
    }
}

/// The size after attempts to change it, each with its result.
pub open spec fn size_after_all(size: PtySize, attempts: Seq<(PtySize, i32)>) -> PtySize
    decreases attempts.len(),
{
    if attempts.len() == 0 {
        size
    } else {
        size_after(
            size_after_all(size, attempts.drop_last()),
            attempts.last().0,
            attempts.last().1,
        )
    }
}

/// The size is the one that was asked for last with success.
pub proof fn size_is_the_last_one_set(size: PtySize, attempts: Seq<(PtySize, i32)>, k: int)
    requires
        0 <= k < attempts.len(),
        attempts[k].1 == S_OK,
        forall|j: int| k < j < attempts.len() ==> (#[trigger] attempts[j]).1 != S_OK,
    ensures
        size_after_all(size, attempts) == attempts[k].0,
    decreases attempts.len(),
{
    if k < attempts.len() - 1 {
        assert(attempts[attempts.len() - 1].1 != S_OK);
        size_is_the_last_one_set(size, attempts.drop_last(), k);
    }
}

/// A size that was never changed with success stays.
pub proof fn size_stays(size: PtySize, attempts: Seq<(PtySize, i32)>)
    requires
        forall|j: int| 0 <= j < attempts.len() ==> (#[trigger] attempts[j]).1 != S_OK,
    ensures
        size_after_all(size, attempts) == size,
    decreases attempts.len(),
{
    if attempts.len() > 0 {
        assert(attempts[attempts.len() - 1].1 != S_OK);
        size_stays(size, attempts.drop_last());
    }
}

/// The storage of the attributes with which a process is made.
#[derive(Debug)]
pub struct ProcThreadAttributeList {
    data: Vec<u8>,
}

impl View for ProcThreadAttributeList {
    type V = Seq<u8>;

    closed spec fn view(&self) -> Seq<u8> {
        self.data@
    }
}

/// What an attempt to do something with the attributes came to, where
/// `problem` says what failed.
pub open spec fn attribute_failure(problem: Seq<char>, error: Seq<char>) -> ErrorView {
    ErrorView::Other(problem + error)
}

impl ProcThreadAttributeList {
    /// Storage of as many bytes as the system asks for, all of them zero.
    pub fn with_capacity(bytes_required: usize) -> (r: Self)
        ensures
            r@ == Seq::new(bytes_required as nat, |i: int| 0u8),
    {
        let mut data: Vec<u8> = Vec::new();
        for i in 0..bytes_required
            invariant
                data@ == Seq::new(i as nat, |j: int| 0u8),
        {
            data.push(0);
            assert(data@ =~= Seq::new((i + 1) as nat, |j: int| 0u8));
        }
        ProcThreadAttributeList { data }
    }

    /// The storage, for the system to write to.
    pub fn storage(&mut self) -> (r: &mut Vec<u8>)
        ensures
            r@ == old(self)@,
            final(self)@ == final(r)@,
    {
        &mut self.data
    }

    /// What initializing the storage came to; `result` is zero where it failed,
    /// and then `last_error` is why.
    pub fn initialized(result: i32, last_error: &IoError) -> (r: Result<(), Error>)
        ensures
            match r {
                Ok(_) => result != 0,
                Err(error) => result == 0 && error@ == attribute_failure(
                    "InitializeProcThreadAttributeList failed: "@,
                    last_error@.message,
                ),
            },
    {
        if result == 0 {
            Err(
                Error::Other(
                    concat(
                        "InitializeProcThreadAttributeList failed: ",
                        last_error.message.as_str(),
                    ),
                ),
            )
        } else {
            Ok(())
        }
    }

    /// What setting the pseudo console came to; `result` is zero where it
    /// failed, and then `last_error` is why.
    pub fn pty_set(result: i32, last_error: &IoError) -> (r: Result<(), Error>)
        ensures
            match r {
                Ok(_) => result != 0,
                Err(error) => result == 0 && error@ == attribute_failure(
                    "UpdateProcThreadAttribute failed: "@,
                    last_error@.message,
                ),
            },
    {
        if result == 0 {
            Err(
                Error::Other(
                    concat("UpdateProcThreadAttribute failed: ", last_error.message.as_str()),
                ),
            )
        } else {
            Ok(())
        }
    }
}

} // verus!

//! Sizes of ptys, systems of ptys, and who may write to one.
use vstd::prelude::*;

use crate::env::Platform;
use crate::error::{Error, ErrorView};

verus! {

/// The size of the visible display area in the pty.
#[derive(Debug, Clone, Copy, PartialEq, Eq, Structural)]
pub struct PtySize {
    /// The number of lines of text.
    pub rows: u16,
    /// The number of columns of text.
    pub cols: u16,
    /// The width of a cell in pixels.  Some systems never fill this value and
    /// ignore it.
    pub pixel_width: u16,
    /// The height of a cell in pixels.  Some systems never fill this value and
    /// ignore it.
    pub pixel_height: u16,
}

/// The size of a terminal as Unix kernels hold it.
#[derive(Debug, Clone, Copy, PartialEq, Eq, Structural)]
pub struct WinSize {
    pub ws_row: u16,
    pub ws_col: u16,
    pub ws_xpixel: u16,
    pub ws_ypixel: u16,
}

/// The size of a console as Windows holds it.
#[derive(Debug, Clone, Copy, PartialEq, Eq, Structural)]
pub struct Coord {
    pub x: i16,
    pub y: i16,
}

impl Default for PtySize {
    /// Twenty-four lines of eighty columns.
    fn default() -> (r: PtySize)
        ensures
            r == (PtySize { rows: 24, cols: 80, pixel_width: 0, pixel_height: 0 }),
    {
        PtySize { rows: 24, cols: 80, pixel_width: 0, pixel_height: 0 }
    }
}

/// The kernel's form of a size.
pub open spec fn winsize_of(size: PtySize) -> WinSize {
    WinSize {
        ws_row: size.rows,
        ws_col: size.cols,
        ws_xpixel: size.pixel_width,
        ws_ypixel: size.pixel_height,
    }
}

/// The size that the kernel's form stands for.
pub open spec fn size_of_winsize(winsize: WinSize) -> PtySize {
    PtySize {
        rows: winsize.ws_row,
        cols: winsize.ws_col,
        pixel_width: winsize.ws_xpixel,
        pixel_height: winsize.ws_ypixel,
    }
}

/// Sixteen bits read as a signed number.
pub open spec fn signed_of(n: u16) -> int {
    if n < 0x8000 {
        n as int
    } else {
        n - 0x10000
    }
}

/// What the kernel keeps of a size is read back as that size.
pub proof fn size_survives_kernel(size: PtySize, winsize: WinSize)
    ensures
        size_of_winsize(winsize_of(size)) == size,
        winsize_of(size_of_winsize(winsize)) == winsize,
{
}

/// Sixteen bits read as a signed number.
fn as_signed(n: u16) -> (r: i16)
    ensures
        r == signed_of(n),
{
    if n < 0x8000 {
        n as i16
    } else {
        (n as i32 - 0x10000) as i16
    }
}

impl PtySize {
    /// The kernel's form of the size.
    pub fn to_winsize(self) -> (r: WinSize)
        ensures
            r == winsize_of(self),
    {
        WinSize {
            ws_row: self.rows,
            ws_col: self.cols,
            ws_xpixel: self.pixel_width,
            ws_ypixel: self.pixel_height,
        }
    }

    /// The size of a console with so many columns and lines.
    pub fn to_coord(self) -> (r: Coord)
        ensures
            r.x == signed_of(self.cols),
            r.y == signed_of(self.rows),
    {
        Coord { x: as_signed(self.cols), y: as_signed(self.rows) }
    }
}

impl WinSize {
    /// The size that the kernel's form stands for.
    pub fn to_pty_size(self) -> (r: PtySize)
        ensures
            r == size_of_winsize(self),
    {
        PtySize {
            rows: self.ws_row,
            cols: self.ws_col,
            pixel_width: self.ws_xpixel,
            pixel_height: self.ws_ypixel,
        }
    }
}

/// The ptys of Unix.
#[derive(Debug, Clone, Copy, PartialEq, Eq, Structural)]
pub struct UnixPtySystem {}

/// The pseudo consoles of Windows.
#[derive(Debug, Clone, Copy, PartialEq, Eq, Structural)]
pub struct ConPtySystem {}

impl Default for UnixPtySystem {
    fn default() -> (r: UnixPtySystem)
        ensures
            r == (UnixPtySystem {  }),
    {
        UnixPtySystem {  }
    }
}

impl Default for ConPtySystem {
    fn default() -> (r: ConPtySystem)
        ensures
            r == (ConPtySystem {  }),
    {
        ConPtySystem {  }
    }
}

/// The ptys that come with the platform.
#[derive(Debug, Clone, Copy, PartialEq, Eq, Structural)]
pub enum NativePtySystem {
    Unix(UnixPtySystem),
    Windows(ConPtySystem),
}

/// The ptys that come with a platform.
pub fn native_pty_system(platform: Platform) -> (r: NativePtySystem)
    ensures
        r == match platform {
            Platform::Unix => NativePtySystem::Unix(UnixPtySystem {  }),
            Platform::Windows => NativePtySystem::Windows(ConPtySystem {  }),
        },
{
    match platform {
        Platform::Unix => NativePtySystem::Unix(UnixPtySystem::default()),
        Platform::Windows => NativePtySystem::Windows(ConPtySystem::default()),
    }
}

/// What a request for the writer comes to.
pub enum WriterAnswer {
    /// The writer is given out.
    Given,
    /// There was no writer to give out, as making one failed.
    Failed,
    /// The writer was given out before.
    Refused,
}

/// What a request for the writer comes to, where `taken` says whether it was
/// given out before, and `made` whether a writer can be made.
pub open spec fn writer_answer(taken: bool, made: bool) -> WriterAnswer {
    if taken {
        WriterAnswer::Refused
    } else if made {
        WriterAnswer::Given
    } else {
        WriterAnswer::Failed
    }
}

/// Whether the writer counts as taken after a request: it does once it was
/// given out, and not where making one failed.
pub open spec fn taken_after(taken: bool, made: bool) -> bool {
    taken || made
}

/// The right to write to a pty, which is given out once.
#[derive(Debug)]
pub struct WriterSlot {
    taken: bool,
}

impl View for WriterSlot {
    type V = bool;

    /// Whether the writer has been given out.
    closed spec fn view(&self) -> bool {
        self.taken
    }
}

impl WriterSlot {
    /// The slot of a new pty.
    pub fn new() -> (r: Self)
        ensures
            !r@,
    {
        WriterSlot { taken: false }
    }

    /// Whether the writer has been given out.
    pub fn is_taken(&self) -> (r: bool)
        ensures
            r == self@,
    {
        self.taken
    }

    /// Asks for the writer, which is refused once it was given out.  Whoever is
    /// not refused makes a writer and says by [`WriterSlot::record`] what came
    /// of it.
    pub fn request(&self) -> (r: Result<(), Error>)
        ensures
            match r {
                Ok(_) => !self@,
                Err(error) => self@ && error@ == ErrorView::WriterAlreadyTaken,
            },
    {
        if self.taken {
            Err(Error::WriterAlreadyTaken)
        } else {
            Ok(())
        }
    }

    /// Takes note of whether the writer could be made that was asked for.
    /// Where it could not be, it may be asked for again.
    pub fn record(&mut self, made: bool)
        ensures
            final(self)@ == taken_after(old(self)@, made),
    {
        if made {
            self.taken = true;
        }
    }

    /// Takes the writer, where it is at hand.
    pub fn take(&mut self) -> (r: Result<(), Error>)
        ensures
            final(self)@ == taken_after(old(self)@, true),
            match r {
                Ok(_) => writer_answer(old(self)@, true) is Given,
                Err(error) => writer_answer(old(self)@, true) is Refused && error@
                    == ErrorView::WriterAlreadyTaken,
            },
    {
        match self.request() {
            Ok(_) => {
                self.record(true);
                Ok(())
            },
            Err(error) => Err(error),
        }
    }
}

/// What requests for the writer come to, one after the other.
pub open spec fn writer_answers(taken: bool, made: Seq<bool>) -> Seq<WriterAnswer>
    decreases made.len(),
{
    if made.len() == 0 {
        seq![]
    } else {
        seq![writer_answer(taken, made[0])] + writer_answers(
            taken_after(taken, made[0]),
            made.drop_first(),
        )
    }
}

/// Each request has an answer.
proof fn lemma_writer_answers_len(taken: bool, made: Seq<bool>)
    ensures
        writer_answers(taken, made).len() == made.len(),
    decreases made.len(),
{
    if made.len() > 0 {
        lemma_writer_answers_len(taken_after(taken, made[0]), made.drop_first());
    }
}

/// However often the writer of a pty is asked for, a request is refused
/// exactly where the writer was given out before.  A request that failed
/// otherwise does not count.
pub proof fn writer_is_refused_once_given(taken: bool, made: Seq<bool>, i: int)
    requires
        0 <= i < made.len(),
    ensures
        writer_answers(taken, made).len() == made.len(),
        writer_answers(taken, made)[i] is Refused <==> taken || exists|j: int|
            0 <= j < i && #[trigger] writer_answers(taken, made)[j] is Given,
    decreases made.len(),
{
    lemma_writer_answers_len(taken, made);
    let answers = writer_answers(taken, made);
    let next = taken_after(taken, made[0]);
    let rest = writer_answers(next, made.drop_first());
    lemma_writer_answers_len(next, made.drop_first());
    assert(answers =~= seq![writer_answer(taken, made[0])] + rest);
    if i > 0 {
        writer_is_refused_once_given(next, made.drop_first(), i - 1);
        assert(answers[i] == rest[i - 1]);
        if !taken && made[0] {
            assert(answers[0] is Given);
        }
        if exists|j: int| 0 <= j < i - 1 && #[trigger] rest[j] is Given {
            let j = choose|j: int| 0 <= j < i - 1 && #[trigger] rest[j] is Given;
            assert(answers[j + 1] == rest[j]);
        }
        if !taken && exists|j: int| 0 <= j < i && #[trigger] answers[j] is Given {
            let j = choose|j: int| 0 <= j < i && #[trigger] answers[j] is Given;
            if j > 0 {
                assert(rest[j - 1] == answers[j]);
            }
        }
    }
}

/// However often the writer of a pty is asked for, it is given out at most
/// once.
pub proof fn writer_is_given_once(taken: bool, made: Seq<bool>, i: int, j: int)
    requires
        0 <= i < j < made.len(),
        writer_answers(taken, made)[i] is Given,
    ensures
        writer_answers(taken, made)[j] is Refused,
{
    writer_is_refused_once_given(taken, made, j);
}

} // verus!

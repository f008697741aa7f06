//! Terminals on serial ports.
//!
//! No process can be started at the other end of a serial port, so that only
//! the default program can be spawned on one.
use vstd::prelude::*;

use crate::cmdbuilder::{runs_default_prog, CommandBuilder};
use crate::env::Platform;
use crate::error::{Error, ErrorView, IoError, IoErrorKind, IoErrorView};
use crate::exit_status::{ExitStatus, ExitStatusView};
use crate::os_string::OsString;
use crate::pty::PtySize;
use crate::text::concat;
use crate::unix::read_view;

verus! {

/// The number of bits in a character.
#[derive(Debug, Clone, Copy, PartialEq, Eq, Structural)]
pub enum CharSize {
    Bits5,
    Bits6,
    Bits7,
    Bits8,
}

/// The parity bit of a character.
#[derive(Debug, Clone, Copy, PartialEq, Eq, Structural)]
pub enum Parity {
    NoParity,
    Odd,
    Even,
}

/// The number of stop bits after a character.
#[derive(Debug, Clone, Copy, PartialEq, Eq, Structural)]
pub enum StopBits {
    One,
    Two,
}

/// How either side holds the other one up.
#[derive(Debug, Clone, Copy, PartialEq, Eq, Structural)]
pub enum FlowControl {
    NoControl,
    XonXoff,
    RtsCts,
}

/// How long reading and writing may take, in milliseconds.
pub const TIMEOUT_MILLIS: u64 = 50;

/// The pause between two looks at the carrier, in seconds.
pub const CARRIER_PAUSE_SECS: u64 = 5;

/// A serial port and how to use it.
#[derive(Debug)]
pub struct SerialTty {
    port: OsString,
    baud: u32,
    char_size: CharSize,
    parity: Parity,
    stop_bits: StopBits,
    flow_control: FlowControl,
}

/// What a [`SerialTty`] holds.
pub struct SerialView {
    pub port: Seq<u8>,
    pub baud: u32,
    pub char_size: CharSize,
    pub parity: Parity,
    pub stop_bits: StopBits,
    pub flow_control: FlowControl,
}

impl View for SerialTty {
    type V = SerialView;

    closed spec fn view(&self) -> SerialView {
        SerialView {
            port: self.port@,
            baud: self.baud,
            char_size: self.char_size,
            parity: self.parity,
            stop_bits: self.stop_bits,
            flow_control: self.flow_control,
        }
    }
}

/// One thing to do to open a serial port.
#[derive(Debug, Clone, Copy, PartialEq, Eq, Structural)]
pub enum SerialStep {
    /// Open the port at this speed.
    Open(u32),
    /// Read the configuration of the port.
    ReadConfiguration,
    /// Let all bytes pass as they are, in the configuration that was read.
    SetRaw,
    /// Set the speed in that configuration.
    SetBaudRate(u32),
    /// Set the character size in that configuration.
    SetCharSize(CharSize),
    /// Set the flow control in that configuration.
    SetFlowControl(FlowControl),
    /// Set the parity in that configuration.
    SetParity(Parity),
    /// Set the stop bits in that configuration.
    SetStopBits(StopBits),
    /// Make that configuration the port's.
    WriteConfiguration,
    /// Set how long reading may take, in milliseconds.
    SetReadTimeout(u64),
    /// Set how long writing may take, in milliseconds.
    SetWriteTimeout(u64),
}

/// What is done to open a port, in order.
pub open spec fn serial_steps(serial: SerialView) -> Seq<SerialStep> {
    seq![
        SerialStep::Open(serial.baud),
        SerialStep::ReadConfiguration,
        SerialStep::SetRaw,
        SerialStep::SetBaudRate(serial.baud),
        SerialStep::SetCharSize(serial.char_size),
        SerialStep::SetFlowControl(serial.flow_control),
        SerialStep::SetParity(serial.parity),
        SerialStep::SetStopBits(serial.stop_bits),
        SerialStep::WriteConfiguration,
        SerialStep::SetReadTimeout(TIMEOUT_MILLIS),
        SerialStep::SetWriteTimeout(TIMEOUT_MILLIS),
    ]
}

/// The error of a port where a step failed; `port_text` names the port.
pub open spec fn serial_failure(
    step: SerialStep,
    port_text: Seq<char>,
    error: IoErrorView,
) -> ErrorView {
    match step {
        SerialStep::Open(_) => ErrorView::Other(
            "openpty on serial port "@ + port_text + ": "@ + error.message,
        ),
        _ => ErrorView::Io(error),
    }
}

impl SerialTty {
    /// The port with this name, for 9600 characters of eight bits a second,
    /// without parity, with one stop bit and with software flow control.
    pub fn new(port: OsString) -> (r: Self)
        ensures
            r@ == (SerialView {
                port: port@,
                baud: 9600,
                char_size: CharSize::Bits8,
                parity: Parity::NoParity,
                stop_bits: StopBits::One,
                flow_control: FlowControl::XonXoff,
            }),
    {
        SerialTty {
            port,
            baud: 9600,
            char_size: CharSize::Bits8,
            parity: Parity::NoParity,
            stop_bits: StopBits::One,
            flow_control: FlowControl::XonXoff,
        }
    }

    /// The name of the port.
    pub fn port(&self) -> (r: &OsString)
        ensures
            r@ == self@.port,
    {
        &self.port
    }

    /// Sets the speed.
    pub fn set_baud_rate(&mut self, baud: u32)
        ensures
            final(self)@ == (SerialView { baud, ..old(self)@ }),
    {
        self.baud = baud;
    }

    /// Sets the character size.
    pub fn set_char_size(&mut self, char_size: CharSize)
        ensures
            final(self)@ == (SerialView { char_size, ..old(self)@ }),
    {
        self.char_size = char_size;
    }

    /// Sets the parity.
    pub fn set_parity(&mut self, parity: Parity)
        ensures
            final(self)@ == (SerialView { parity, ..old(self)@ }),
    {
        self.parity = parity;
    }

    /// Sets the number of stop bits.
    pub fn set_stop_bits(&mut self, stop_bits: StopBits)
        ensures
            final(self)@ == (SerialView { stop_bits, ..old(self)@ }),
    {
        self.stop_bits = stop_bits;
    }

    /// Sets the flow control.
    pub fn set_flow_control(&mut self, flow_control: FlowControl)
        ensures
            final(self)@ == (SerialView { flow_control, ..old(self)@ }),
    {
        self.flow_control = flow_control;
    }

    /// What is done to open the port, in order.
    pub fn open_steps(&self) -> (r: Vec<SerialStep>)
        ensures
            r@ == serial_steps(self@),
    {
        let mut out: Vec<SerialStep> = Vec::new();
        out.push(SerialStep::Open(self.baud));
        out.push(SerialStep::ReadConfiguration);
        out.push(SerialStep::SetRaw);
        out.push(SerialStep::SetBaudRate(self.baud));
        out.push(SerialStep::SetCharSize(self.char_size));
        out.push(SerialStep::SetFlowControl(self.flow_control));
        out.push(SerialStep::SetParity(self.parity));
        out.push(SerialStep::SetStopBits(self.stop_bits));
        out.push(SerialStep::WriteConfiguration);
        out.push(SerialStep::SetReadTimeout(TIMEOUT_MILLIS));
        out.push(SerialStep::SetWriteTimeout(TIMEOUT_MILLIS));
        assert(out@ =~= serial_steps(self@));
        out
    }
}

impl SerialStep {
    /// The error of a port where this step failed; `port_text` names the port.
    pub fn failure(self, port_text: &str, error: IoError) -> (r: Error)
        ensures
            r@ == serial_failure(self, port_text@, error@),
    {
        match self {
            SerialStep::Open(_) => {
                let mut out = concat("openpty on serial port ", port_text);
                out.append(": ");
                out.append(error.message.as_str());
                Error::Other(out)
            },
            _ => Error::Io(error),
        }
    }
}

/// Whatever is at the other end of a serial port.
#[derive(Debug)]
pub struct SerialChild {}

/// Why nothing but the default program can be spawned on a serial port.
pub open spec fn no_program() -> ErrorView {
    ErrorView::Other("can only use default prog commands with serial tty implementations"@)
}

/// Spawns a command on a serial port, which has to be the default program.
pub fn spawn_on_serial(cmd: &CommandBuilder) -> (r: Result<SerialChild, Error>)
    ensures
        match r {
            Ok(_) => runs_default_prog(cmd@),
            Err(error) => !runs_default_prog(cmd@) && error@ == no_program(),
        },
{
    if !cmd.is_default_prog() {
        return Err(
            Error::other("can only use default prog commands with serial tty implementations"),
        );
    }
    Ok(SerialChild {  })
}

impl SerialChild {
    /// What is at the other end never ends as far as one can see at once.
    pub fn try_wait(&self) -> (r: Option<ExitStatus>)
        ensures
            r is None,
    {
        None
    }

    /// What waiting comes to after a look at the carrier: it goes on as long
    /// as that can be read.
    pub fn after_carrier(&self, readable: bool) -> (r: Option<ExitStatus>)
        ensures
            match r {
                Some(status) => !readable && status@ == (ExitStatusView { code: 1, signal: None }),
                None => readable,
            },
    {
        if readable {
            None
        } else {
            Some(ExitStatus::with_exit_code(1))
        }
    }

    /// What is at the other end is no process.
    pub fn process_id(&self) -> (r: Option<u32>)
        ensures
            r is None,
    {
        None
    }
}

/// The terminal of a serial port has no size of its own.
pub fn serial_size() -> (r: PtySize)
    ensures
        r == (PtySize { rows: 24, cols: 80, pixel_width: 0, pixel_height: 0 }),
{
    PtySize::default()
}

/// What becomes of an attempt to read.
#[derive(Debug)]
pub enum ReadStep {
    /// Try once more.
    Again,
    /// This is the result.
    Done(Result<usize, IoError>),
}

/// What a [`ReadStep`] says.
pub enum ReadStepView {
    Again,
    Done(Result<usize, IoErrorView>),
}

impl View for ReadStep {
    type V = ReadStepView;

    open spec fn view(&self) -> ReadStepView {
        match self {
            ReadStep::Again => ReadStepView::Again,
            ReadStep::Done(result) => ReadStepView::Done(read_view(*result)),
        }
    }
}

/// The end of a serial port.
pub open spec fn serial_eof() -> IoErrorView {
    IoErrorView {
        kind: IoErrorKind::UnexpectedEof,
        raw_os_error: None,
        message: "EOF on serial port"@,
    }
}

/// What becomes of an attempt to read from a serial port: to get nothing is an
/// error, but on Windows a timeout, and one that would block is repeated.
pub open spec fn serial_read(
    platform: Platform,
    result: Result<usize, IoErrorView>,
) -> ReadStepView {
    match result {
        Ok(size) => if size > 0 {
            ReadStepView::Done(Ok(size))
        } else if platform == Platform::Windows {
            ReadStepView::Again
        } else {
            ReadStepView::Done(Err(serial_eof()))
        },
        Err(error) => if error.kind == IoErrorKind::WouldBlock {
            ReadStepView::Again
        } else {
            ReadStepView::Done(Err(error))
        },
    }
}

/// What becomes of an attempt to read from a serial port.
pub fn after_serial_read(platform: Platform, result: Result<usize, IoError>) -> (r: ReadStep)
    ensures
        r@ == serial_read(platform, read_view(result)),
{
    match result {
        Ok(0) => match platform {
            Platform::Windows => ReadStep::Again,
            Platform::Unix => ReadStep::Done(
                Err(
                    IoError {
                        kind: IoErrorKind::UnexpectedEof,
                        raw_os_error: None,
                        message: "EOF on serial port".to_owned(),
                    },
                ),
            ),
        },
        Ok(size) => ReadStep::Done(Ok(size)),
        Err(error) => if error.kind == IoErrorKind::WouldBlock {
            ReadStep::Again
        } else {
            ReadStep::Done(Err(error))
        },
    }
}

/// What reading from a serial port comes to when the attempts have these
/// results, if that is settled.
pub open spec fn serial_reads(
    platform: Platform,
    results: Seq<Result<usize, IoErrorView>>,
) -> Option<Result<usize, IoErrorView>>
    decreases results.len(),
{
    if results.len() == 0 {
        None
    } else {
        match serial_read(platform, results[0]) {
            ReadStepView::Again => serial_reads(platform, results.drop_first()),
            ReadStepView::Done(result) => Some(result),
        }
    }
}

/// Whoever reads from a serial port gets bytes or an error that counts: never
/// nothing at all, and never an error that says to try again.
pub proof fn serial_read_is_something(
    platform: Platform,
    results: Seq<Result<usize, IoErrorView>>,
)
    ensures
        match serial_reads(platform, results) {
            Some(Ok(size)) => size > 0,
            Some(Err(error)) => error.kind != IoErrorKind::WouldBlock,
            None => true,
        },
    decreases results.len(),
{
    if results.len() > 0 {
        serial_read_is_something(platform, results.drop_first());
    }
}

/// Whether an attempt to read is repeated: on Windows when it brought nothing,
/// and anywhere when it would have had to wait.
pub open spec fn is_repeated(platform: Platform, result: Result<usize, IoErrorView>) -> bool {
    match result {
        Ok(size) => size == 0 && platform == Platform::Windows,
        Err(error) => error.kind == IoErrorKind::WouldBlock,
    }
}

/// The first attempt that is not repeated ends the reading.
proof fn lemma_first_settled(
    platform: Platform,
    results: Seq<Result<usize, IoErrorView>>,
    k: int,
)
    requires
        0 <= k < results.len(),
        forall|i: int| 0 <= i < k ==> is_repeated(platform, #[trigger] results[i]),
        !is_repeated(platform, results[k]),
    ensures
        serial_reads(platform, results) == match results[k] {
            Ok(size) => if size > 0 {
                Some(Ok::<usize, IoErrorView>(size))
            } else {
                Some(Err(serial_eof()))
            },
            Err(error) => Some(Err(error)),
        },
    decreases k,
{
    if k > 0 {
        assert(is_repeated(platform, results[0]));
        let rest = results.drop_first();
        assert forall|i: int| 0 <= i < k - 1 implies is_repeated(platform, #[trigger] rest[i]) by {
            assert(rest[i] == results[i + 1]);
        }
        lemma_first_settled(platform, rest, k - 1);
    }
}

/// Bytes are never thrown away: on either platform, the first attempt that
/// brings any ends the reading with that very count, whatever attempts were
/// repeated before it and whatever would come after it.
pub proof fn bytes_that_come_are_read(
    platform: Platform,
    results: Seq<Result<usize, IoErrorView>>,
    k: int,
    size: usize,
)
    requires
        0 <= k < results.len(),
        forall|i: int| 0 <= i < k ==> is_repeated(platform, #[trigger] results[i]),
        results[k] == Ok::<usize, IoErrorView>(size),
        size > 0,
    ensures
        serial_reads(platform, results) == Some(Ok::<usize, IoErrorView>(size)),
{
    lemma_first_settled(platform, results, k);
}

/// An error that does not mean to wait ends the reading as it is, and so does,
/// on Unix, an attempt that brings nothing: that is the end of the port.
pub proof fn failures_end_the_reading(
    platform: Platform,
    results: Seq<Result<usize, IoErrorView>>,
    k: int,
)
    requires
        0 <= k < results.len(),
        forall|i: int| 0 <= i < k ==> is_repeated(platform, #[trigger] results[i]),
    ensures
        forall|error: IoErrorView|
            results[k] == Err::<usize, IoErrorView>(error) && error.kind != IoErrorKind::WouldBlock
                ==> serial_reads(platform, results) == Some(Err::<usize, IoErrorView>(error)),
        results[k] == Ok::<usize, IoErrorView>(0) && platform == Platform::Unix ==> (
        serial_reads(platform, results) matches Some(Err(error)) && error.kind
            == IoErrorKind::UnexpectedEof && error.raw_os_error is None && error.message
            == "EOF on serial port"@),
{
    if !is_repeated(platform, results[k]) {
        lemma_first_settled(platform, results, k);
    }
}

/// While all attempts are to be repeated, the reading does not end.
pub proof fn repeated_attempts_do_not_end(
    platform: Platform,
    results: Seq<Result<usize, IoErrorView>>,
)
    requires
        forall|i: int| 0 <= i < results.len() ==> is_repeated(platform, #[trigger] results[i]),
    ensures
        serial_reads(platform, results) is None,
    decreases results.len(),
{
    if results.len() > 0 {
        assert(is_repeated(platform, results[0]));
        let rest = results.drop_first();
        assert forall|i: int| 0 <= i < rest.len() implies is_repeated(platform, #[trigger] rest[i])
            by {
            assert(rest[i] == results[i + 1]);
        }
        repeated_attempts_do_not_end(platform, rest);
    }
}

/// Whether one step comes before another.
pub open spec fn comes_before(steps: Seq<SerialStep>, first: SerialStep, second: SerialStep) -> bool {
    exists|i: int, j: int|
        0 <= i < j < steps.len() && #[trigger] steps[i] == first && #[trigger] steps[j] == second
}

/// A port is opened first, at its speed; then everything that was chosen for it
/// is set in the configuration that was read, before that is written back; and
/// reading and writing get their time limits.  Nothing else is done.
pub proof fn port_is_set_as_chosen(serial: SerialView)
    ensures
        ({
            let steps = serial_steps(serial);
            let settings = seq![
                SerialStep::SetRaw,
                SerialStep::SetBaudRate(serial.baud),
                SerialStep::SetCharSize(serial.char_size),
                SerialStep::SetFlowControl(serial.flow_control),
                SerialStep::SetParity(serial.parity),
                SerialStep::SetStopBits(serial.stop_bits),
            ];
            &&& steps.len() == 11
            &&& steps[0] == SerialStep::Open(serial.baud)
            &&& forall|k: int|
                0 <= k < settings.len() ==> comes_before(
                    steps,
                    SerialStep::ReadConfiguration,
                    #[trigger] settings[k],
                ) && comes_before(steps, settings[k], SerialStep::WriteConfiguration)
            &&& comes_before(steps, SerialStep::WriteConfiguration, SerialStep::SetReadTimeout(50))
            &&& comes_before(steps, SerialStep::WriteConfiguration, SerialStep::SetWriteTimeout(50))
        }),
{
    let steps = serial_steps(serial);
    assert(steps[1] == SerialStep::ReadConfiguration);
    assert(steps[2] == SerialStep::SetRaw);
    assert(steps[3] == SerialStep::SetBaudRate(serial.baud));
    assert(steps[4] == SerialStep::SetCharSize(serial.char_size));
    assert(steps[5] == SerialStep::SetFlowControl(serial.flow_control));
    assert(steps[6] == SerialStep::SetParity(serial.parity));
    assert(steps[7] == SerialStep::SetStopBits(serial.stop_bits));
    assert(steps[8] == SerialStep::WriteConfiguration);
    assert(steps[9] == SerialStep::SetReadTimeout(50));
    assert(steps[10] == SerialStep::SetWriteTimeout(50));
}

/// A port that cannot be opened is named with the reason; any other failure is
/// passed on as it is.
pub proof fn serial_failures_are_told(step: SerialStep, port_text: Seq<char>, error: IoErrorView)
    ensures
        step is Open ==> serial_failure(step, port_text, error) == ErrorView::Other(
            "openpty on serial port "@ + port_text + ": "@ + error.message,
        ),
        !(step is Open) ==> serial_failure(step, port_text, error) == ErrorView::Io(error),
        no_program() == ErrorView::Other(
            "can only use default prog commands with serial tty implementations"@,
        ),
{
}

} // verus!

use xpty::base_env::BaseEnv;
use xpty::cmdbuilder::CommandBuilder;
use xpty::env::Platform;
use xpty::error::{Error, IoError, IoErrorKind};
use xpty::exit_status::{ExitStatus, WaitStatus};
use xpty::os_string::{lists_equal, OsString};
use xpty::pty::PtySize;
use xpty::serial::{
    after_serial_read, serial_size, spawn_on_serial, CharSize, FlowControl, Parity, ReadStep,
    SerialStep, SerialTty, StopBits,
};
use xpty::text::{join, push_decimal, push_hexadecimal, push_signed_decimal};

fn os(text: &str) -> OsString {
    OsString::from_text(text)
}

fn failure(kind: IoErrorKind, message: &str) -> IoError {
    IoError { kind, raw_os_error: Some(1), message: message.to_string() }
}

#[test]
fn errors_have_texts() {
    let io = failure(IoErrorKind::Other, "broken pipe");
    assert_eq!(Error::Io(io.duplicate()).message(), "broken pipe");
    assert_eq!(io.raw_os_error, Some(1));
    assert_eq!(Error::WriterAlreadyTaken.message(), "writer already taken");
    assert_eq!(Error::CommandNotFound("x".to_string()).message(), "command not found: x");
    assert_eq!(Error::NotExecutable("x".to_string()).message(), "not executable: x");
    assert_eq!(Error::IsDirectory("x".to_string()).message(), "path is a directory: x");
    assert_eq!(Error::PathResolution("x".to_string()).message(), "x");
    assert_eq!(Error::InvalidUtf8.message(), "argument is not valid UTF-8");
    assert_eq!(Error::Hresult(-1).message(), "windows error: HRESULT 0xffffffff");
    assert_eq!(Error::Hresult(5).message(), "windows error: HRESULT 0x00000005");
    assert_eq!(Error::other("odd").message(), "odd");
}

#[test]
fn statuses_have_texts() {
    assert!(ExitStatus::with_exit_code(0).success());
    assert_eq!(ExitStatus::with_exit_code(0).message(), "Success");
    let status = ExitStatus::with_exit_code(42);
    assert!(!status.success());
    assert_eq!(status.exit_code(), 42);
    assert_eq!(status.signal(), None);
    assert_eq!(status.message(), "Exited with code 42");
    let status = ExitStatus::with_signal("Hangup");
    assert!(!status.success());
    assert_eq!(status.exit_code(), 1);
    assert_eq!(status.signal(), Some("Hangup"));
    assert_eq!(status.clone().message(), "Terminated by Hangup");
}

#[test]
fn statuses_come_from_the_system() {
    let wait = |code, signal, name: Option<&[u8]>, success| {
        ExitStatus::from_wait(WaitStatus {
            code,
            signal,
            signal_name: name.map(|n| n.to_vec()),
            success,
        })
    };
    assert_eq!(wait(Some(3), None, None, false).exit_code(), 3);
    assert_eq!(wait(Some(-1), None, None, false).exit_code(), u32::MAX);
    assert!(wait(None, None, None, true).success());
    assert_eq!(wait(None, None, None, false).exit_code(), 1);
    let status = wait(None, Some(9), Some(b"Killed"), false);
    assert_eq!(status.signal(), Some("Killed"));
    assert_eq!(status.exit_code(), 1);
    assert_eq!(wait(None, Some(99), None, false).signal(), Some("Signal 99"));
    assert_eq!(wait(None, Some(-3), None, false).signal(), Some("Signal -3"));
    assert_eq!(wait(Some(7), Some(1), Some(b"a\xff"), false).signal(), Some("a\u{fffd}"));
    assert_eq!(wait(Some(7), Some(1), None, false).exit_code(), 7);
}

#[test]
fn success_is_kept() {
    for code in [0, 1, 256, -1, i32::MAX, i32::MIN] {
        let status = ExitStatus::from_wait(WaitStatus {
            code: Some(code),
            signal: None,
            signal_name: None,
            success: code == 0,
        });
        assert_eq!(status.success(), code == 0);
        assert_eq!(status.exit_code(), code as u32);
        assert!(status.signal().is_none());
    }
}

#[test]
fn numbers_become_text() {
    let mut out = String::new();
    push_decimal(&mut out, 0);
    push_decimal(&mut out, u64::MAX);
    assert_eq!(out, "018446744073709551615");
    let mut out = String::new();
    push_signed_decimal(&mut out, i64::MIN);
    push_signed_decimal(&mut out, 12);
    assert_eq!(out, "-922337203685477580812");
    let mut out = String::new();
    push_hexadecimal(&mut out, 0xbeef, 8);
    assert_eq!(out, "0000beef");
    assert_eq!(join(&vec!["a".to_string(), "b".to_string()], ", "), "a, b");
    assert_eq!(join(&Vec::new(), ", "), "");
}

#[test]
fn strings_compare_by_bytes() {
    assert!(os("a").precedes(&os("ab")));
    assert!(os("B").precedes(&os("a")));
    assert!(!os("a").precedes(&os("a")));
    assert!(!os("b").precedes(&os("ab")));
    let mut string = OsString::new();
    assert!(string.is_empty());
    string.push(&os("x"));
    string.push_byte(0xff);
    assert_eq!(string.len(), 2);
    assert_eq!(string.to_text(), None);
    assert_eq!(string.display(), "x\u{fffd}");
    assert_eq!(os("\u{e9}").to_text().as_deref(), Some("\u{e9}"));
    assert!(lists_equal(&[os("a"), os("b")], &[os("a"), os("b")]));
    assert!(!lists_equal(&[os("a")], &[os("a"), os("b")]));
    assert!(!lists_equal(&[os("a")], &[os("b")]));
}

#[test]
fn serial_port_is_opened_step_by_step() {
    let mut tty = SerialTty::new(os("/dev/ttyS0"));
    assert_eq!(tty.port(), &os("/dev/ttyS0"));
    assert_eq!(
        tty.open_steps(),
        vec![
            SerialStep::Open(9600),
            SerialStep::ReadConfiguration,
            SerialStep::SetRaw,
            SerialStep::SetBaudRate(9600),
            SerialStep::SetCharSize(CharSize::Bits8),
            SerialStep::SetFlowControl(FlowControl::XonXoff),
            SerialStep::SetParity(Parity::NoParity),
            SerialStep::SetStopBits(StopBits::One),
            SerialStep::WriteConfiguration,
            SerialStep::SetReadTimeout(50),
            SerialStep::SetWriteTimeout(50),
        ]
    );
    tty.set_baud_rate(115200);
    tty.set_char_size(CharSize::Bits7);
    tty.set_parity(Parity::Even);
    tty.set_stop_bits(StopBits::Two);
    tty.set_flow_control(FlowControl::RtsCts);
    let steps = tty.open_steps();
    assert_eq!(steps[0], SerialStep::Open(115200));
    assert_eq!(steps[3], SerialStep::SetBaudRate(115200));
    assert_eq!(steps[4], SerialStep::SetCharSize(CharSize::Bits7));
    assert_eq!(steps[5], SerialStep::SetFlowControl(FlowControl::RtsCts));
    assert_eq!(steps[6], SerialStep::SetParity(Parity::Even));
    assert_eq!(steps[7], SerialStep::SetStopBits(StopBits::Two));
}

#[test]
fn serial_failures_are_told_apart() {
    let error = failure(IoErrorKind::Other, "busy");
    assert_eq!(
        SerialStep::Open(9600).failure("\"COM1\"", error.duplicate()).message(),
        "openpty on serial port \"COM1\": busy"
    );
    let error = SerialStep::WriteConfiguration.failure("\"COM1\"", error);
    assert!(matches!(error, Error::Io(e) if e.message == "busy"));
}

#[test]
fn serial_port_has_only_the_default_program() {
    let base = BaseEnv::from_vars(Platform::Unix, &Vec::new());
    let child = spawn_on_serial(&CommandBuilder::new_default_prog(&base)).unwrap();
    assert!(child.try_wait().is_none());
    assert!(child.process_id().is_none());
    assert!(child.after_carrier(true).is_none());
    assert_eq!(child.after_carrier(false).unwrap().exit_code(), 1);
    assert!(spawn_on_serial(&CommandBuilder::from_argv(Vec::new(), &base)).is_err());
    let error = spawn_on_serial(&CommandBuilder::new(os("ls"), &base)).unwrap_err();
    assert_eq!(
        error.message(),
        "can only use default prog commands with serial tty implementations"
    );
    assert_eq!(serial_size(), PtySize::default());
}

#[test]
fn serial_reading_goes_on_until_there_is_something() {
    let step = after_serial_read(Platform::Unix, Ok(5));
    assert!(matches!(step, ReadStep::Done(Ok(5))));
    let step = after_serial_read(Platform::Windows, Ok(0));
    assert!(matches!(step, ReadStep::Again));
    match after_serial_read(Platform::Unix, Ok(0)) {
        ReadStep::Done(Err(error)) => {
            assert_eq!(error.kind, IoErrorKind::UnexpectedEof);
            assert_eq!(error.message, "EOF on serial port");
        }
        other => panic!("{:?}", other),
    }
    let step = after_serial_read(Platform::Unix, Err(failure(IoErrorKind::WouldBlock, "later")));
    assert!(matches!(step, ReadStep::Again));
    let step = after_serial_read(Platform::Unix, Err(failure(IoErrorKind::Other, "gone")));
    assert!(matches!(step, ReadStep::Done(Err(e)) if e.message == "gone"));
}

use xpty::base_env::BaseEnv;
use xpty::cmdbuilder::CommandBuilder;
use xpty::conpty::{
    check_hresult, ConPtyState, ProcThreadAttributeList, PseudoCon, DEFAULT_PSEUDOCONSOLE_FLAGS,
    PROC_THREAD_ATTRIBUTE_PSEUDOCONSOLE, PSEUDOCONSOLE_INHERIT_CURSOR,
};
use xpty::env::Platform;
use xpty::error::{Error, IoError, IoErrorKind};
use xpty::exit_status::ExitStatus;
use xpty::os_string::OsString;
use xpty::pty::{native_pty_system, ConPtySystem, NativePtySystem, PtySize, UnixPtySystem};
use xpty::quoting::append_quoted;
use xpty::win_child::{
    is_complete, process_id, terminated, CompletionReply, ExitCodeReply, PollStep, WaitEvent,
    WaitStep, WaiterFailure, WinChild,
};
use xpty::win_launch::{
    cmdline, comspec, created, current_directory, environment_block, get_shell, invalid_argument,
    start_directory, user_profile, wide_with_end, windows_plan, windows_program, WinProgram,
};
use xpty::win_search::{path_extensions, WinOutcome, WinSearch};

fn os(text: &str) -> OsString {
    OsString::from_text(text)
}

fn wide(text: &str) -> Vec<u16> {
    text.encode_utf16().collect()
}

fn failure(message: &str) -> IoError {
    IoError {
        kind: IoErrorKind::Other,
        raw_os_error: None,
        message: message.to_string(),
    }
}

fn command(argv: &[&str], vars: &[(&str, &str)]) -> CommandBuilder {
    let vars: Vec<(OsString, OsString)> = vars.iter().map(|(k, v)| (os(k), os(v))).collect();
    let base = BaseEnv::from_vars(Platform::Windows, &vars);
    CommandBuilder::from_argv(argv.iter().map(|a| os(a)).collect(), &base)
}

fn quoted(arg: &str) -> String {
    let mut line = Vec::new();
    append_quoted(&os(arg), &mut line);
    String::from_utf16(&line).unwrap()
}

#[test]
fn arguments_are_quoted() {
    assert_eq!(quoted("plain"), "plain");
    assert_eq!(quoted(""), "\"\"");
    assert_eq!(quoted("a b"), "\"a b\"");
    assert_eq!(quoted("a\\b"), "a\\b");
    assert_eq!(quoted("a b\\"), "\"a b\\\\\"");
    assert_eq!(quoted("a\\\"b"), "\"a\\\\\\\"b\"");
    assert_eq!(quoted("a\\ b"), "\"a\\ b\"");
    assert_eq!(quoted("tab\there"), "\"tab\there\"");
    assert_eq!(quoted("\u{1f600} x"), "\"\u{1f600} x\"");
}

#[test]
fn command_line_ends_with_zero() {
    let cmd = command(&["prog", "a b", "c"], &[]);
    let (program, line) = cmdline(&cmd, &os("C:\\Program Files\\prog.exe")).unwrap();
    assert_eq!(program, wide("C:\\Program Files\\prog.exe\0"));
    assert_eq!(line, wide("\"C:\\Program Files\\prog.exe\" \"a b\" c\0"));
    let (program, line) = cmdline(&command(&[], &[]), &os("cmd.exe")).unwrap();
    assert_eq!(program, wide("cmd.exe\0"));
    assert_eq!(line, wide("cmd.exe\0"));
}

#[test]
fn zero_in_an_argument_is_refused() {
    let cmd = command(&["prog", "fine", "a\0b", "c\0"], &[]);
    assert_eq!(cmdline(&cmd, &os("prog")).unwrap_err(), 2);
    assert_eq!(
        invalid_argument("\"a\\0b\"").message(),
        "invalid encoding for command line argument \"a\\0b\""
    );
    assert!(cmdline(&command(&["pr\0og"], &[]), &os("prog")).is_ok());
}

#[test]
fn command_interpreter_is_the_shell() {
    let cmd = command(&[], &[("COMSPEC", "C:\\cmd.exe")]);
    assert_eq!(comspec(&cmd), os("C:\\cmd.exe"));
    assert_eq!(get_shell(&cmd), "C:\\cmd.exe");
    assert_eq!(comspec(&command(&[], &[])), os("cmd.exe"));
    assert_eq!(get_shell(&command(&[], &[])), "cmd.exe");
    let mut odd = command(&[], &[]);
    odd.env(os("ComSpec"), OsString::from_wide(&[0xd800]));
    assert_eq!(get_shell(&odd), "%CompSpec%");
}

#[test]
fn command_without_a_program_gets_the_interpreter() {
    let known = |cmd: &CommandBuilder| match windows_program(cmd) {
        WinProgram::Known(path) => Some(path),
        WinProgram::Search(_) => None,
    };
    assert_eq!(known(&command(&[], &[])), Some(os("cmd.exe")));
    assert_eq!(known(&command(&[], &[("comspec", "C:\\x.exe")])), Some(os("C:\\x.exe")));
    let base = BaseEnv::from_vars(Platform::Windows, &Vec::new());
    assert_eq!(known(&CommandBuilder::new_default_prog(&base)), Some(os("cmd.exe")));
    match windows_program(&command(&["prog", "a"], &[])) {
        WinProgram::Search(name) => assert_eq!(name, os("prog")),
        other => panic!("{:?}", other),
    }
}

#[test]
fn environment_block_holds_all_variables() {
    let mut cmd = command(&["x"], &[("Path", "C:\\"), ("B", "2")]);
    cmd.env(os("a"), os(""));
    assert_eq!(environment_block(&cmd), wide("a=\0B=2\0Path=C:\\\0\0"));
    cmd.env_clear();
    assert_eq!(environment_block(&cmd), vec![0]);
}

#[test]
fn directory_is_the_first_that_is_one() {
    let mut cmd = command(&["x"], &[("UserProfile", "C:\\me")]);
    assert_eq!(user_profile(&cmd), Some(&os("C:\\me")));
    assert_eq!(current_directory(&cmd, true, true), Some(&os("C:\\me")));
    assert_eq!(current_directory(&cmd, false, false), None);
    cmd.cwd(os("D:\\"));
    assert_eq!(current_directory(&cmd, true, true), Some(&os("D:\\")));
    assert_eq!(current_directory(&cmd, true, false), Some(&os("C:\\me")));
    assert_eq!(current_directory(&cmd, false, false), None);
    assert_eq!(wide_with_end(&os("D:\\")), wide("D:\\\0"));
}

#[test]
fn relative_directory_is_put_behind_the_current_one() {
    let (dir, joined) = (os("sub"), os("C:\\here\\sub"));
    assert_eq!(start_directory(Some(&dir), true, Some(&joined)), Some(&joined));
    assert_eq!(start_directory(Some(&dir), false, Some(&joined)), Some(&dir));
    assert_eq!(start_directory(Some(&dir), true, None), Some(&dir));
    assert_eq!(start_directory(None, true, Some(&joined)), None);
}

#[test]
fn plan_has_all_parts() {
    let cmd = command(&["x", "y"], &[("A", "1")]);
    let plan = windows_plan(&cmd, &os("x.exe"), Some(&os("D:\\"))).unwrap();
    assert_eq!(plan.program, wide("x.exe\0"));
    assert_eq!(plan.line, wide("x.exe y\0"));
    assert_eq!(plan.environment, wide("A=1\0\0"));
    assert_eq!(plan.dir, Some(wide("D:\\\0")));
    assert_eq!(plan.flags, 0x80400);
    assert_eq!(windows_plan(&cmd, &os("x.exe"), None).unwrap().dir, None);
    let bad = command(&["x", "\0"], &[]);
    assert_eq!(windows_plan(&bad, &os("x"), None).unwrap_err(), 1);
}

#[test]
fn process_that_cannot_be_made_is_told() {
    assert!(created(1, "\"x\"", "None", &failure("unused")).is_ok());
    assert_eq!(
        created(0, "\"x y\"", "Some(\"D:\")", &failure("not found")).unwrap_err().message(),
        "CreateProcessW `\"x y\"` in cwd `Some(\"D:\")` failed: not found"
    );
}

/// Searches where only the given candidates exist.
fn search(exe: &str, dirs: &[&str], exts: &[&str], existing: &[&str]) -> (Vec<String>, WinOutcome) {
    let list = |items: &[&str]| -> Vec<OsString> { items.iter().map(|i| os(i)).collect() };
    let mut search = WinSearch::start(os(exe), list(dirs), list(exts));
    let mut asked = Vec::new();
    while let Some(candidate) = search.question() {
        let mut path = format!("{}\\{}", candidate.dir.display(), exe);
        if let Some(extension) = &candidate.extension {
            path = format!("{}.{}", path, extension.display());
        }
        asked.push(path.clone());
        let found = existing.contains(&path.as_str());
        search.answer(if found { Some(os(&path)) } else { None });
    }
    (asked, search.outcome().unwrap())
}

#[test]
fn windows_program_is_found_in_order() {
    let (asked, outcome) = search("ls", &["A", "B"], &[".EXE", ".COM"], &["B\\ls.EXE", "B\\ls.COM"]);
    assert_eq!(asked, vec!["A\\ls", "A\\ls.EXE", "A\\ls.COM", "B\\ls", "B\\ls.EXE"]);
    assert!(matches!(outcome, WinOutcome::Found(path) if path == os("B\\ls.EXE")));
    let (asked, outcome) = search("ls", &["A"], &[".EXE"], &["A\\ls", "A\\ls.EXE"]);
    assert_eq!(asked, vec!["A\\ls"]);
    assert!(matches!(outcome, WinOutcome::Found(path) if path == os("A\\ls")));
}

#[test]
fn windows_program_that_is_nowhere_stays_as_named() {
    let (asked, outcome) = search("ls", &["A"], &[".EXE"], &[]);
    assert_eq!(asked.len(), 2);
    assert!(matches!(outcome, WinOutcome::Found(path) if path == os("ls")));
    let (asked, outcome) = search("ls", &[], &[".EXE"], &[]);
    assert!(asked.is_empty());
    assert!(matches!(outcome, WinOutcome::Found(path) if path == os("ls")));
}

#[test]
fn unusable_extension_is_told_when_it_is_reached() {
    let (asked, outcome) = search("ls", &["A"], &[".EXE", ""], &[]);
    assert_eq!(asked, vec!["A\\ls", "A\\ls.EXE"]);
    assert!(matches!(outcome, WinOutcome::Unusable(ext) if ext.is_empty()));
    let (asked, outcome) = search("ls", &["A", "B"], &["", ".EXE"], &["B\\ls"]);
    assert_eq!(asked, vec!["A\\ls"]);
    assert!(matches!(outcome, WinOutcome::Unusable(_)));
    let (asked, outcome) = search("ls", &[], &[""], &[]);
    assert!(asked.is_empty());
    assert!(matches!(outcome, WinOutcome::Found(_)));
    let (_, outcome) = search("ls", &["A"], &[".EXE", ""], &["A\\ls.EXE"]);
    assert!(matches!(outcome, WinOutcome::Found(_)));
    let (_, outcome) = search("ls", &["A"], &["\u{e9}xe"], &[]);
    assert!(matches!(outcome, WinOutcome::Unusable(_)));
}

#[test]
fn extensions_come_from_the_environment() {
    assert_eq!(path_extensions(&command(&[], &[])), os(".EXE"));
    assert_eq!(path_extensions(&command(&[], &[("PathExt", ".A;.B")])), os(".A;.B"));
}

#[test]
fn wide_strings_keep_lone_surrogates() {
    let units = [0x61u16, 0xd800, 0x62, 0xdc00, 0xd83d, 0xde00];
    let string = OsString::from_wide(&units);
    assert_eq!(string.encode_wide(), units.to_vec());
    assert_eq!(
        string.as_bytes(),
        &[0x61u8, 0xed, 0xa0, 0x80, 0x62, 0xed, 0xb0, 0x80, 0xf0, 0x9f, 0x98, 0x80][..]
    );
    assert_eq!(os("\u{1f600}\u{e9}").encode_wide(), wide("\u{1f600}\u{e9}"));
}

#[test]
fn process_that_has_ended_has_a_status() {
    let child = WinChild::new();
    let reply = |ended, result, code| {
        child.try_wait(Ok(CompletionReply { ended, exit: ExitCodeReply { result, code } }))
    };
    assert!(reply(false, 1, 259).unwrap().is_none());
    assert!(reply(false, 1, 0).unwrap().is_none());
    assert!(reply(true, 0, 3).unwrap().is_none());
    assert_eq!(reply(true, 1, 3).unwrap().unwrap().exit_code(), 3);
    assert_eq!(reply(true, 1, 259).unwrap().unwrap().exit_code(), 259);
    assert_eq!(reply(true, 1, 259).unwrap().unwrap().signal(), None);
    assert!(reply(true, 1, 0).unwrap().unwrap().success());
    assert_eq!(is_complete(Err(failure("lost"))).unwrap_err().message, "lost");
}

#[test]
fn nonzero_means_terminated() {
    assert!(terminated(1, failure("unused")).is_ok());
    assert_eq!(terminated(0, failure("denied")).unwrap_err().message, "denied");
    assert_eq!(process_id(0), None);
    assert_eq!(process_id(9), Some(9));
}

#[test]
fn waiting_collects_the_code() {
    let step = WaitStep::Check.next(WaitEvent::Checked(Ok(Some(ExitStatus::with_exit_code(4)))));
    assert!(matches!(step, WaitStep::Done(Ok(status)) if status.exit_code() == 4));
    let step = WaitStep::Check.next(WaitEvent::Checked(Err(failure("odd"))));
    let step = step.next(WaitEvent::Reached(Ok(())));
    assert!(matches!(step, WaitStep::Block));
    let step = step.next(WaitEvent::Ended);
    let reply = ExitCodeReply { result: 1, code: 259 };
    let step = step.next(WaitEvent::Collected(reply, failure("unused")));
    assert!(matches!(step, WaitStep::Done(Ok(status)) if status.exit_code() == 259));
    let reply = ExitCodeReply { result: 0, code: 0 };
    let step = WaitStep::Collect.next(WaitEvent::Collected(reply, failure("gone")));
    assert!(matches!(step, WaitStep::Done(Err(e)) if e.message == "gone"));
    let step = WaitStep::Reach.next(WaitEvent::Reached(Err(failure("no handle"))));
    assert!(matches!(step, WaitStep::Done(Err(e)) if e.message == "no handle"));
    assert!(matches!(WaitStep::Check.next(WaitEvent::Ended), WaitStep::Check));
}

#[test]
fn one_waiter_wakes_the_last_task() {
    let mut poll = WinChild::new();
    assert_eq!(poll.child_ended(), None);
    assert!(matches!(poll.poll(Ok(None), 3), PollStep::Pending { start_waiter: true }));
    assert!(matches!(poll.poll(Ok(None), 9), PollStep::Pending { start_waiter: false }));
    assert!(matches!(poll.poll(Ok(None), 4), PollStep::Pending { start_waiter: false }));
    assert_eq!(poll.child_ended(), Some(4));
    assert_eq!(poll.child_ended(), None);
    let step = poll.poll(Ok(Some(ExitStatus::with_exit_code(2))), 5);
    assert!(matches!(step, PollStep::Ready(Ok(status)) if status.exit_code() == 2));
    let step = poll.poll(Err(failure("lost")), 6);
    assert!(matches!(step, PollStep::Ready(Err(Error::Io(e))) if e.message == "lost"));
    let error = WaiterFailure::Poisoned("poisoned".to_string()).into_error();
    assert!(matches!(error, Error::Other(text) if text == "poisoned"));
    let error = WaiterFailure::Reach(failure("no handle")).into_error();
    assert!(matches!(error, Error::Io(e) if e.message == "no handle"));
}

#[test]
fn pseudo_console_remembers_its_size() {
    let size = |rows, cols| PtySize { rows, cols, pixel_width: 1, pixel_height: 2 };
    let mut state = ConPtyState::new(size(24, 80));
    assert!(state.resize(size(50, 120), 0).is_ok());
    assert_eq!(state.get_size(), size(50, 120));
    let error = state.resize(size(1, 1), -2147024809).unwrap_err();
    assert_eq!(error.message(), "windows error: HRESULT 0x80070057");
    assert_eq!(state.get_size(), size(50, 120));
    assert!(state.take_writer().is_ok());
    assert!(matches!(state.take_writer(), Err(Error::WriterAlreadyTaken)));
    assert!(check_hresult(0).is_ok());
    assert!(matches!(check_hresult(1), Err(Error::Hresult(1))));
}

#[test]
fn pseudo_console_is_asked_for_with_flags() {
    let coord = PtySize { rows: 24, cols: 40000, pixel_width: 0, pixel_height: 0 }.to_coord();
    assert_eq!((coord.x, coord.y), (-25536, 24));
    assert_eq!(PseudoCon::new(coord).flags, 7);
    let size = PtySize { rows: 30, cols: 100, pixel_width: 0, pixel_height: 0 };
    let (wanted, state) = ConPtySystem::default().openpty(size);
    assert_eq!((wanted.size.x, wanted.size.y, wanted.flags), (100, 30, 7));
    assert_eq!(state.get_size(), size);
    let flags = DEFAULT_PSEUDOCONSOLE_FLAGS & !PSEUDOCONSOLE_INHERIT_CURSOR;
    assert_eq!(PseudoCon::new_with_flags(coord, flags).flags, 6);
    assert_eq!(PROC_THREAD_ATTRIBUTE_PSEUDOCONSOLE, 131094);
}

#[test]
fn attributes_have_storage() {
    let mut list = ProcThreadAttributeList::with_capacity(3);
    assert_eq!(list.storage(), &vec![0, 0, 0]);
    list.storage()[1] = 9;
    assert_eq!(list.storage(), &vec![0, 9, 0]);
    assert!(ProcThreadAttributeList::initialized(1, &failure("unused")).is_ok());
    assert_eq!(
        ProcThreadAttributeList::initialized(0, &failure("x")).unwrap_err().message(),
        "InitializeProcThreadAttributeList failed: x"
    );
    assert!(ProcThreadAttributeList::pty_set(1, &failure("unused")).is_ok());
    assert_eq!(
        ProcThreadAttributeList::pty_set(0, &failure("y")).unwrap_err().message(),
        "UpdateProcThreadAttribute failed: y"
    );
}

#[test]
fn platform_has_its_own_ptys() {
    assert_eq!(
        native_pty_system(Platform::Unix),
        NativePtySystem::Unix(UnixPtySystem::default())
    );
    assert_eq!(
        native_pty_system(Platform::Windows),
        NativePtySystem::Windows(ConPtySystem::default())
    );
}

use xpty::base_env::BaseEnv;
use xpty::cmdbuilder::CommandBuilder;
use xpty::env::Platform;
use xpty::error::{Error, IoError, IoErrorKind};
use xpty::kill::{KillEvent, KillStep, ProcessSignaller};
use xpty::launch::{Launch, Plan};
use xpty::lookup::{PasswdField, Query, Reply, ShellLookup};
use xpty::os_string::OsString;
use xpty::path::{base_name, is_absolute, join_path, split_paths};
use xpty::pty::{PtySize, WinSize, WriterSlot};
use xpty::search::{next_probe, Answer, Next, Probe, Search, Verdict};
use xpty::spawn::{child_setup, fds_from_names, SetupStep, Signal};
use xpty::unix::{
    end_of_input, minus_one_is_failure, process_group_leader, read_result, resized, size_read,
    zero_is_success, OpenEvent, OpenStep, TtyName,
};

fn os(text: &str) -> OsString {
    OsString::from_text(text)
}

fn texts(list: &[OsString]) -> Vec<String> {
    list.iter().map(|item| item.display()).collect()
}

fn failure(code: i32, message: &str) -> IoError {
    IoError {
        kind: IoErrorKind::Other,
        raw_os_error: Some(code),
        message: message.to_string(),
    }
}

fn command(argv: &[&str], vars: &[(&str, &str)]) -> CommandBuilder {
    let vars: Vec<(OsString, OsString)> = vars.iter().map(|(k, v)| (os(k), os(v))).collect();
    let base = BaseEnv::from_vars(Platform::Unix, &vars);
    CommandBuilder::from_argv(argv.iter().map(|a| os(a)).collect(), &base)
}

/// A file system with the given directories, programs and other files.
struct World {
    dirs: Vec<&'static str>,
    programs: Vec<&'static str>,
    files: Vec<&'static str>,
    home: Option<&'static str>,
    shell: Option<&'static str>,
}

impl World {
    fn probe(&self, probe: Probe, path: &str) -> Answer {
        let is_dir = self.dirs.contains(&path);
        let is_program = self.programs.contains(&path);
        let exists = is_dir || is_program || self.files.contains(&path);
        let yes = match probe {
            Probe::IsDir => is_dir,
            Probe::Execute => is_dir || is_program,
            Probe::Exists => exists,
        };
        if yes {
            Answer::Yes
        } else if exists {
            Answer::No(13)
        } else {
            Answer::No(2)
        }
    }

    fn reply(&self, query: &Query) -> Reply {
        match query {
            Query::Path(probe, path) => Reply::Path(self.probe(*probe, &path.display())),
            Query::Passwd(PasswdField::Dir) => {
                Reply::Passwd(self.home.map(|t| t.as_bytes().to_vec()))
            }
            Query::Passwd(PasswdField::Shell) => {
                Reply::Passwd(self.shell.map(|t| t.as_bytes().to_vec()))
            }
        }
    }

    fn search(&self, exe: &str, cwd: &str, path: Option<&str>) -> Result<String, Error> {
        let path = path.map(|p| (os(p), format!("{:?}", p)));
        let mut search = Search::start(os(exe), os(cwd), path);
        while let Some((probe, path)) = search.question() {
            search = search.answer(self.probe(probe, &path.display()));
        }
        search.outcome().unwrap().map(|found| found.display())
    }

    fn launch(&self, cmd: &CommandBuilder) -> Result<Plan, Error> {
        let text = match cmd.resolve_path() {
            Some(path) => format!("{:?}", path.display()),
            None => String::new(),
        };
        let mut launch = Launch::start(cmd, text);
        while let Some(query) = launch.question() {
            launch = launch.answer(&self.reply(&query));
        }
        launch.outcome().unwrap()
    }

    fn shell(&self, cmd: &CommandBuilder) -> String {
        let mut lookup = ShellLookup::from_builder(cmd);
        while let Some(query) = lookup.question() {
            lookup = lookup.answer(&self.reply(&query));
        }
        lookup.known().unwrap()
    }
}

fn world() -> World {
    World {
        dirs: vec!["/home/me", "/work", "/bin/dir", "/work/./sub"],
        programs: vec!["/bin/ls", "/bin/sh", "/bin/zsh", "/usr/bin/ls", "/work/run", "/work/./run"],
        files: vec!["/bin/notes", "/work/./text"],
        home: Some("/home/me"),
        shell: Some("/bin/zsh"),
    }
}

#[test]
fn program_is_found_in_the_first_directory() {
    let w = world();
    assert_eq!(w.search("ls", "/work", Some("/none:/usr/bin:/bin")).unwrap(), "/usr/bin/ls");
    assert_eq!(w.search("run", "/", Some("/bin:work")).unwrap(), "/work/run");
    assert_eq!(w.search("run", "/work", Some("")).unwrap(), "/work/run");
    assert_eq!(w.search("/bin/ls", "/work", None).unwrap(), "/bin/ls");
    assert_eq!(w.search("./run", "/work", None).unwrap(), "/work/./run");
}

#[test]
fn failed_search_says_why() {
    let w = world();
    let error = w.search("dir", "/work", Some("/bin:/usr/bin")).unwrap_err();
    assert_eq!(
        error.message(),
        "Unable to spawn dir: /bin/dir exists but is a directory.\n\
         No viable candidates found in PATH \"/bin:/usr/bin\""
    );
    assert!(matches!(error, Error::PathResolution(_)));
    let error = w.search("notes", "/work", Some("/bin")).unwrap_err();
    assert_eq!(
        error.message(),
        "Unable to spawn notes: /bin/notes exists but is not executable.\n\
         No viable candidates found in PATH \"/bin\""
    );
    let error = w.search("ls", "/work", None).unwrap_err();
    assert_eq!(error.message(), "Unable to spawn ls: Unable to resolve the PATH");
}

#[test]
fn absent_program_is_not_found() {
    let w = world();
    let error = w.search("nothing", "/work", Some("/bin:/usr/bin")).unwrap_err();
    assert!(matches!(error, Error::CommandNotFound(_)));
    assert_eq!(
        error.message(),
        "command not found: nothing (No viable candidates found in PATH \"/bin:/usr/bin\")"
    );
    let error = w.search("notes", "/work", Some("/usr/bin:/bin")).unwrap_err();
    assert!(matches!(error, Error::PathResolution(_)));
    let error = w.search("nothing", "/work", None).unwrap_err();
    assert!(matches!(error, Error::PathResolution(_)));
}

#[test]
fn refused_path_says_why() {
    let w = world();
    let error = w.search("/bin/dir", "/", None).unwrap_err();
    assert!(matches!(&error, Error::IsDirectory(path) if path == "/bin/dir"));
    let error = w.search("/bin/notes", "/", None).unwrap_err();
    assert_eq!(
        error.message(),
        "not executable: /bin/notes (EACCES: Permission denied)"
    );
    let error = w.search("/none", "/", None).unwrap_err();
    assert_eq!(
        error.message(),
        "command not found: /none (ENOENT: No such file or directory)"
    );
    let error = w.search("./sub", "/work", None).unwrap_err();
    assert!(matches!(&error, Error::IsDirectory(path) if path == "/work/./sub"));
    let error = w.search("./text", "/work", None).unwrap_err();
    assert!(matches!(&error, Error::NotExecutable(path) if path == "/work/./text"));
    let error = w.search("../x", "/work", None).unwrap_err();
    assert!(matches!(&error, Error::CommandNotFound(path) if path == "/work/../x"));
}

#[test]
fn ill_formed_path_is_displayed_in_part() {
    let mut search = Search::start(OsString::from_bytes(vec![0x2f, 0xff]), os("/"), None);
    while search.question().is_some() {
        search = search.answer(Answer::No(2));
    }
    let error = search.outcome().unwrap().unwrap_err();
    assert_eq!(
        error.message(),
        "command not found: /\u{fffd} (ENOENT: No such file or directory)"
    );
}

#[test]
fn probes_follow_each_other() {
    assert_eq!(
        next_probe(Probe::IsDir, 0, Answer::Yes),
        Next::Settled(Verdict::Directory)
    );
    assert_eq!(next_probe(Probe::IsDir, 0, Answer::No(2)), Next::Ask(Probe::Execute));
    assert_eq!(
        next_probe(Probe::Execute, 0, Answer::Yes),
        Next::Settled(Verdict::Executable)
    );
    assert_eq!(next_probe(Probe::Execute, 0, Answer::No(13)), Next::Ask(Probe::Exists));
    assert_eq!(
        next_probe(Probe::Exists, 13, Answer::Yes),
        Next::Settled(Verdict::NotExecutable(13))
    );
    assert_eq!(
        next_probe(Probe::Exists, 2, Answer::No(2)),
        Next::Settled(Verdict::Missing(2))
    );
}

#[test]
fn shell_is_looked_up() {
    let mut w = world();
    assert_eq!(w.shell(&command(&[], &[("SHELL", "/bin/sh")])), "/bin/sh");
    assert_eq!(w.shell(&command(&[], &[("SHELL", "/bin/notes")])), "/bin/zsh");
    assert_eq!(w.shell(&command(&[], &[])), "/bin/zsh");
    w.shell = Some("/none");
    assert_eq!(w.shell(&command(&[], &[])), "/bin/sh");
    w.shell = None;
    assert_eq!(w.shell(&command(&[], &[])), "/bin/sh");
    let lookup = ShellLookup::from_passwd();
    let lookup = lookup.answer(&Reply::Passwd(Some(vec![0xff])));
    assert_eq!(lookup.known().as_deref(), Some("/bin/sh"));
}

#[test]
fn default_program_is_a_login_shell() {
    let cmd = command(&[], &[("SHELL", "/bin/zsh"), ("HOME", "/home/me"), ("X", "1")]);
    let plan = world().launch(&cmd).unwrap();
    assert_eq!(plan.program, os("/bin/zsh"));
    assert_eq!(plan.arg0, os("-zsh"));
    assert!(plan.args.is_empty());
    assert_eq!(plan.dir, os("/home/me"));
    let env: Vec<(String, String)> =
        plan.env.iter().map(|(k, v)| (k.display(), v.display())).collect();
    let want: Vec<(String, String)> =
        [("SHELL", "/bin/zsh"), ("HOME", "/home/me"), ("SHELL", "/bin/zsh"), ("X", "1")]
            .iter()
            .map(|(k, v)| (k.to_string(), v.to_string()))
            .collect();
    assert_eq!(env, want);
}

#[test]
fn program_starts_in_its_directory() {
    let w = world();
    let mut cmd = command(&["ls", "-l", "x"], &[("PATH", "/bin")]);
    let plan = w.launch(&cmd).unwrap();
    assert_eq!(plan.program, os("/bin/ls"));
    assert_eq!(plan.arg0, os("ls"));
    assert_eq!(texts(&plan.args), vec!["-l", "x"]);
    assert_eq!(plan.dir, os("/home/me"));
    cmd.cwd(os("/work"));
    assert_eq!(w.launch(&cmd).unwrap().dir, os("/work"));
    cmd.cwd(os("/none"));
    assert_eq!(w.launch(&cmd).unwrap().dir, os("/home/me"));
    let error = w.launch(&command(&["nothing"], &[("PATH", "/bin")])).unwrap_err();
    assert!(matches!(error, Error::CommandNotFound(_)));
}

#[test]
fn home_falls_back_to_the_root() {
    let mut w = world();
    w.home = None;
    assert_eq!(w.launch(&command(&["/bin/ls"], &[])).unwrap().dir, os("/"));
}

#[test]
fn wrong_answers_change_nothing() {
    let cmd = command(&["ls"], &[]);
    let launch = Launch::start(&cmd, String::new());
    let launch = launch.answer(&Reply::Path(Answer::Yes));
    assert!(matches!(launch.question(), Some(Query::Passwd(PasswdField::Dir))));
    assert!(launch.outcome().is_none());
}

#[test]
fn paths_are_joined_and_split() {
    assert_eq!(join_path(&os("/a"), &os("b")), os("/a/b"));
    assert_eq!(join_path(&os("/a/"), &os("b")), os("/a/b"));
    assert_eq!(join_path(&os("/a"), &os("/b")), os("/b"));
    assert_eq!(join_path(&os(""), &os("b")), os("b"));
    assert_eq!(join_path(&os("/a"), &os("")), os("/a/"));
    assert_eq!(texts(&split_paths(&os("/a::b"))), vec!["/a", "", "b"]);
    assert_eq!(texts(&split_paths(&os(""))), vec![""]);
    assert!(is_absolute(&os("/")));
    assert!(!is_absolute(&os("a/b")));
    assert_eq!(base_name(&os("/bin/zsh")), os("zsh"));
    assert_eq!(base_name(&os("zsh")), os("zsh"));
    assert_eq!(base_name(&os("/bin/")), os(""));
}

#[test]
fn child_is_set_up_in_order() {
    let mut cmd = command(&["ls"], &[]);
    cmd.pre_exec(4);
    cmd.pre_exec(2);
    cmd.umask(Some(0o77));
    let signals = [
        Signal::Child,
        Signal::Hangup,
        Signal::Interrupt,
        Signal::Quit,
        Signal::Terminate,
        Signal::Alarm,
    ];
    let mut want: Vec<SetupStep> = signals.iter().map(|s| SetupStep::DefaultSignal(*s)).collect();
    want.push(SetupStep::UnblockSignals);
    want.push(SetupStep::NewSession);
    want.push(SetupStep::ControllingTty);
    want.push(SetupStep::CloseFds);
    want.push(SetupStep::Umask(0o77));
    want.push(SetupStep::Hook(4));
    want.push(SetupStep::Hook(2));
    assert_eq!(child_setup(&cmd), want);
    let vital: Vec<bool> = want.iter().map(|s| s.must_succeed()).collect();
    assert_eq!(
        vital,
        vec![
            false, false, false, false, false, false, false, true, true, false, false, true, true
        ]
    );
    let mut plain = command(&["ls"], &[]);
    plain.set_controlling_tty(false);
    let steps = child_setup(&plain);
    assert_eq!(steps.len(), 9);
    assert_eq!(steps[8], SetupStep::CloseFds);
}

#[test]
fn only_other_file_descriptors_are_closed() {
    let names: Vec<OsString> = [
        "0", "1", "2", "3", "+4", "10", "-5", "x", "", "+", "007", "2147483647", "2147483648",
        "99999999999999999999",
    ]
    .iter()
    .map(|n| os(n))
    .collect();
    assert_eq!(fds_from_names(&names), vec![3, 4, 10, 7, 2147483647]);
}

fn open(
    size: PtySize,
    names: &[(i32, &[u8])],
    flags: (i32, i32),
) -> (Vec<String>, OpenStep) {
    let mut step = OpenStep::start(size);
    let mut seen = Vec::new();
    let mut asked = 0;
    loop {
        let event = match &step {
            OpenStep::Open(size) => {
                seen.push(format!("open {}x{}", size.ws_row, size.ws_col));
                OpenEvent::Opened(Ok((5, 6)))
            }
            OpenStep::Name { slave, size, .. } => {
                seen.push(format!("name {} {}", slave, size));
                let (code, text) = names[asked];
                asked += 1;
                let mut buffer = text.to_vec();
                buffer.resize(*size, 0);
                OpenEvent::Named { code, buffer }
            }
            OpenStep::GetFlags { of_master, .. } => {
                OpenEvent::Flags(Ok(if *of_master { flags.0 } else { flags.1 }))
            }
            OpenStep::SetFlags { of_master, flags, .. } => {
                seen.push(format!("{} {}", if *of_master { "master" } else { "slave" }, flags));
                OpenEvent::FlagsSet(Ok(()))
            }
            _ => return (seen, step),
        };
        step = step.next(event);
    }
}

#[test]
fn test_openpty() {
    let (seen, step) = open(PtySize::default(), &[(0, b"/dev/pts/0")], (0, 4));
    assert_eq!(seen, vec!["open 24x80", "name 6 128", "master 1", "slave 5"]);
    match step {
        OpenStep::Ready(pty) => {
            assert_eq!((pty.master, pty.slave), (5, 6));
        }
        other => panic!("{:?}", other),
    }
}

#[test]
fn test_tty_name() {
    let (_, step) = open(PtySize::default(), &[(34, b""), (0, b"/dev/pts/0")], (0, 0));
    let name = match step {
        OpenStep::Ready(pty) => pty.tty_name,
        other => panic!("{:?}", other),
    };
    assert!(name.is_some(), "expected a tty name on unix");
    let name = name.unwrap();
    assert!(
        name.display().contains("pts") || name.display().contains("tty"),
        "unexpected tty name: {:?}",
        name
    );
    assert_eq!(name, os("/dev/pts/0"));
}

#[test]
fn failed_opening_is_told() {
    let step = OpenStep::start(PtySize::default());
    let step = step.next(OpenEvent::Opened(Err(failure(24, "too many"))));
    assert!(matches!(&step, OpenStep::Failed(Error::Io(e)) if e.raw_os_error == Some(24)));
    let step = step.next(OpenEvent::Opened(Ok((1, 2))));
    assert!(matches!(step, OpenStep::Failed(_)));
    let step = OpenStep::start(PtySize::default()).next(OpenEvent::Opened(Ok((5, 6))));
    let step = step.next(OpenEvent::Named { code: 25, buffer: vec![] });
    assert!(
        matches!(&step, OpenStep::GetFlags { pty, of_master: true } if pty.tty_name.is_none())
    );
    let step = step.next(OpenEvent::Flags(Err(failure(9, "bad"))));
    assert!(matches!(step, OpenStep::Failed(Error::Io(e)) if e.message == "bad"));
    let step = OpenStep::start(PtySize::default()).next(OpenEvent::Opened(Ok((5, 6))));
    let step = step.next(OpenEvent::Named { code: 0, buffer: vec![] });
    let step = step.next(OpenEvent::Flags(Ok(0)));
    let step = step.next(OpenEvent::FlagsSet(Err(failure(9, "bad"))));
    assert!(matches!(step, OpenStep::Failed(Error::Io(_))));
}

#[test]
fn terminal_name_is_asked_for_with_growing_buffers() {
    let mut sizes = Vec::new();
    let mut state = TtyName::start();
    while let TtyName::Ask(size) = state {
        sizes.push(size);
        state = TtyName::answer(size, 34, &[]);
    }
    assert_eq!(sizes.first(), Some(&128));
    assert_eq!(sizes.last(), Some(&131072));
    assert_eq!(sizes.len(), 11);
    assert!(matches!(state, TtyName::Known(None)));
}

#[test]
fn test_resize() {
    let mut kernel: WinSize = PtySize::default().to_winsize();
    assert_eq!((kernel.ws_row, kernel.ws_col), (24, 80));

    let new_size = PtySize {
        rows: 50,
        cols: 120,
        pixel_width: 0,
        pixel_height: 0,
    };
    kernel = new_size.to_winsize();

    resized(0, failure(25, "unused")).unwrap();

    let got = size_read(0, kernel, failure(25, "unused")).unwrap();
    assert_eq!(got.rows, 50);
    assert_eq!(got.cols, 120);
}

#[test]
fn failed_calls_are_told() {
    assert!(matches!(resized(-1, failure(25, "no tty")), Err(Error::Io(e)) if e.message == "no tty"));
    let size = PtySize::default().to_winsize();
    let error = size_read(-1, size, failure(25, "no tty")).unwrap_err();
    assert!(matches!(error, Error::Io(e) if e.raw_os_error == Some(25)));
    assert!(zero_is_success(0, failure(1, "unused")).is_ok());
    assert_eq!(zero_is_success(1, failure(1, "denied")).unwrap_err().message, "denied");
    assert_eq!(minus_one_is_failure(-2, failure(1, "unused")).unwrap(), -2);
    assert_eq!(minus_one_is_failure(-1, failure(9, "bad")).unwrap_err().message, "bad");
}

#[test]
fn all_of_a_size_survives() {
    let size = PtySize { rows: 1, cols: 2, pixel_width: 3, pixel_height: 65535 };
    let kernel = size.to_winsize();
    assert_eq!((kernel.ws_xpixel, kernel.ws_ypixel), (3, 65535));
    assert_eq!(kernel.to_pty_size(), size);
    assert_eq!(
        PtySize::default(),
        PtySize { rows: 24, cols: 80, pixel_width: 0, pixel_height: 0 }
    );
}

#[test]
fn test_take_writer_twice_fails() {
    let mut slot = WriterSlot::new();
    assert!(!slot.is_taken());

    slot.take().unwrap();
    let result = slot.take();
    assert!(result.is_err());
    assert_eq!(result.unwrap_err().message(), "writer already taken");
    assert!(slot.take().is_err());
    assert!(slot.is_taken());
}

#[test]
fn writer_can_be_asked_for_again_where_making_it_failed() {
    let mut slot = WriterSlot::new();
    slot.request().unwrap();
    slot.record(false);
    assert!(!slot.is_taken());
    slot.request().unwrap();
    slot.record(true);
    assert!(matches!(slot.request(), Err(Error::WriterAlreadyTaken)));
    slot.record(false);
    assert!(matches!(slot.request(), Err(Error::WriterAlreadyTaken)));
}

#[test]
fn test_default_prog() {
    let base = BaseEnv::from_vars(Platform::Unix, &Vec::new());
    let cmd = CommandBuilder::new_default_prog(&base);
    assert!(cmd.is_default_prog());
    assert_eq!(world().launch(&cmd).unwrap().arg0, os("-zsh"));
}

#[test]
fn failed_transfer_is_the_end_of_input() {
    assert_eq!(read_result(Ok(3)).unwrap(), 3);
    assert_eq!(read_result(Err(failure(5, "gone"))).unwrap(), 0);
    assert_eq!(read_result(Err(failure(9, "bad"))).unwrap_err().message, "bad");
    let nameless = IoError {
        kind: IoErrorKind::WouldBlock,
        raw_os_error: None,
        message: String::new(),
    };
    assert!(read_result(Err(nameless)).is_err());
}

#[test]
fn foreground_group_and_end_of_input() {
    assert_eq!(process_group_leader(42), Some(42));
    assert_eq!(process_group_leader(0), None);
    assert_eq!(process_group_leader(-1), None);
    assert_eq!(end_of_input(4), Some(vec![10, 4]));
    assert_eq!(end_of_input(0), None);
}

/// The steps of ending a child that has ended at check `ends_at`.
fn kill(ends_at: Option<u32>) -> (u32, u32, bool, KillStep) {
    let mut pauses = 0;
    let mut polls = 0;
    let mut forced = false;
    let mut step = KillStep::Hangup;
    loop {
        let event = match &step {
            KillStep::Hangup => KillEvent::Sent(Ok(())),
            KillStep::Pause { .. } => {
                pauses += 1;
                KillEvent::Paused
            }
            KillStep::Poll { attempt } => {
                polls += 1;
                KillEvent::Polled(Some(*attempt) == ends_at)
            }
            KillStep::Force => {
                forced = true;
                KillEvent::Sent(Err(failure(3, "no such process")))
            }
            KillStep::Done(_) => return (pauses, polls, forced, step),
        };
        step = step.next(event);
    }
}

#[test]
fn child_is_killed_in_the_end() {
    let (pauses, polls, forced, step) = kill(None);
    assert_eq!((pauses, polls, forced), (4, 5, true));
    assert!(matches!(step, KillStep::Done(Err(e)) if e.message == "no such process"));
    let (pauses, polls, forced, step) = kill(Some(0));
    assert_eq!((pauses, polls, forced), (0, 1, false));
    assert!(matches!(step, KillStep::Done(Ok(()))));
    let (pauses, polls, forced, _) = kill(Some(4));
    assert_eq!((pauses, polls, forced), (4, 5, false));
    let step = KillStep::Hangup.next(KillEvent::Sent(Err(failure(1, "denied"))));
    assert!(matches!(step, KillStep::Done(Err(e)) if e.message == "denied"));
    assert!(matches!(KillStep::Hangup.next(KillEvent::Paused), KillStep::Hangup));
    assert_eq!(xpty::kill::KILL_PAUSE_MILLIS, 50);
}

#[test]
fn signaller_knows_its_process() {
    let signaller = ProcessSignaller::new(Some(77));
    assert_eq!(signaller.target(), Some(77));
    assert_eq!(signaller.clone_killer().target(), Some(77));
    assert_eq!(ProcessSignaller::new(Some(u32::MAX)).target(), Some(-1));
    assert_eq!(ProcessSignaller::new(None).target(), None);
}

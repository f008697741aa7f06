//! Turning a command into what a Unix process is started with.
//!
//! A [`Launch`] asks for what only the system knows, one question at a time,
//! and in the end gives the program, its arguments, its directory and its
//! environment.
use vstd::pervasive::unreached;
use vstd::prelude::*;
use vstd::utf8::encode_utf8;

use crate::cmdbuilder::{env_text, env_value, BuilderView, CommandBuilder};
use crate::env::Listing;
use crate::error::{Error, ErrorView};
use crate::lookup::{chosen_shell, field_text, lookup_chooses, shell_found, shell_left, shell_query,
    shell_start, shell_step, system_reply, text_of_field, PasswdField, Query, QueryView, Reply,
    ReplyView, ShellLookup, ShellStanding, System};
use crate::os_string::{os_pairs, os_views, OsString};
use crate::path::{base_name, last_component};
use crate::search::{candidate, search_finds_first, search_left, search_step, searched, standing_at, Answer, Probe,
    Request, Search, Standing};

verus! {

/// What a process is started with.
#[derive(Debug)]
pub struct Plan {
    /// The path of the program.
    pub program: OsString,
    /// The name under which the program is started.
    pub arg0: OsString,
    /// The other arguments.
    pub args: Vec<OsString>,
    /// The directory to start in.
    pub dir: OsString,
    /// The environment; of two values for one name the later one counts.
    pub env: Vec<(OsString, OsString)>,
}

/// What a [`Plan`] holds.
pub struct PlanView {
    pub program: Seq<u8>,
    pub arg0: Seq<u8>,
    pub args: Seq<Seq<u8>>,
    pub dir: Seq<u8>,
    pub env: Seq<(Seq<u8>, Seq<u8>)>,
}

impl View for Plan {
    type V = PlanView;

    open spec fn view(&self) -> PlanView {
        PlanView {
            program: self.program@,
            arg0: self.arg0@,
            args: os_views(self.args@),
            dir: self.dir@,
            env: os_pairs(self.env@),
        }
    }
}

/// Names, as they were given, and values of the variables of a listing.
pub open spec fn listed_pairs(listing: Listing) -> Seq<(Seq<u8>, Seq<u8>)> {
    listing.map_values(
        |slot: (Seq<u8>, crate::env::EnvEntryView)| (slot.1.preferred_key, slot.1.value),
    )
}

/// The environment of the process: the shell, and then the variables of the
/// command, which may name another.
pub open spec fn process_env(builder: BuilderView, shell: Seq<char>) -> Seq<(Seq<u8>, Seq<u8>)> {
    seq![(encode_utf8("SHELL"@), encode_utf8(shell))] + listed_pairs(builder.env)
}

/// The plan for a command that names no program: the shell, started under its own name with
/// a dash before it, which makes it a login shell.
pub open spec fn shell_plan(builder: BuilderView, dir: Seq<u8>, shell: Seq<char>) -> PlanView {
    PlanView {
        program: encode_utf8(shell),
        arg0: seq![45u8] + last_component(encode_utf8(shell)),
        args: seq![],
        dir,
        env: process_env(builder, shell),
    }
}

/// The plan for a program that was found at `program`: it is started under the
/// name that it was given.
pub open spec fn program_plan(
    builder: BuilderView,
    dir: Seq<u8>,
    shell: Seq<char>,
    program: Seq<u8>,
) -> PlanView {
    PlanView {
        program,
        arg0: builder.argv[0],
        args: builder.argv.skip(1),
        dir,
        env: process_env(builder, shell),
    }
}

/// The search for the program of a command.
pub open spec fn program_request(
    builder: BuilderView,
    path_text: Seq<char>,
    dir: Seq<u8>,
) -> Request {
    Request {
        exe: builder.argv[0],
        cwd: dir,
        path: match env_value(builder, encode_utf8("PATH"@)) {
            Some(path) => Some((path, path_text)),
            None => None,
        },
    }
}

/// Where a launch stands.
pub enum LaunchStanding {
    /// What is the user's home directory?
    Home,
    /// Is the directory of the command one?
    Directory { home: Seq<char> },
    /// Which shell?
    Shell { dir: Seq<u8>, lookup: ShellStanding },
    /// Where is the program?
    Program { dir: Seq<u8>, shell: Seq<char>, search: Standing },
    /// Everything is known.
    Ready(PlanView),
    /// The command cannot be started.
    Failed(ErrorView),
}

/// A launch that knows the home directory.
pub open spec fn with_home(builder: BuilderView, home: Seq<char>) -> LaunchStanding {
    match builder.cwd {
        Some(_) => LaunchStanding::Directory { home },
        None => with_dir(builder, encode_utf8(home)),
    }
}

/// A launch that knows the directory.
pub open spec fn with_dir(builder: BuilderView, dir: Seq<u8>) -> LaunchStanding {
    LaunchStanding::Shell {
        dir,
        lookup: shell_start(env_text(builder, encode_utf8("SHELL"@))),
    }
}

/// A launch whose lookup of the shell stands as given.
pub open spec fn with_lookup(
    builder: BuilderView,
    path_text: Seq<char>,
    dir: Seq<u8>,
    lookup: ShellStanding,
) -> LaunchStanding {
    match lookup {
        ShellStanding::Known(shell) => if builder.argv.len() == 0 {
            LaunchStanding::Ready(shell_plan(builder, dir, shell))
        } else {
            with_search(
                builder,
                dir,
                shell,
                standing_at(program_request(builder, path_text, dir), 0, seq![]),
            )
        },
        _ => LaunchStanding::Shell { dir, lookup },
    }
}

/// A launch whose search for the program stands as given.
pub open spec fn with_search(
    builder: BuilderView,
    dir: Seq<u8>,
    shell: Seq<char>,
    search: Standing,
) -> LaunchStanding {
    match search {
        Standing::Asking { .. } => LaunchStanding::Program { dir, shell, search },
        Standing::Found(path) => LaunchStanding::Ready(program_plan(builder, dir, shell, path)),
        Standing::Failed(error) => LaunchStanding::Failed(error),
    }
}

/// The start of a launch.
pub open spec fn launch_start(builder: BuilderView) -> LaunchStanding {
    match env_text(builder, encode_utf8("HOME"@)) {
        Some(home) => with_home(builder, home),
        None => LaunchStanding::Home,
    }
}

/// The home directory that the password database gives.
pub open spec fn home_of(field: Option<Seq<u8>>) -> Seq<char> {
    match field_text(field) {
        Some(home) => home,
        None => "/"@,
    }
}

/// The open question of a launch.
pub open spec fn launch_query(
    builder: BuilderView,
    path_text: Seq<char>,
    standing: LaunchStanding,
) -> Option<QueryView> {
    match standing {
        LaunchStanding::Home => Some(QueryView::Passwd(PasswdField::Dir)),
        LaunchStanding::Directory { .. } => match builder.cwd {
            Some(cwd) => Some(QueryView::Path(Probe::IsDir, cwd)),
            None => None,
        },
        LaunchStanding::Shell { lookup, .. } => shell_query(lookup),
        LaunchStanding::Program { dir, search, .. } => match search {
            Standing::Asking { index, probe, .. } => Some(
                QueryView::Path(
                    probe,
                    candidate(program_request(builder, path_text, dir), index),
                ),
            ),
            _ => None,
        },
        LaunchStanding::Ready(_) => None,
        LaunchStanding::Failed(_) => None,
    }
}

/// A launch after an answer; an answer to another question changes nothing.
pub open spec fn launch_step(
    builder: BuilderView,
    path_text: Seq<char>,
    standing: LaunchStanding,
    reply: ReplyView,
) -> LaunchStanding {
    match (standing, reply) {
        (LaunchStanding::Home, ReplyView::Passwd(field)) => with_home(builder, home_of(field)),
        (LaunchStanding::Directory { home }, ReplyView::Path(answer)) => match builder.cwd {
            Some(cwd) if answer == Answer::Yes => with_dir(builder, cwd),
            _ => with_dir(builder, encode_utf8(home)),
        },
        (LaunchStanding::Shell { dir, lookup }, _) => with_lookup(
            builder,
            path_text,
            dir,
            shell_step(lookup, reply),
        ),
        (LaunchStanding::Program { dir, shell, search }, ReplyView::Path(answer)) => with_search(
            builder,
            dir,
            shell,
            search_step(program_request(builder, path_text, dir), search, answer),
        ),
        _ => standing,
    }
}

/// How far a launch is from its end.
pub open spec fn launch_rank(standing: LaunchStanding) -> nat {
    match standing {
        LaunchStanding::Home => 4,
        LaunchStanding::Directory { .. } => 3,
        LaunchStanding::Shell { .. } => 2,
        LaunchStanding::Program { .. } => 1,
        LaunchStanding::Ready(_) => 0,
        LaunchStanding::Failed(_) => 0,
    }
}

/// How much is left of the part that a launch is in.
pub open spec fn launch_left(
    builder: BuilderView,
    path_text: Seq<char>,
    standing: LaunchStanding,
) -> nat {
    match standing {
        LaunchStanding::Shell { lookup, .. } => shell_left(lookup),
        LaunchStanding::Program { dir, search, .. } => search_left(
            program_request(builder, path_text, dir),
            search,
        ),
        _ => 0,
    }
}

/// The end of a launch whose questions a system answers.
pub open spec fn launched(
    builder: BuilderView,
    path_text: Seq<char>,
    standing: LaunchStanding,
    system: System,
) -> LaunchStanding
    decreases launch_rank(standing), launch_left(builder, path_text, standing),
{
    match launch_query(builder, path_text, standing) {
        Some(query) => launched(
            builder,
            path_text,
            launch_step(builder, path_text, standing, system_reply(system, query)),
            system,
        ),
        None => standing,
    }
}

/// The home directory on a system: the one that the environment names, else
/// the one in the password database, else the root.
pub open spec fn home_on(builder: BuilderView, system: System) -> Seq<char> {
    match env_text(builder, encode_utf8("HOME"@)) {
        Some(home) => home,
        None => home_of((system.passwd)(PasswdField::Dir)),
    }
}

/// The directory of the process on a system: the one that was asked for, if it
/// is one, else the home directory.
pub open spec fn dir_on(builder: BuilderView, system: System) -> Seq<u8> {
    match builder.cwd {
        Some(cwd) if (system.files)(Probe::IsDir, cwd) == Answer::Yes => cwd,
        _ => encode_utf8(home_on(builder, system)),
    }
}

/// The shell on a system.
pub open spec fn shell_on(builder: BuilderView, system: System) -> Seq<char> {
    chosen_shell(env_text(builder, encode_utf8("SHELL"@)), system)
}

/// What a command comes to on a system.
pub open spec fn launch_on(
    builder: BuilderView,
    path_text: Seq<char>,
    system: System,
) -> LaunchStanding {
    let dir = dir_on(builder, system);
    let shell = shell_on(builder, system);
    let request = program_request(builder, path_text, dir);
    if builder.argv.len() == 0 {
        LaunchStanding::Ready(shell_plan(builder, dir, shell))
    } else {
        with_search(
            builder,
            dir,
            shell,
            searched(request, standing_at(request, 0, seq![]), system.files),
        )
    }
}

/// A launch goes on as its search for the program does.
proof fn lemma_search_part(
    builder: BuilderView,
    path_text: Seq<char>,
    dir: Seq<u8>,
    shell: Seq<char>,
    search: Standing,
    system: System,
)
    ensures
        launched(builder, path_text, with_search(builder, dir, shell, search), system)
            == with_search(
            builder,
            dir,
            shell,
            searched(program_request(builder, path_text, dir), search, system.files),
        ),
    decreases search_left(program_request(builder, path_text, dir), search),
{
    let request = program_request(builder, path_text, dir);
    match search {
        Standing::Asking { index, probe, .. } => {
            let answer = (system.files)(probe, candidate(request, index));
            lemma_search_part(
                builder,
                path_text,
                dir,
                shell,
                search_step(request, search, answer),
                system,
            );
        },
        _ => {},
    }
}

/// A launch goes on as its lookup of the shell does.
proof fn lemma_shell_part(
    builder: BuilderView,
    path_text: Seq<char>,
    dir: Seq<u8>,
    lookup: ShellStanding,
    system: System,
)
    ensures
        launched(builder, path_text, with_lookup(builder, path_text, dir, lookup), system)
            == launched(
            builder,
            path_text,
            with_lookup(builder, path_text, dir, shell_found(lookup, system)),
            system,
        ),
    decreases shell_left(lookup),
{
    match shell_query(lookup) {
        Some(query) => {
            let reply = system_reply(system, query);
            lemma_shell_part(builder, path_text, dir, shell_step(lookup, reply), system);
        },
        None => {},
    }
}

/// From the directory on, a launch comes to the shell and the program.
proof fn lemma_dir_part(
    builder: BuilderView,
    path_text: Seq<char>,
    dir: Seq<u8>,
    system: System,
)
    requires
        dir == dir_on(builder, system),
    ensures
        launched(builder, path_text, with_dir(builder, dir), system) == launch_on(
            builder,
            path_text,
            system,
        ),
{
    let named = env_text(builder, encode_utf8("SHELL"@));
    let shell = shell_on(builder, system);
    let request = program_request(builder, path_text, dir);
    lookup_chooses(named, system);
    lemma_shell_part(builder, path_text, dir, shell_start(named), system);
    if builder.argv.len() > 0 {
        lemma_search_part(
            builder,
            path_text,
            dir,
            shell,
            standing_at(request, 0, seq![]),
            system,
        );
    }
}

/// Whatever the system answers, a launch ends: in the asked-for directory if
/// it is one and else at home, with the shell that is chosen there, and with
/// the shell itself or the program that the search finds, or its error.
pub proof fn launch_comes_to(builder: BuilderView, path_text: Seq<char>, system: System)
    ensures
        launched(builder, path_text, launch_start(builder), system) == launch_on(
            builder,
            path_text,
            system,
        ),
        launch_on(builder, path_text, system) is Ready || launch_on(
            builder,
            path_text,
            system,
        ) is Failed,
{
    let home = home_on(builder, system);
    let dir = dir_on(builder, system);
    lemma_dir_part(builder, path_text, dir, system);
    let at_home = with_home(builder, home);
    assert(launched(builder, path_text, at_home, system) == launch_on(builder, path_text, system))
        by {
        match builder.cwd {
            Some(cwd) => {
                let reply = system_reply(system, QueryView::Path(Probe::IsDir, cwd));
                assert(launch_step(builder, path_text, at_home, reply) == with_dir(builder, dir));
            },
            None => {},
        }
    }
    if builder.argv.len() > 0 {
        search_finds_first(program_request(builder, path_text, dir), system.files);
    }
}

/// The state of a launch, as plain values.
#[derive(Debug)]
enum Progress {
    Home,
    Directory { home: String },
    Shell { dir: OsString, lookup: ShellLookup },
    Program { dir: OsString, shell: String, search: Search },
    Ready(Plan),
    Failed(Error),
}

/// What a state of a launch stands for.
spec fn progress_standing(progress: Progress) -> LaunchStanding {
    match progress {
        Progress::Home => LaunchStanding::Home,
        Progress::Directory { home } => LaunchStanding::Directory { home: home@ },
        Progress::Shell { dir, lookup } => LaunchStanding::Shell { dir: dir@, lookup: lookup@ },
        Progress::Program { dir, shell, search } => LaunchStanding::Program {
            dir: dir@,
            shell: shell@,
            search: search.standing(),
        },
        Progress::Ready(plan) => LaunchStanding::Ready(plan@),
        Progress::Failed(error) => LaunchStanding::Failed(error@),
    }
}

/// A command on its way to being started.
#[derive(Debug)]
pub struct Launch<'a> {
    builder: &'a CommandBuilder,
    path_text: String,
    progress: Progress,
}

impl<'a> Launch<'a> {
    /// The command.
    pub closed spec fn builder(self) -> BuilderView {
        self.builder@
    }

    /// The text that stands for the search path in messages.
    pub closed spec fn path_text(self) -> Seq<char> {
        self.path_text@
    }

    /// Where the launch stands.
    pub closed spec fn standing(self) -> LaunchStanding {
        progress_standing(self.progress)
    }

    /// A search that is under way is the one for the program of the command,
    /// and a directory that is asked about is that of the command.
    #[verifier::type_invariant]
    pub closed spec fn well_formed(self) -> bool {
        match self.progress {
            Progress::Directory { .. } => self.builder@.cwd is Some,
            Progress::Program { dir, search, .. } => {
                &&& self.builder@.argv.len() > 0
                &&& search.request() == program_request(self.builder@, self.path_text@, dir@)
            },
            _ => true,
        }
    }

    /// Starts the launch of a command.  `path_text` stands for the search path
    /// in messages.
    pub fn start(builder: &'a CommandBuilder, path_text: String) -> (r: Self)
        ensures
            r.builder() == builder@,
            r.path_text() == path_text@,
            r.standing() == launch_start(builder@),
    {
        let progress = match builder.get_env_text("HOME") {
            Some(home) => progress_with_home(builder, home),
            None => Progress::Home,
        };
        Launch { builder, path_text, progress }
    }

    /// The open question, or nothing at the end.
    pub fn question(&self) -> (r: Option<Query>)
        ensures
            match r {
                Some(query) => launch_query(self.builder(), self.path_text(), self.standing())
                    == Some(query@),
                None => launch_query(self.builder(), self.path_text(), self.standing()) is None,
            },
    {
        proof {
            use_type_invariant(self);
        }
        match &self.progress {
            Progress::Home => Some(Query::Passwd(PasswdField::Dir)),
            Progress::Directory { .. } => match self.builder.get_cwd() {
                Some(cwd) => Some(Query::Path(Probe::IsDir, cwd.clone())),
                None => None,
            },
            Progress::Shell { lookup, .. } => lookup.question(),
            Progress::Program { search, .. } => match search.question() {
                Some((probe, path)) => Some(Query::Path(probe, path)),
                None => None,
            },
            Progress::Ready(_) => None,
            Progress::Failed(_) => None,
        }
    }

    /// Takes the answer to the open question.
    pub fn answer(self, reply: &Reply) -> (r: Self)
        ensures
            r.builder() == self.builder(),
            r.path_text() == self.path_text(),
            r.standing() == launch_step(
                self.builder(),
                self.path_text(),
                self.standing(),
                reply@,
            ),
    {
        proof {
            use_type_invariant(&self);
        }
        let Launch { builder, path_text, progress } = self;
        let next = match (progress, reply) {
            (Progress::Home, Reply::Passwd(field)) => {
                let home = match text_of_field(field) {
                    Some(home) => home,
                    None => "/".to_owned(),
                };
                progress_with_home(builder, home)
            },
            (Progress::Directory { home }, Reply::Path(answer)) => {
                let dir = match (builder.get_cwd(), answer) {
                    (Some(cwd), Answer::Yes) => cwd.clone(),
                    _ => OsString::from_text(home.as_str()),
                };
                progress_with_dir(builder, dir)
            },
            (Progress::Shell { dir, lookup }, _) => progress_with_lookup(
                builder,
                &path_text,
                dir,
                lookup.answer(reply),
            ),
            (Progress::Program { dir, shell, search }, Reply::Path(answer)) => {
                progress_with_search(builder, &path_text, dir, shell, search.answer(*answer))
            },
            (progress, _) => progress,
        };
        Launch { builder, path_text, progress: next }
    }

    /// The result at the end: what the process is started with, or the error.
    pub fn outcome(self) -> (r: Option<Result<Plan, Error>>)
        ensures
            match self.standing() {
                LaunchStanding::Ready(plan) => r matches Some(Ok(found)) && found@ == plan,
                LaunchStanding::Failed(error) => r matches Some(Err(failure)) && failure@ == error,
                _ => r is None,
            },
    {
        match self.progress {
            Progress::Ready(plan) => Some(Ok(plan)),
            Progress::Failed(error) => Some(Err(error)),
            _ => None,
        }
    }
}

/// The state of a launch that knows the home directory.
fn progress_with_home(builder: &CommandBuilder, home: String) -> (r: Progress)
    ensures
        progress_standing(r) == with_home(builder@, home@),
        r is Directory ==> builder@.cwd is Some,
        !(r is Program),
{
    match builder.get_cwd() {
        Some(_) => Progress::Directory { home },
        None => progress_with_dir(builder, OsString::from_text(home.as_str())),
    }
}

/// The state of a launch that knows the directory.
fn progress_with_dir(builder: &CommandBuilder, dir: OsString) -> (r: Progress)
    ensures
        progress_standing(r) == with_dir(builder@, dir@),
        r is Shell,
{
    Progress::Shell { dir, lookup: ShellLookup::from_builder(builder) }
}

/// The state of a launch whose lookup of the shell stands as given.
fn progress_with_lookup(
    builder: &CommandBuilder,
    path_text: &String,
    dir: OsString,
    lookup: ShellLookup,
) -> (r: Progress)
    ensures
        progress_standing(r) == with_lookup(builder@, path_text@, dir@, lookup@),
        !(r is Directory),
        r matches Progress::Program { dir: at, search, .. } ==> builder@.argv.len() > 0
            && search.request() == program_request(builder@, path_text@, at@),
{
    match lookup.known() {
        None => Progress::Shell { dir, lookup },
        Some(shell) => {
            if builder.get_argv().len() == 0 {
                return Progress::Ready(plan_for_shell(builder, dir, &shell));
            }
            let path = match builder.resolve_path() {
                Some(path) => Some((path.clone(), path_text.clone())),
                None => None,
            };
            let exe = first_argument(builder);
            let search = Search::start(exe, dir.clone(), path);
            progress_with_search(builder, path_text, dir, shell, search)
        },
    }
}

/// The state of a launch whose search for the program stands as given.
fn progress_with_search(
    builder: &CommandBuilder,
    path_text: &String,
    dir: OsString,
    shell: String,
    search: Search,
) -> (r: Progress)
    requires
        builder@.argv.len() > 0,
        search.request() == program_request(builder@, path_text@, dir@),
    ensures
        progress_standing(r) == with_search(builder@, dir@, shell@, search.standing()),
        !(r is Directory),
        r matches Progress::Program { dir: at, search, .. } ==> search.request()
            == program_request(builder@, path_text@, at@),
{
    if search.question().is_some() {
        return Progress::Program { dir, shell, search };
    }
    match search.outcome() {
        Some(Ok(path)) => Progress::Ready(plan_for_program(builder, dir, &shell, path)),
        Some(Err(error)) => Progress::Failed(error),
        None => unreached(),
    }
}

/// The program of a command as it was named.
fn first_argument(builder: &CommandBuilder) -> (r: OsString)
    requires
        builder@.argv.len() > 0,
    ensures
        r@ == builder@.argv[0],
{
    let argv = builder.get_argv();
    assert(os_views(argv@)[0] == argv@[0]@);
    argv[0].clone()
}

/// The environment of the process.
fn env_for(builder: &CommandBuilder, shell: &String) -> (r: Vec<(OsString, OsString)>)
    ensures
        os_pairs(r@) == process_env(builder@, shell@),
{
    let mut out: Vec<(OsString, OsString)> = Vec::new();
    out.push((OsString::from_text("SHELL"), OsString::from_text(shell.as_str())));
    let envs = builder.envs();
    let ghost head = os_pairs(out@);
    let ghost all = listed_pairs(builder@.env);
    let size = envs.len();
    assert(head + all.take(0) =~= head);
    for i in 0..size
        invariant
            size == envs@.len(),
            envs@ == builder@.env,
            all == listed_pairs(builder@.env),
            os_pairs(out@) == head + all.take(i as int),
    {
        let ghost before = out@;
        let entry = envs.entry(i);
        out.push((entry.preferred_key.clone(), entry.value.clone()));
        assert(os_pairs(out@) =~= os_pairs(before).push(all[i as int]));
        assert(all.take(i + 1) =~= all.take(i as int).push(all[i as int]));
    }
    assert(all.take(size as int) =~= all);
    assert(head =~= seq![(encode_utf8("SHELL"@), encode_utf8(shell@))]);
    out
}

/// The plan for a command that names no program.
fn plan_for_shell(builder: &CommandBuilder, dir: OsString, shell: &String) -> (r: Plan)
    ensures
        r@ == shell_plan(builder@, dir@, shell@),
{
    let program = OsString::from_text(shell.as_str());
    let mut arg0 = OsString::new();
    arg0.push_byte(45);
    arg0.push(&base_name(&program));
    assert(arg0@ =~= seq![45u8] + last_component(program@));
    let args: Vec<OsString> = Vec::new();
    assert(os_views(args@) =~= seq![]);
    Plan { program, arg0, args, dir, env: env_for(builder, shell) }
}

/// The plan for a program that was found.
fn plan_for_program(
    builder: &CommandBuilder,
    dir: OsString,
    shell: &String,
    program: OsString,
) -> (r: Plan)
    requires
        builder@.argv.len() > 0,
    ensures
        r@ == program_plan(builder@, dir@, shell@, program@),
{
    let argv = builder.get_argv();
    let mut args: Vec<OsString> = Vec::new();
    assert(os_views(args@) =~= builder@.argv.subrange(1, 1));
    for i in 1..argv.len()
        invariant
            os_views(argv@) == builder@.argv,
            argv@.len() > 0,
            os_views(args@) == builder@.argv.subrange(1, i as int),
    {
        let ghost before = args@;
        args.push(argv[i].clone());
        assert(os_views(args@) =~= os_views(before).push(builder@.argv[i as int]));
        assert(builder@.argv.subrange(1, i + 1) =~= builder@.argv.subrange(1, i as int).push(
            builder@.argv[i as int],
        ));
    }
    assert(builder@.argv.subrange(1, argv@.len() as int) =~= builder@.argv.skip(1));
    Plan {
        program,
        arg0: first_argument(builder),
        args,
        dir,
        env: env_for(builder, shell),
    }
}

} // verus!

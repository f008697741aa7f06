//! What the system is asked when a command is started, and how the shell to
//! run is found.
use vstd::prelude::*;
use vstd::utf8::{decode_utf8, encode_utf8, valid_utf8};

use crate::cmdbuilder::{env_text, CommandBuilder};
use crate::foreign::utf8_text;
use crate::os_string::OsString;
use crate::search::{Answer, Files, Probe};

verus! {

/// Entries of the user in the password database.
#[derive(Debug, Clone, Copy, PartialEq, Eq, Structural)]
pub enum PasswdField {
    /// The home directory.
    Dir,
    /// The login shell.
    Shell,
}

/// A question to the system.
#[derive(Debug)]
pub enum Query {
    /// What does the password database say of the user?
    Passwd(PasswdField),
    /// A question about a path.
    Path(Probe, OsString),
}

/// An answer of the system.
#[derive(Debug)]
pub enum Reply {
    /// The field, unless the user has no entry.
    Passwd(Option<Vec<u8>>),
    /// The answer to a question about a path.
    Path(Answer),
}

/// What a [`Query`] asks.
pub enum QueryView {
    Passwd(PasswdField),
    Path(Probe, Seq<u8>),
}

impl View for Query {
    type V = QueryView;

    open spec fn view(&self) -> QueryView {
        match self {
            Query::Passwd(field) => QueryView::Passwd(*field),
            Query::Path(probe, path) => QueryView::Path(*probe, path@),
        }
    }
}

/// What a [`Reply`] says.
pub enum ReplyView {
    Passwd(Option<Seq<u8>>),
    Path(Answer),
}

/// What an optional field holds.
pub open spec fn field_view(field: Option<Vec<u8>>) -> Option<Seq<u8>> {
    match field {
        Some(bytes) => Some(bytes@),
        None => None,
    }
}

impl View for Reply {
    type V = ReplyView;

    open spec fn view(&self) -> ReplyView {
        match self {
            Reply::Passwd(field) => ReplyView::Passwd(field_view(*field)),
            Reply::Path(answer) => ReplyView::Path(*answer),
        }
    }
}

/// The text of a field, where there is one and it is well-formed.
pub open spec fn field_text(field: Option<Seq<u8>>) -> Option<Seq<char>> {
    match field {
        Some(bytes) if valid_utf8(bytes) => Some(decode_utf8(bytes)),
        _ => None,
    }
}

/// The text of a field, where there is one and it is well-formed.
pub(crate) fn text_of_field(field: &Option<Vec<u8>>) -> (r: Option<String>)
    ensures
        match r {
            Some(text) => field_text(field_view(*field)) == Some(text@),
            None => field_text(field_view(*field)) is None,
        },
{
    match field {
        Some(bytes) => match utf8_text(bytes.as_slice()) {
            Some(text) => Some(text.to_owned()),
            None => None,
        },
        None => None,
    }
}

/// The shell that is there when no other is.
pub open spec fn last_resort() -> Seq<char> {
    "/bin/sh"@
}

/// Where the lookup of a shell stands.
pub enum ShellStanding {
    /// Can the shell of the environment be executed?
    Environment(Seq<char>),
    /// What is the login shell?
    Passwd,
    /// Can the login shell be executed?
    Login(Seq<char>),
    /// This shell it is.
    Known(Seq<char>),
}

/// The start of a lookup: the environment may name a shell.
pub open spec fn shell_start(named: Option<Seq<char>>) -> ShellStanding {
    match named {
        Some(shell) => ShellStanding::Environment(shell),
        None => ShellStanding::Passwd,
    }
}

/// The open question of a lookup.
pub open spec fn shell_query(standing: ShellStanding) -> Option<QueryView> {
    match standing {
        ShellStanding::Environment(shell) => Some(
            QueryView::Path(Probe::Execute, encode_utf8(shell)),
        ),
        ShellStanding::Passwd => Some(QueryView::Passwd(PasswdField::Shell)),
        ShellStanding::Login(shell) => Some(QueryView::Path(Probe::Execute, encode_utf8(shell))),
        ShellStanding::Known(_) => None,
    }
}

/// A lookup after an answer; an answer to another question changes nothing.
pub open spec fn shell_step(standing: ShellStanding, reply: ReplyView) -> ShellStanding {
    match (standing, reply) {
        (ShellStanding::Environment(shell), ReplyView::Path(answer)) => match answer {
            Answer::Yes => ShellStanding::Known(shell),
            Answer::No(_) => ShellStanding::Passwd,
        },
        (ShellStanding::Passwd, ReplyView::Passwd(field)) => match field_text(field) {
            Some(shell) => ShellStanding::Login(shell),
            None => ShellStanding::Known(last_resort()),
        },
        (ShellStanding::Login(shell), ReplyView::Path(answer)) => match answer {
            Answer::Yes => ShellStanding::Known(shell),
            Answer::No(_) => ShellStanding::Known(last_resort()),
        },
        _ => standing,
    }
}

/// A system: its file system, and what its password database says of the user.
pub struct System {
    pub files: Files,
    pub passwd: spec_fn(PasswdField) -> Option<Seq<u8>>,
}

/// The answer of a system to a question.
pub open spec fn system_reply(system: System, query: QueryView) -> ReplyView {
    match query {
        QueryView::Passwd(field) => ReplyView::Passwd((system.passwd)(field)),
        QueryView::Path(probe, path) => ReplyView::Path((system.files)(probe, path)),
    }
}

/// Whether a system lets a shell be executed.
pub open spec fn can_run(system: System, shell: Seq<char>) -> bool {
    (system.files)(Probe::Execute, encode_utf8(shell)) == Answer::Yes
}

/// The shell on a system: the one that the environment names, else the login
/// shell, else the last resort; one that cannot be executed is passed over.
pub open spec fn chosen_shell(named: Option<Seq<char>>, system: System) -> Seq<char> {
    let login = field_text((system.passwd)(PasswdField::Shell));
    match named {
        Some(shell) if can_run(system, shell) => shell,
        _ => match login {
            Some(shell) if can_run(system, shell) => shell,
            _ => last_resort(),
        },
    }
}

/// How much is left of a lookup.
pub open spec fn shell_left(standing: ShellStanding) -> nat {
    match standing {
        ShellStanding::Environment(_) => 3,
        ShellStanding::Passwd => 2,
        ShellStanding::Login(_) => 1,
        ShellStanding::Known(_) => 0,
    }
}

/// The end of a lookup whose questions a system answers.
pub open spec fn shell_found(standing: ShellStanding, system: System) -> ShellStanding
    decreases shell_left(standing),
{
    match shell_query(standing) {
        Some(query) => shell_found(shell_step(standing, system_reply(system, query)), system),
        None => standing,
    }
}

/// Whatever the system answers, a lookup ends, and with the shell that is
/// chosen there.
pub proof fn lookup_chooses(named: Option<Seq<char>>, system: System)
    ensures
        shell_found(shell_start(named), system) == ShellStanding::Known(
            chosen_shell(named, system),
        ),
{
    reveal_with_fuel(shell_found, 4);
}

/// The state of a lookup, as plain values.
#[derive(Debug)]
enum ShellProgress {
    Environment(String),
    Passwd,
    Login(String),
    Known(String),
}

/// The lookup of the shell to run.
#[derive(Debug)]
pub struct ShellLookup {
    progress: ShellProgress,
}

impl View for ShellLookup {
    type V = ShellStanding;

    closed spec fn view(&self) -> ShellStanding {
        match self.progress {
            ShellProgress::Environment(shell) => ShellStanding::Environment(shell@),
            ShellProgress::Passwd => ShellStanding::Passwd,
            ShellProgress::Login(shell) => ShellStanding::Login(shell@),
            ShellProgress::Known(shell) => ShellStanding::Known(shell@),
        }
    }
}

impl ShellLookup {
    /// Starts at the password database.
    pub fn from_passwd() -> (r: Self)
        ensures
            r@ == shell_start(None),
    {
        ShellLookup { progress: ShellProgress::Passwd }
    }

    /// Starts at the shell that the environment of a command names.
    pub fn from_builder(builder: &CommandBuilder) -> (r: Self)
        ensures
            r@ == shell_start(env_text(builder@, encode_utf8("SHELL"@))),
    {
        match builder.get_env_text("SHELL") {
            Some(shell) => ShellLookup { progress: ShellProgress::Environment(shell) },
            None => ShellLookup { progress: ShellProgress::Passwd },
        }
    }

    /// The open question, or nothing when the shell is known.
    pub fn question(&self) -> (r: Option<Query>)
        ensures
            match r {
                Some(query) => shell_query(self@) == Some(query@),
                None => shell_query(self@) is None,
            },
    {
        match &self.progress {
            ShellProgress::Environment(shell) => Some(
                Query::Path(Probe::Execute, OsString::from_text(shell.as_str())),
            ),
            ShellProgress::Passwd => Some(Query::Passwd(PasswdField::Shell)),
            ShellProgress::Login(shell) => Some(
                Query::Path(Probe::Execute, OsString::from_text(shell.as_str())),
            ),
            ShellProgress::Known(_) => None,
        }
    }

    /// Takes the answer to the open question.
    pub fn answer(self, reply: &Reply) -> (r: Self)
        ensures
            r@ == shell_step(self@, reply@),
    {
        let progress = match (self.progress, reply) {
            (ShellProgress::Environment(shell), Reply::Path(answer)) => match answer {
                Answer::Yes => ShellProgress::Known(shell),
                Answer::No(_) => ShellProgress::Passwd,
            },
            (ShellProgress::Passwd, Reply::Passwd(field)) => match text_of_field(field) {
                Some(shell) => ShellProgress::Login(shell),
                None => ShellProgress::Known("/bin/sh".to_owned()),
            },
            (ShellProgress::Login(shell), Reply::Path(answer)) => match answer {
                Answer::Yes => ShellProgress::Known(shell),
                Answer::No(_) => ShellProgress::Known("/bin/sh".to_owned()),
            },
            (progress, _) => progress,
        };
        ShellLookup { progress }
    }

    /// The shell, when it is known.
    pub fn known(&self) -> (r: Option<String>)
        ensures
            match self@ {
                ShellStanding::Known(shell) => r matches Some(found) && found@ == shell,
                _ => r is None,
            },
    {
        match &self.progress {
            ShellProgress::Known(shell) => Some(shell.clone()),
            _ => None,
        }
    }
}

} // verus!

//! Finding the program of a command on Unix.
//!
//! A [`Search`] says which question about the file system comes next, takes
//! the answer, and in the end knows the path of the program or why there is
//! none.
use vstd::prelude::*;

use crate::error::{Error, ErrorView};
use crate::foreign::{describe_errno, errno_text, lossy_text};
use crate::os_string::{os_views, OsString};
use crate::path::{is_absolute, is_absolute_path, is_cwd_relative, is_cwd_relative_path, join_path,
    joined_path, split_at_mark, split_paths, COLON};
use crate::text::{concat, join, joined, texts};

verus! {

/// Questions about a path.
#[derive(Debug, Clone, Copy, PartialEq, Eq, Structural)]
pub enum Probe {
    /// Is it a directory?
    IsDir,
    /// May it be executed?
    Execute,
    /// Does it exist?
    Exists,
}

/// Answers to a question about a path.
#[derive(Debug, Clone, Copy, PartialEq, Eq, Structural)]
pub enum Answer {
    Yes,
    /// No, with the error number of the operating system.
    No(i32),
}

/// What the answers say of a path as a program.
#[derive(Debug, Clone, Copy, PartialEq, Eq, Structural)]
pub enum Verdict {
    /// It is a directory.
    Directory,
    /// It can be executed.
    Executable,
    /// It exists but cannot be executed, for the given reason.
    NotExecutable(i32),
    /// It does not exist; executing it failed for the given reason.
    Missing(i32),
}

/// Either the next question about a path, or the verdict on it.
#[derive(Debug, Clone, Copy, PartialEq, Eq, Structural)]
pub enum Next {
    Ask(Probe),
    Settled(Verdict),
}

/// What follows from an answer: a directory is no program, what can be
/// executed is one, and only of what cannot be is it asked whether it exists.
/// `errno` is the reason why execution was refused, if it was.
pub open spec fn after_answer(probe: Probe, errno: i32, answer: Answer) -> Next {
    match (probe, answer) {
        (Probe::IsDir, Answer::Yes) => Next::Settled(Verdict::Directory),
        (Probe::IsDir, Answer::No(_)) => Next::Ask(Probe::Execute),
        (Probe::Execute, Answer::Yes) => Next::Settled(Verdict::Executable),
        (Probe::Execute, Answer::No(_)) => Next::Ask(Probe::Exists),
        (Probe::Exists, Answer::Yes) => Next::Settled(Verdict::NotExecutable(errno)),
        (Probe::Exists, Answer::No(_)) => Next::Settled(Verdict::Missing(errno)),
    }
}

/// The reason to remember after an answer.
pub open spec fn errno_after(probe: Probe, errno: i32, answer: Answer) -> i32 {
    match (probe, answer) {
        (Probe::Execute, Answer::No(reason)) => reason,
        _ => errno,
    }
}

/// How the program was named.
#[derive(Debug, Clone, Copy, PartialEq, Eq, Structural)]
pub enum Naming {
    /// By an absolute path.
    Absolute,
    /// By a path that starts with `.` or `..`.
    CwdRelative,
    /// By a name that is looked up in the search path.
    Name,
}

/// The way in which a program is named.
pub open spec fn naming_of(exe: Seq<u8>) -> Naming {
    if is_absolute_path(exe) {
        Naming::Absolute
    } else if is_cwd_relative(exe) {
        Naming::CwdRelative
    } else {
        Naming::Name
    }
}

/// What is searched for, and where.
pub struct Request {
    /// The program as it was named.
    pub exe: Seq<u8>,
    /// The directory that relative paths start from.
    pub cwd: Seq<u8>,
    /// The search path, with its text for messages.
    pub path: Option<(Seq<u8>, Seq<char>)>,
}

/// The directories of the search path.
pub open spec fn search_dirs(request: Request) -> Seq<Seq<u8>> {
    match request.path {
        Some(path) => split_at_mark(path.0, COLON),
        None => seq![],
    }
}

/// How many paths may be the program.
pub open spec fn candidate_count(request: Request) -> nat {
    match naming_of(request.exe) {
        Naming::Absolute => 1,
        Naming::CwdRelative => 1,
        Naming::Name => search_dirs(request).len(),
    }
}

/// The paths that may be the program, in the order in which they are tried.
pub open spec fn candidate(request: Request, i: int) -> Seq<u8> {
    match naming_of(request.exe) {
        Naming::Absolute => request.exe,
        Naming::CwdRelative => joined_path(request.cwd, request.exe),
        Naming::Name => joined_path(
            joined_path(request.cwd, search_dirs(request)[i]),
            request.exe,
        ),
    }
}

/// A path and the reason why it cannot be executed, for a message.
pub open spec fn path_with_reason(path: Seq<char>, reason: Seq<char>) -> Seq<char> {
    path + " ("@ + reason + ")"@
}

/// What goes into the message about a failed search for a path that is none.
pub open spec fn notes_after(notes: Seq<Seq<char>>, path: Seq<char>, verdict: Verdict) -> Seq<
    Seq<char>,
> {
    match verdict {
        Verdict::Directory => notes.push(path + " exists but is a directory"@),
        Verdict::NotExecutable(_) => notes.push(path + " exists but is not executable"@),
        _ => notes,
    }
}

/// The message about a failed search.
pub open spec fn not_found_text(exe: Seq<char>, notes: Seq<Seq<char>>) -> Seq<char> {
    "Unable to spawn "@ + exe + ": "@ + joined(notes, ".\n"@)
}

/// The last note of a failed search.
pub open spec fn closing_note(path: Option<Seq<char>>) -> Seq<char> {
    match path {
        Some(text) => "No viable candidates found in PATH "@ + text,
        None => "Unable to resolve the PATH"@,
    }
}

/// The error when the search path is used up: where nothing was to be said of
/// any candidate, the program is not there at all.
pub open spec fn exhausted(request: Request, notes: Seq<Seq<char>>) -> ErrorView {
    match request.path {
        Some(path) => if notes.len() == 0 {
            ErrorView::CommandNotFound(
                path_with_reason(lossy_text(request.exe), closing_note(Some(path.1))),
            )
        } else {
            ErrorView::PathResolution(
                not_found_text(lossy_text(request.exe), notes.push(closing_note(Some(path.1)))),
            )
        },
        None => ErrorView::PathResolution(
            not_found_text(lossy_text(request.exe), notes.push(closing_note(None))),
        ),
    }
}

/// The text about the one path that may be the program, where it is refused.
pub open spec fn refused_text(naming: Naming, path: Seq<u8>, errno: i32) -> Seq<char> {
    if naming == Naming::Absolute {
        path_with_reason(lossy_text(path), errno_text(errno))
    } else {
        lossy_text(path)
    }
}

/// Where a search stands.
pub enum Standing {
    /// A question about candidate `index` is open.
    Asking { index: int, probe: Probe, errno: i32, notes: Seq<Seq<char>> },
    /// The program was found.
    Found(Seq<u8>),
    /// There is no such program.
    Failed(ErrorView),
}

/// A search at candidate `index`, or at its end where there is none left.
pub open spec fn standing_at(request: Request, index: int, notes: Seq<Seq<char>>) -> Standing {
    if index < candidate_count(request) {
        Standing::Asking { index, probe: Probe::IsDir, errno: 0, notes }
    } else {
        Standing::Failed(exhausted(request, notes))
    }
}

/// Where a search stands after the verdict on candidate `index`.
pub open spec fn after_verdict(
    request: Request,
    index: int,
    notes: Seq<Seq<char>>,
    verdict: Verdict,
) -> Standing {
    let path = candidate(request, index);
    let naming = naming_of(request.exe);
    match verdict {
        Verdict::Executable => Standing::Found(path),
        _ if naming == Naming::Name => standing_at(
            request,
            index + 1,
            notes_after(notes, lossy_text(path), verdict),
        ),
        Verdict::Directory => Standing::Failed(ErrorView::IsDirectory(lossy_text(path))),
        Verdict::NotExecutable(errno) => Standing::Failed(
            ErrorView::NotExecutable(refused_text(naming, path, errno)),
        ),
        Verdict::Missing(errno) => Standing::Failed(
            ErrorView::CommandNotFound(refused_text(naming, path, errno)),
        ),
    }
}

/// Where a search stands after an answer.
pub open spec fn search_step(request: Request, standing: Standing, answer: Answer) -> Standing {
    match standing {
        Standing::Asking { index, probe, errno, notes } => match after_answer(
            probe,
            errno,
            answer,
        ) {
            Next::Ask(next) => Standing::Asking {
                index,
                probe: next,
                errno: errno_after(probe, errno, answer),
                notes,
            },
            Next::Settled(verdict) => after_verdict(request, index, notes, verdict),
        },
        _ => standing,
    }
}

/// A file system: its answer to each question about each path.
pub type Files = spec_fn(Probe, Seq<u8>) -> Answer;

/// The verdict on a path in a file system.
pub open spec fn verdict_on(files: Files, path: Seq<u8>) -> Verdict {
    if files(Probe::IsDir, path) == Answer::Yes {
        Verdict::Directory
    } else {
        match files(Probe::Execute, path) {
            Answer::Yes => Verdict::Executable,
            Answer::No(errno) => if files(Probe::Exists, path) == Answer::Yes {
                Verdict::NotExecutable(errno)
            } else {
                Verdict::Missing(errno)
            },
        }
    }
}

/// How much is left of a search.
pub open spec fn search_left(request: Request, standing: Standing) -> nat {
    match standing {
        Standing::Asking { index, probe, .. } => {
            let rank = match probe {
                Probe::IsDir => 3nat,
                Probe::Execute => 2nat,
                Probe::Exists => 1nat,
            };
            if index < candidate_count(request) {
                (3 * (candidate_count(request) - index)) as nat + rank
            } else {
                rank
            }
        },
        _ => 0,
    }
}

/// The end of a search whose questions a file system answers.
pub open spec fn searched(request: Request, standing: Standing, files: Files) -> Standing
    decreases search_left(request, standing),
{
    match standing {
        Standing::Asking { index, probe, .. } => searched(
            request,
            search_step(request, standing, files(probe, candidate(request, index))),
            files,
        ),
        _ => standing,
    }
}

/// Whether a candidate is the first that can be executed.
pub open spec fn is_first_executable(request: Request, files: Files, i: int) -> bool {
    &&& 0 <= i < candidate_count(request)
    &&& verdict_on(files, candidate(request, i)) == Verdict::Executable
    &&& forall|j: int|
        0 <= j < i ==> verdict_on(files, #[trigger] candidate(request, j)) != Verdict::Executable
}

/// The questions about one candidate lead to the verdict on it.
proof fn lemma_candidate(request: Request, files: Files, index: int, notes: Seq<Seq<char>>)
    requires
        0 <= index < candidate_count(request),
    ensures
        searched(request, standing_at(request, index, notes), files) == searched(
            request,
            after_verdict(
                request,
                index,
                notes,
                verdict_on(files, candidate(request, index)),
            ),
            files,
        ),
{
    let path = candidate(request, index);
    let first = standing_at(request, index, notes);
    let second = search_step(request, first, files(Probe::IsDir, path));
    assert(searched(request, first, files) == searched(request, second, files));
    if files(Probe::IsDir, path) != Answer::Yes {
        assert(second is Asking);
        let third = search_step(request, second, files(Probe::Execute, path));
        assert(searched(request, second, files) == searched(request, third, files));
        if files(Probe::Execute, path) != Answer::Yes {
            let last = search_step(request, third, files(Probe::Exists, path));
            assert(searched(request, third, files) == searched(request, last, files));
        }
    }
}

/// From candidate `index` on, a search ends with the first that can be
/// executed, or fails where there is none.
proof fn lemma_search_from(request: Request, files: Files, index: int, notes: Seq<Seq<char>>)
    requires
        0 <= index <= candidate_count(request),
        index > 0 ==> naming_of(request.exe) == Naming::Name,
        forall|j: int|
            0 <= j < index ==> verdict_on(files, #[trigger] candidate(request, j))
                != Verdict::Executable,
    ensures
        match searched(request, standing_at(request, index, notes), files) {
            Standing::Found(path) => exists|i: int|
                is_first_executable(request, files, i) && path == candidate(request, i),
            Standing::Failed(_) => forall|i: int|
                0 <= i < candidate_count(request) ==> verdict_on(
                    files,
                    #[trigger] candidate(request, i),
                ) != Verdict::Executable,
            Standing::Asking { .. } => false,
        },
    decreases candidate_count(request) - index,
{
    if index < candidate_count(request) {
        lemma_candidate(request, files, index, notes);
        let path = candidate(request, index);
        let verdict = verdict_on(files, path);
        if verdict == Verdict::Executable {
            assert(is_first_executable(request, files, index));
        } else if naming_of(request.exe) == Naming::Name {
            lemma_search_from(
                request,
                files,
                index + 1,
                notes_after(notes, lossy_text(path), verdict),
            );
        }
    }
}

/// Whatever the file system answers, a search ends, and it ends with the first
/// candidate that is no directory and can be executed; it fails only where no
/// candidate is one.
pub proof fn search_finds_first(request: Request, files: Files)
    ensures
        match searched(request, standing_at(request, 0, seq![]), files) {
            Standing::Found(path) => exists|i: int|
                is_first_executable(request, files, i) && path == candidate(request, i),
            Standing::Failed(_) => forall|i: int|
                0 <= i < candidate_count(request) ==> verdict_on(
                    files,
                    #[trigger] candidate(request, i),
                ) != Verdict::Executable,
            Standing::Asking { .. } => false,
        },
{
    lemma_search_from(request, files, 0, seq![]);
}

/// What is said of the first `k` candidates where none of them is the program.
pub open spec fn notes_on(request: Request, files: Files, k: nat) -> Seq<Seq<char>>
    decreases k,
{
    if k == 0 {
        seq![]
    } else {
        let path = candidate(request, k - 1);
        notes_after(
            notes_on(request, files, (k - 1) as nat),
            lossy_text(path),
            verdict_on(files, path),
        )
    }
}

/// The error where no candidate is the program.
pub open spec fn failure_on(request: Request, files: Files) -> ErrorView {
    let naming = naming_of(request.exe);
    let path = candidate(request, 0);
    if naming == Naming::Name {
        exhausted(request, notes_on(request, files, candidate_count(request)))
    } else {
        match verdict_on(files, path) {
            Verdict::NotExecutable(errno) => ErrorView::NotExecutable(
                refused_text(naming, path, errno),
            ),
            Verdict::Missing(errno) => ErrorView::CommandNotFound(
                refused_text(naming, path, errno),
            ),
            _ => ErrorView::IsDirectory(lossy_text(path)),
        }
    }
}

/// From candidate `index` on, a search that finds nothing tells all that there
/// is to tell.
proof fn lemma_search_fails(request: Request, files: Files, index: nat)
    requires
        index <= candidate_count(request),
        index > 0 ==> naming_of(request.exe) == Naming::Name,
        forall|i: int|
            0 <= i < candidate_count(request) ==> verdict_on(
                files,
                #[trigger] candidate(request, i),
            ) != Verdict::Executable,
    ensures
        searched(
            request,
            standing_at(request, index as int, notes_on(request, files, index)),
            files,
        ) == Standing::Failed(failure_on(request, files)),
    decreases candidate_count(request) - index,
{
    if index < candidate_count(request) {
        lemma_candidate(request, files, index as int, notes_on(request, files, index));
        assert(verdict_on(files, candidate(request, index as int)) != Verdict::Executable);
        if naming_of(request.exe) == Naming::Name {
            lemma_search_fails(request, files, index + 1);
        }
    }
}

/// A search that finds nothing fails with what the file system says: for a
/// program that is named by a path, why that path is none; for one that is
/// looked up, each candidate that exists and why it is none.
pub proof fn failed_search_tells_why(request: Request, files: Files)
    requires
        forall|i: int|
            0 <= i < candidate_count(request) ==> verdict_on(
                files,
                #[trigger] candidate(request, i),
            ) != Verdict::Executable,
    ensures
        searched(request, standing_at(request, 0, seq![]), files) == Standing::Failed(
            failure_on(request, files),
        ),
{
    lemma_search_fails(request, files, 0);
}

/// Whether a program is in none of the directories of the search path.
pub open spec fn is_in_no_directory(request: Request, files: Files) -> bool {
    forall|i: int|
        0 <= i < candidate_count(request) ==> verdict_on(
            files,
            #[trigger] candidate(request, i),
        ) is Missing
}

/// Something is said of the first `k` candidates exactly where one of them
/// exists.
pub(crate) proof fn lemma_notes(request: Request, files: Files, k: nat)
    requires
        k <= candidate_count(request),
        forall|i: int|
            0 <= i < candidate_count(request) ==> verdict_on(
                files,
                #[trigger] candidate(request, i),
            ) != Verdict::Executable,
    ensures
        notes_on(request, files, k).len() == 0 <==> forall|i: int|
            0 <= i < k ==> verdict_on(files, #[trigger] candidate(request, i)) is Missing,
    decreases k,
{
    if k > 0 {
        lemma_notes(request, files, (k - 1) as nat);
        assert(verdict_on(files, candidate(request, k - 1)) != Verdict::Executable);
    }
}

/// A program that is looked up, and that no directory of the search path has,
/// is not found.  One that is there, but cannot be executed anywhere, is a
/// failure to resolve it, and so is a search path that is missing.
pub proof fn absent_program_is_not_found(request: Request, files: Files)
    requires
        naming_of(request.exe) == Naming::Name,
        forall|i: int|
            0 <= i < candidate_count(request) ==> verdict_on(
                files,
                #[trigger] candidate(request, i),
            ) != Verdict::Executable,
    ensures
        match searched(request, standing_at(request, 0, seq![]), files) {
            Standing::Failed(ErrorView::CommandNotFound(_)) => request.path is Some
                && is_in_no_directory(request, files),
            Standing::Failed(ErrorView::PathResolution(_)) => request.path is None
                || !is_in_no_directory(request, files),
            _ => false,
        },
{
    failed_search_tells_why(request, files);
    lemma_notes(request, files, candidate_count(request));
}

/// A program that is named by a path is not looked up: the search path has no
/// part in what comes out.
pub proof fn search_path_only_for_names(a: Request, b: Request, files: Files)
    requires
        a.exe == b.exe,
        a.cwd == b.cwd,
        naming_of(a.exe) != Naming::Name,
    ensures
        searched(a, standing_at(a, 0, seq![]), files) == searched(
            b,
            standing_at(b, 0, seq![]),
            files,
        ),
{
    lemma_candidate(a, files, 0, seq![]);
    lemma_candidate(b, files, 0, seq![]);
}

/// A path and the reason why it cannot be executed, for a message.
pub fn describe_refusal(path: &str, reason: &str) -> (r: String)
    ensures
        r@ == path_with_reason(path@, reason@),
{
    let mut out = concat(path, " (");
    out.append(reason);
    out.append(")");
    out
}

/// What follows from an answer about a path.
pub fn next_probe(probe: Probe, errno: i32, answer: Answer) -> (r: Next)
    ensures
        r == after_answer(probe, errno, answer),
{
    match (probe, answer) {
        (Probe::IsDir, Answer::Yes) => Next::Settled(Verdict::Directory),
        (Probe::IsDir, Answer::No(_)) => Next::Ask(Probe::Execute),
        (Probe::Execute, Answer::Yes) => Next::Settled(Verdict::Executable),
        (Probe::Execute, Answer::No(_)) => Next::Ask(Probe::Exists),
        (Probe::Exists, Answer::Yes) => Next::Settled(Verdict::NotExecutable(errno)),
        (Probe::Exists, Answer::No(_)) => Next::Settled(Verdict::Missing(errno)),
    }
}

/// The message about a failed search.
pub fn describe_failure(exe: &str, notes: &Vec<String>) -> (r: String)
    ensures
        r@ == not_found_text(exe@, texts(notes@)),
{
    let mut out = concat("Unable to spawn ", exe);
    out.append(": ");
    out.append(join(notes, ".\n").as_str());
    out
}

/// What a search path with its text holds.
pub open spec fn path_view(path: Option<(OsString, String)>) -> Option<(Seq<u8>, Seq<char>)> {
    match path {
        Some(path) => Some((path.0@, path.1@)),
        None => None,
    }
}

/// The state of a search, as plain values.
#[derive(Debug)]
enum Progress {
    Asking { index: usize, probe: Probe, errno: i32, notes: Vec<String> },
    Found(OsString),
    Failed(Error),
}

/// A search for the program of a command.
#[derive(Debug)]
pub struct Search {
    exe: OsString,
    cwd: OsString,
    naming: Naming,
    path: Option<(OsString, String)>,
    dirs: Vec<OsString>,
    progress: Progress,
}

/// What a state of a search stands for.
spec fn progress_standing(progress: Progress) -> Standing {
    match progress {
        Progress::Asking { index, probe, errno, notes } => Standing::Asking {
            index: index as int,
            probe,
            errno,
            notes: texts(notes@),
        },
        Progress::Found(path) => Standing::Found(path@),
        Progress::Failed(error) => Standing::Failed(error@),
    }
}

impl Search {
    /// What is searched for.
    pub closed spec fn request(self) -> Request {
        Request {
            exe: self.exe@,
            cwd: self.cwd@,
            path: path_view(self.path),
        }
    }

    /// Where the search stands.
    pub closed spec fn standing(self) -> Standing {
        progress_standing(self.progress)
    }

    /// The directories are those of the search path, and an open question is
    /// about a candidate.
    #[verifier::type_invariant]
    pub closed spec fn well_formed(self) -> bool {
        &&& self.naming == naming_of(self.exe@)
        &&& os_views(self.dirs@) == search_dirs(self.request())
        &&& match self.progress {
            Progress::Asking { index, .. } => index < candidate_count(self.request()),
            _ => true,
        }
    }

    /// Starts the search for `exe`.  With the search path comes the text that
    /// stands for it in messages.
    pub fn start(exe: OsString, cwd: OsString, path: Option<(OsString, String)>) -> (r: Self)
        ensures
            r.request() == (Request {
                exe: exe@,
                cwd: cwd@,
                path: path_view(path),
            }),
            r.standing() == standing_at(r.request(), 0, seq![]),
    {
        let naming = if is_absolute(&exe) {
            Naming::Absolute
        } else if is_cwd_relative_path(&exe) {
            Naming::CwdRelative
        } else {
            Naming::Name
        };
        let dirs = match &path {
            Some(path) => split_paths(&path.0),
            None => Vec::new(),
        };
        let ghost request = Request {
            exe: exe@,
            cwd: cwd@,
            path: path_view(path),
        };
        assert(os_views(dirs@) =~= search_dirs(request));
        let notes: Vec<String> = Vec::new();
        assert(texts(notes@) =~= seq![]);
        let progress = progress_at(naming, &exe, &path, dirs.len(), 0, notes, Ghost(request));
        Search { exe, cwd, naming, path, dirs, progress }
    }

    /// The open question and the path it is about, or nothing at the end.
    pub fn question(&self) -> (r: Option<(Probe, OsString)>)
        ensures
            match self.standing() {
                Standing::Asking { index, probe, .. } => r matches Some((asked, path)) && asked
                    == probe && path@ == candidate(self.request(), index),
                _ => r is None,
            },
    {
        proof {
            use_type_invariant(self);
        }
        match &self.progress {
            Progress::Asking { index, probe, .. } => Some((*probe, self.candidate_path(*index))),
            _ => None,
        }
    }

    /// A path that may be the program.
    fn candidate_path(&self, index: usize) -> (r: OsString)
        requires
            index < candidate_count(self.request()),
        ensures
            r@ == candidate(self.request(), index as int),
    {
        proof {
            use_type_invariant(self);
        }
        match self.naming {
            Naming::Absolute => self.exe.clone(),
            Naming::CwdRelative => join_path(&self.cwd, &self.exe),
            Naming::Name => {
                assert(self.dirs@[index as int]@ == search_dirs(self.request())[index as int]);
                join_path(&join_path(&self.cwd, &self.dirs[index]), &self.exe)
            },
        }
    }

    /// Takes the answer to the open question.
    pub fn answer(self, answer: Answer) -> (r: Self)
        ensures
            r.request() == self.request(),
            r.standing() == search_step(self.request(), self.standing(), answer),
    {
        proof {
            use_type_invariant(&self);
        }
        let (index, probe, errno) = match &self.progress {
            Progress::Asking { index, probe, errno, .. } => (*index, *probe, *errno),
            _ => {
                return self;
            },
        };
        let path = self.candidate_path(index);
        let ghost request = self.request();
        let Search { exe, cwd, naming, path: search_path, dirs, progress } = self;
        let notes = match progress {
            Progress::Asking { notes, .. } => notes,
            _ => Vec::new(),
        };
        let ghost before = texts(notes@);
        let next = match next_probe(probe, errno, answer) {
            Next::Ask(next) => {
                let reason = match (probe, answer) {
                    (Probe::Execute, Answer::No(reason)) => reason,
                    _ => errno,
                };
                Progress::Asking { index, probe: next, errno: reason, notes }
            },
            Next::Settled(verdict) => match naming {
                Naming::Name => match verdict {
                    Verdict::Executable => Progress::Found(path),
                    _ => {
                        let noted = note_verdict(notes, &path, verdict);
                        progress_at(
                            naming,
                            &exe,
                            &search_path,
                            dirs.len(),
                            index + 1,
                            noted,
                            Ghost(request),
                        )
                    },
                },
                _ => match verdict {
                    Verdict::Executable => Progress::Found(path),
                    Verdict::Directory => Progress::Failed(Error::IsDirectory(path.display())),
                    Verdict::NotExecutable(errno) => Progress::Failed(
                        Error::NotExecutable(refused_path(naming, &path, errno)),
                    ),
                    Verdict::Missing(errno) => Progress::Failed(
                        Error::CommandNotFound(refused_path(naming, &path, errno)),
                    ),
                },
            },
        };
        Search { exe, cwd, naming, path: search_path, dirs, progress: next }
    }

    /// The result at the end: the path of the program, or the error.
    pub fn outcome(self) -> (r: Option<Result<OsString, Error>>)
        ensures
            match self.standing() {
                Standing::Asking { .. } => r is None,
                Standing::Found(path) => r matches Some(Ok(found)) && found@ == path,
                Standing::Failed(error) => r matches Some(Err(failure)) && failure@ == error,
            },
    {
        match self.progress {
            Progress::Asking { .. } => None,
            Progress::Found(path) => Some(Ok(path)),
            Progress::Failed(error) => Some(Err(error)),
        }
    }
}

/// The text about a path that is refused.
fn refused_path(naming: Naming, path: &OsString, errno: i32) -> (r: String)
    ensures
        r@ == refused_text(naming, path@, errno),
{
    match naming {
        Naming::Absolute => describe_refusal(
            path.display().as_str(),
            describe_errno(errno).as_str(),
        ),
        _ => path.display(),
    }
}

/// Remembers what is to be said of a path that is not the program.
fn note_verdict(notes: Vec<String>, path: &OsString, verdict: Verdict) -> (r: Vec<String>)
    ensures
        texts(r@) == notes_after(texts(notes@), lossy_text(path@), verdict),
{
    let mut out = notes;
    match verdict {
        Verdict::Directory => {
            let note = concat(path.display().as_str(), " exists but is a directory");
            out.push(note);
            assert(texts(out@) =~= texts(notes@).push(note@));
        },
        Verdict::NotExecutable(_) => {
            let note = concat(path.display().as_str(), " exists but is not executable");
            out.push(note);
            assert(texts(out@) =~= texts(notes@).push(note@));
        },
        _ => {},
    }
    out
}

/// The state of a search at candidate `index`.
fn progress_at(
    naming: Naming,
    exe: &OsString,
    path: &Option<(OsString, String)>,
    dir_count: usize,
    index: usize,
    notes: Vec<String>,
    request: Ghost<Request>,
) -> (r: Progress)
    requires
        naming == naming_of(exe@),
        request@.exe == exe@,
        request@.path == path_view(*path),
        dir_count == search_dirs(request@).len(),
        naming != Naming::Name ==> index == 0,
    ensures
        progress_standing(r) == standing_at(request@, index as int, texts(notes@)),
        r matches Progress::Asking { index: at, .. } ==> at < candidate_count(request@),
{
    let more = match naming {
        Naming::Name => index < dir_count,
        _ => true,
    };
    if more {
        return Progress::Asking { index, probe: Probe::IsDir, errno: 0, notes };
    }
    let note = match path {
        Some(path) => {
            let note = concat("No viable candidates found in PATH ", path.1.as_str());
            if notes.len() == 0 {
                return Progress::Failed(
                    Error::CommandNotFound(
                        describe_refusal(exe.display().as_str(), note.as_str()),
                    ),
                );
            }
            note
        },
        None => "Unable to resolve the PATH".to_owned(),
    };
    let mut all = notes;
    all.push(note);
    assert(texts(all@) =~= texts(notes@).push(note@));
    Progress::Failed(
        Error::PathResolution(describe_failure(exe.display().as_str(), &all)),
    )
}

} // verus!

//! Finding the program of a command on Windows.
use vstd::prelude::*;
use vstd::utf8::{encode_utf8, valid_utf8};

use crate::cmdbuilder::{env_value, BuilderView, CommandBuilder};
use crate::os_string::{os_views, OsString};

verus! {

/// What is searched for, and where.
pub struct WinRequest {
    /// The program as it was named.
    pub exe: Seq<u8>,
    /// The directories of the search path.
    pub dirs: Seq<Seq<u8>>,
    /// The extensions that a program may have, each with its dot.
    pub extensions: Seq<Seq<u8>>,
}

/// The extensions that the programs of a command may have, as one string.
pub open spec fn extensions_of(builder: BuilderView) -> Seq<u8> {
    match env_value(builder, encode_utf8("PATHEXT"@)) {
        Some(list) => list,
        None => encode_utf8(".EXE"@),
    }
}

/// The extensions that the programs of a command may have, as one string.
pub fn path_extensions(cmd: &CommandBuilder) -> (r: OsString)
    ensures
        r@ == extensions_of(cmd@),
{
    match cmd.get_env(&OsString::from_text("PATHEXT")) {
        Some(list) => list.clone(),
        None => OsString::from_text(".EXE"),
    }
}

/// An extension without its dot: it has to be text that starts with a
/// character of one byte.
pub open spec fn bare_extension(extension: Seq<u8>) -> Option<Seq<u8>> {
    if valid_utf8(extension) && extension.len() > 0 && extension[0] < 0x80 {
        Some(extension.skip(1))
    } else {
        None
    }
}

/// An extension without its dot.
fn strip_dot(extension: &OsString) -> (r: Option<OsString>)
    ensures
        match r {
            Some(bare) => bare_extension(extension@) == Some(bare@),
            None => bare_extension(extension@) is None,
        },
{
    let bytes = extension.as_bytes();
    if bytes.len() > 0 && bytes[0] < 0x80 && extension.to_text().is_some() {
        let mut rest: Vec<u8> = Vec::new();
        for i in 1..bytes.len()
            invariant
                bytes@.len() > 0,
                rest@ == bytes@.subrange(1, i as int),
        {
            rest.push(bytes[i]);
            assert(rest@ =~= bytes@.subrange(1, i + 1));
        }
        assert(rest@ =~= bytes@.skip(1));
        Some(OsString::from_bytes(rest))
    } else {
        None
    }
}

/// Where a search stands.
pub enum WinStanding {
    /// Does the program exist in directory `dir`?  With `ext` zero as it was
    /// named, otherwise with extension `ext - 1` in place of its own.
    Asking { dir: int, ext: int },
    /// This is the program.
    Found(Seq<u8>),
    /// Extension `ext - 1` is none.
    Unusable { ext: int },
}

/// A search at directory `dir` and extension `ext`, or at the end: a program
/// that is nowhere is left for the system to find, as it was named.
pub open spec fn win_at(request: WinRequest, dir: int, ext: int) -> WinStanding {
    if dir >= request.dirs.len() {
        WinStanding::Found(request.exe)
    } else if ext > 0 && bare_extension(request.extensions[ext - 1]) is None {
        WinStanding::Unusable { ext }
    } else {
        WinStanding::Asking { dir, ext }
    }
}

/// A search behind directory `dir` and extension `ext`.
pub open spec fn win_behind(request: WinRequest, dir: int, ext: int) -> WinStanding {
    if ext < request.extensions.len() {
        win_at(request, dir, ext + 1)
    } else {
        win_at(request, dir + 1, 0)
    }
}

/// A search after an answer: the path of the candidate, if it exists.
pub open spec fn win_step(
    request: WinRequest,
    standing: WinStanding,
    answer: Option<Seq<u8>>,
) -> WinStanding {
    match standing {
        WinStanding::Asking { dir, ext } => match answer {
            Some(path) => WinStanding::Found(path),
            None => win_behind(request, dir, ext),
        },
        _ => standing,
    }
}

/// A candidate of a search.
#[derive(Debug)]
pub struct WinCandidate {
    /// The directory that the program may be in.
    pub dir: OsString,
    /// The extension that takes the place of the program's own, without a dot;
    /// none to leave the name as it is.
    pub extension: Option<OsString>,
}

/// What a search has come to.
#[derive(Debug)]
pub enum WinOutcome {
    /// This is the program.
    Found(OsString),
    /// This extension is none.
    Unusable(OsString),
}

/// The state of a search.
#[derive(Debug)]
enum WinProgress {
    Asking { dir: usize, ext: usize },
    Found(OsString),
    Unusable { ext: usize },
}

/// A search for the program of a command.
#[derive(Debug)]
pub struct WinSearch {
    exe: OsString,
    dirs: Vec<OsString>,
    extensions: Vec<OsString>,
    progress: WinProgress,
}

/// What a state of a search stands for.
spec fn win_standing(progress: WinProgress) -> WinStanding {
    match progress {
        WinProgress::Asking { dir, ext } => WinStanding::Asking {
            dir: dir as int,
            ext: ext as int,
        },
        WinProgress::Found(path) => WinStanding::Found(path@),
        WinProgress::Unusable { ext } => WinStanding::Unusable { ext: ext as int },
    }
}

/// Whether a search stands where it can stand.
spec fn win_placed(request: WinRequest, progress: WinProgress) -> bool {
    match progress {
        WinProgress::Asking { dir, ext } => {
            &&& dir < request.dirs.len()
            &&& ext <= request.extensions.len()
            &&& ext > 0 ==> bare_extension(request.extensions[ext - 1]) is Some
        },
        WinProgress::Found(_) => true,
        WinProgress::Unusable { ext } => 0 < ext <= request.extensions.len(),
    }
}

/// The state of a search at directory `dir` and extension `ext`.
fn progress_at(
    exe: &OsString,
    dirs: &Vec<OsString>,
    extensions: &Vec<OsString>,
    dir: usize,
    ext: usize,
) -> (r: WinProgress)
    requires
        ext <= extensions@.len(),
    ensures
        ({
            let request = WinRequest {
                exe: exe@,
                dirs: os_views(dirs@),
                extensions: os_views(extensions@),
            };
            &&& win_standing(r) == win_at(request, dir as int, ext as int)
            &&& win_placed(request, r)
        }),
{
    if dir >= dirs.len() {
        WinProgress::Found(exe.clone())
    } else if ext > 0 && strip_dot(&extensions[ext - 1]).is_none() {
        WinProgress::Unusable { ext }
    } else {
        WinProgress::Asking { dir, ext }
    }
}

impl WinSearch {
    /// What is searched for.
    pub closed spec fn request(self) -> WinRequest {
        WinRequest {
            exe: self.exe@,
            dirs: os_views(self.dirs@),
            extensions: os_views(self.extensions@),
        }
    }

    /// Where the search stands.
    pub closed spec fn standing(self) -> WinStanding {
        win_standing(self.progress)
    }

    /// The search stands where it can stand.
    #[verifier::type_invariant]
    pub closed spec fn well_formed(self) -> bool {
        win_placed(self.request(), self.progress)
    }

    /// Starts the search for `exe` in the directories of the search path, with
    /// the extensions that a program may have.
    pub fn start(exe: OsString, dirs: Vec<OsString>, extensions: Vec<OsString>) -> (r: Self)
        ensures
            r.request() == (WinRequest {
                exe: exe@,
                dirs: os_views(dirs@),
                extensions: os_views(extensions@),
            }),
            r.standing() == win_at(r.request(), 0, 0),
    {
        let progress = progress_at(&exe, &dirs, &extensions, 0, 0);
        WinSearch { exe, dirs, extensions, progress }
    }

    /// The candidate of which it is asked whether it exists.
    pub fn question(&self) -> (r: Option<WinCandidate>)
        ensures
            match r {
                Some(candidate) => match self.standing() {
                    WinStanding::Asking { dir, ext } => {
                        &&& candidate.dir@ == self.request().dirs[dir]
                        &&& match candidate.extension {
                            Some(extension) => ext > 0 && bare_extension(
                                self.request().extensions[ext - 1],
                            ) == Some(extension@),
                            None => ext == 0,
                        }
                    },
                    _ => false,
                },
                None => !(self.standing() is Asking),
            },
    {
        proof {
            use_type_invariant(self);
        }
        match &self.progress {
            WinProgress::Asking { dir, ext } => {
                let extension = if *ext > 0 {
                    strip_dot(&self.extensions[*ext - 1])
                } else {
                    None
                };
                Some(WinCandidate { dir: self.dirs[*dir].clone(), extension })
            },
            _ => None,
        }
    }

    /// Takes the answer: the path of the candidate, if it exists.  Without an
    /// open question nothing changes.
    pub fn answer(&mut self, found: Option<OsString>)
        ensures
            final(self).request() == old(self).request(),
            final(self).standing() == win_step(
                old(self).request(),
                old(self).standing(),
                match found {
                    Some(path) => Some(path@),
                    None => None,
                },
            ),
    {
        proof {
            use_type_invariant(&*self);
        }
        if let WinProgress::Asking { dir, ext } = &self.progress {
            assert(*dir < self.dirs.len());
            let progress = match found {
                Some(path) => WinProgress::Found(path),
                None => if *ext < self.extensions.len() {
                    progress_at(&self.exe, &self.dirs, &self.extensions, *dir, *ext + 1)
                } else {
                    progress_at(&self.exe, &self.dirs, &self.extensions, *dir + 1, 0)
                },
            };
            self.progress = progress;
        }
    }

    /// What the search has come to, once no question is open.
    pub fn outcome(&self) -> (r: Option<WinOutcome>)
        ensures
            match r {
                Some(WinOutcome::Found(path)) => self.standing() == WinStanding::Found(path@),
                Some(WinOutcome::Unusable(extension)) => self.standing() matches
                    WinStanding::Unusable { ext } && extension@ == self.request().extensions[ext
                    - 1],
                None => self.standing() is Asking,
            },
    {
        proof {
            use_type_invariant(self);
        }
        match &self.progress {
            WinProgress::Asking { .. } => None,
            WinProgress::Found(path) => Some(WinOutcome::Found(path.clone())),
            WinProgress::Unusable { ext } => Some(
                WinOutcome::Unusable(self.extensions[*ext - 1].clone()),
            ),
        }
    }
}

/// Which candidates exist, by directory and extension, and at what path.
pub type Existing = spec_fn(int, int) -> Option<Seq<u8>>;

/// How many candidates are left behind directory `dir` and extension `ext`.
pub open spec fn win_left(request: WinRequest, standing: WinStanding) -> (nat, nat) {
    match standing {
        WinStanding::Asking { dir, ext } => (
            if dir < request.dirs.len() {
                (request.dirs.len() - dir) as nat
            } else {
                0
            },
            if ext <= request.extensions.len() {
                (request.extensions.len() - ext + 1) as nat
            } else {
                0
            },
        ),
        _ => (0, 0),
    }
}

/// What a search comes to, from a standing on.
pub open spec fn win_searched(
    request: WinRequest,
    existing: Existing,
    standing: WinStanding,
) -> WinStanding
    decreases win_left(request, standing).0, win_left(request, standing).1,
{
    match standing {
        WinStanding::Asking { dir, ext } => if 0 <= dir < request.dirs.len() && 0 <= ext
            <= request.extensions.len() {
            win_searched(request, existing, win_step(request, standing, existing(dir, ext)))
        } else {
            standing
        },
        _ => standing,
    }
}

/// Whether one candidate is tried before another.
pub open spec fn tried_before(dir: int, ext: int, other_dir: int, other_ext: int) -> bool {
    dir < other_dir || dir == other_dir && ext < other_ext
}

/// Whether the extensions can be used that are tried up to a candidate.  In the
/// first directory all extensions are tried, so that further on there can be
/// none that cannot be used.
pub open spec fn extensions_are_usable_to(request: WinRequest, at_dir: int, at_ext: int) -> bool {
    forall|i: int|
        0 <= i < request.extensions.len() && !tried_before(at_dir, at_ext, 0, i + 1)
            ==> bare_extension(#[trigger] request.extensions[i]) is Some
}

/// From directory `dir` and extension `ext` on, the first candidate that exists
/// is found.
proof fn lemma_win_from(
    request: WinRequest,
    existing: Existing,
    dir: int,
    ext: int,
    at_dir: int,
    at_ext: int,
)
    requires
        0 <= dir < request.dirs.len(),
        0 <= ext <= request.extensions.len(),
        0 <= at_dir < request.dirs.len(),
        0 <= at_ext <= request.extensions.len(),
        !tried_before(at_dir, at_ext, dir, ext),
        extensions_are_usable_to(request, at_dir, at_ext),
        existing(at_dir, at_ext) is Some,
        forall|d: int, e: int|
            0 <= d && 0 <= e <= request.extensions.len() && tried_before(d, e, at_dir, at_ext)
                ==> #[trigger] existing(d, e) is None,
    ensures
        win_searched(request, existing, WinStanding::Asking { dir, ext }) == WinStanding::Found(
            existing(at_dir, at_ext)->0,
        ),
    decreases request.dirs.len() - dir, request.extensions.len() - ext,
{
    reveal_with_fuel(win_searched, 2);
    if dir == at_dir && ext == at_ext {
    } else {
        assert(existing(dir, ext) is None);
        if ext < request.extensions.len() {
            assert(bare_extension(request.extensions[ext]) is Some);
            lemma_win_from(request, existing, dir, ext + 1, at_dir, at_ext);
        } else {
            lemma_win_from(request, existing, dir + 1, 0, at_dir, at_ext);
        }
    }
}

/// A program is found in the first directory that has it, and there first as
/// it was named, then with each extension in turn, provided that the
/// extensions that are tried until then can be used.
pub proof fn win_search_finds_first(
    request: WinRequest,
    existing: Existing,
    at_dir: int,
    at_ext: int,
)
    requires
        0 <= at_dir < request.dirs.len(),
        0 <= at_ext <= request.extensions.len(),
        extensions_are_usable_to(request, at_dir, at_ext),
        existing(at_dir, at_ext) is Some,
        forall|d: int, e: int|
            0 <= d && 0 <= e <= request.extensions.len() && tried_before(d, e, at_dir, at_ext)
                ==> #[trigger] existing(d, e) is None,
    ensures
        win_searched(request, existing, win_at(request, 0, 0)) == WinStanding::Found(
            existing(at_dir, at_ext)->0,
        ),
{
    lemma_win_from(request, existing, 0, 0, at_dir, at_ext);
}

/// From directory `dir` and extension `ext` on, a program that is nowhere is
/// left as it was named.
proof fn lemma_win_nowhere(request: WinRequest, existing: Existing, dir: int, ext: int)
    requires
        0 <= dir < request.dirs.len(),
        0 <= ext <= request.extensions.len(),
        forall|i: int|
            0 <= i < request.extensions.len() ==> bare_extension(#[trigger] request.extensions[i])
                is Some,
        forall|d: int, e: int|
            0 <= d < request.dirs.len() && 0 <= e <= request.extensions.len()
                ==> #[trigger] existing(d, e) is None,
    ensures
        win_searched(request, existing, WinStanding::Asking { dir, ext }) == WinStanding::Found(
            request.exe,
        ),
    decreases request.dirs.len() - dir, request.extensions.len() - ext,
{
    reveal_with_fuel(win_searched, 2);
    assert(existing(dir, ext) is None);
    if ext < request.extensions.len() {
        assert(bare_extension(request.extensions[ext]) is Some);
        lemma_win_nowhere(request, existing, dir, ext + 1);
    } else if dir + 1 < request.dirs.len() {
        lemma_win_nowhere(request, existing, dir + 1, 0);
    }
}

/// A program that no directory has is left as it was named, provided that all
/// extensions can be used, or that there is no directory to try them in.
pub proof fn win_search_finds_nothing(request: WinRequest, existing: Existing)
    requires
        request.dirs.len() > 0 ==> forall|i: int|
            0 <= i < request.extensions.len() ==> bare_extension(#[trigger] request.extensions[i])
                is Some,
        forall|d: int, e: int|
            0 <= d < request.dirs.len() && 0 <= e <= request.extensions.len()
                ==> #[trigger] existing(d, e) is None,
    ensures
        win_searched(request, existing, win_at(request, 0, 0)) == WinStanding::Found(request.exe),
{
    if request.dirs.len() > 0 {
        lemma_win_nowhere(request, existing, 0, 0);
    }
}

/// In the first directory, a search goes on to the first extension that cannot
/// be used.
proof fn lemma_win_unusable(request: WinRequest, existing: Existing, ext: int, bad: int)
    requires
        request.dirs.len() > 0,
        0 <= ext <= bad < request.extensions.len(),
        bare_extension(request.extensions[bad]) is None,
        forall|i: int|
            0 <= i < bad ==> bare_extension(#[trigger] request.extensions[i]) is Some,
        forall|e: int| 0 <= e <= bad ==> #[trigger] existing(0, e) is None,
    ensures
        win_searched(request, existing, WinStanding::Asking { dir: 0, ext })
            == (WinStanding::Unusable { ext: bad + 1 }),
    decreases bad - ext,
{
    reveal_with_fuel(win_searched, 2);
    assert(existing(0, ext) is None);
    if ext < bad {
        assert(bare_extension(request.extensions[ext]) is Some);
        lemma_win_unusable(request, existing, ext + 1, bad);
    }
}

/// A search stops at the first extension that cannot be used, unless the
/// program is found before that: in the first directory, as it was named or
/// with an extension that comes earlier.
pub proof fn win_search_stops_at_unusable(request: WinRequest, existing: Existing, bad: int)
    requires
        request.dirs.len() > 0,
        0 <= bad < request.extensions.len(),
        bare_extension(request.extensions[bad]) is None,
        forall|i: int|
            0 <= i < bad ==> bare_extension(#[trigger] request.extensions[i]) is Some,
        forall|e: int| 0 <= e <= bad ==> #[trigger] existing(0, e) is None,
    ensures
        win_searched(request, existing, win_at(request, 0, 0)) == (WinStanding::Unusable {
            ext: bad + 1,
        }),
{
    lemma_win_unusable(request, existing, 0, bad);
}

} // verus!

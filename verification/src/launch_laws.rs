//! What a launch comes to, told by the command, the system and the plan alone.
use vstd::prelude::*;
use vstd::utf8::{decode_utf8_encode_utf8, encode_utf8, is_ascii_chars_encode_utf8, valid_utf8};

use crate::cmdbuilder::{env_value, BuilderView};
use crate::env::{is_kept, Platform};
use crate::error::ErrorView;
use crate::foreign::{errno_text, lossy_text};
use crate::launch::{dir_on, home_on, launch_comes_to, launch_start, launched, program_request,
    shell_on, LaunchStanding, PlanView};
use crate::laws::{process_sees_the_variables, seen_by_process};
use crate::lookup::{PasswdField, System};
use crate::path::{begins_with_dots, is_part, marks_in, paths_are_told_by_their_bytes,
    split_at_mark, split_counts_the_marks, split_gives_only_parts, split_gives_the_part,
    taken_from};
use crate::search::{candidate, candidate_count, failed_search_tells_why, is_first_executable,
    lemma_notes, notes_on, search_finds_first, searched, standing_at, verdict_on, Answer, Files,
    Probe, Request, Standing, Verdict};
use crate::text::joined;

verus! {

/// Where the launch of a command ends on a system.
pub open spec fn end_of_launch(
    builder: BuilderView,
    path_text: Seq<char>,
    system: System,
) -> LaunchStanding {
    launched(builder, path_text, launch_start(builder), system)
}

/// Whether a path can be run: it is no directory and may be executed.
pub open spec fn can_be_run(files: Files, path: Seq<u8>) -> bool {
    files(Probe::IsDir, path) != Answer::Yes && files(Probe::Execute, path) == Answer::Yes
}

/// Whether a program is named by an absolute path.
pub open spec fn is_rooted(exe: Seq<u8>) -> bool {
    exe.len() > 0 && exe[0] == 47
}

/// A program as it would stand in the part of the search path from `start` to
/// `end`, for a process in `dir`.
pub open spec fn on_path(
    dir: Seq<u8>,
    path: Seq<u8>,
    start: int,
    end: int,
    exe: Seq<u8>,
) -> Seq<u8> {
    taken_from(taken_from(dir, path.subrange(start, end)), exe)
}

/// Whether a program is the first on a search path that can be run, in the
/// part from `start` to `end`.
pub open spec fn is_first_on_path(
    files: Files,
    dir: Seq<u8>,
    path: Seq<u8>,
    start: int,
    end: int,
    exe: Seq<u8>,
) -> bool {
    &&& is_part(path, 58, start, end)
    &&& can_be_run(files, on_path(dir, path, start, end, exe))
    &&& forall|s: int, e: int| #[trigger]
        is_part(path, 58, s, e) && s < start ==> !can_be_run(files, on_path(dir, path, s, e, exe))
}

/// The home directory: what `HOME` says, else the password database, else the
/// root; what is no text says nothing.
pub open spec fn home_dir(builder: BuilderView, system: System) -> Seq<u8> {
    match (env_value(builder, encode_utf8("HOME"@)), (system.passwd)(PasswdField::Dir)) {
        (Some(home), _) if valid_utf8(home) => home,
        (_, Some(home)) if valid_utf8(home) => home,
        _ => seq![47u8],
    }
}

/// The directory of a process: the one that was asked for where it is one,
/// else the home directory.
pub open spec fn process_dir(builder: BuilderView, system: System) -> Seq<u8> {
    match builder.cwd {
        Some(cwd) if (system.files)(Probe::IsDir, cwd) == Answer::Yes => cwd,
        _ => home_dir(builder, system),
    }
}

/// The shell: what `SHELL` says, else the password database, else `/bin/sh`;
/// what is no text or may not be executed is passed over.
pub open spec fn process_shell(builder: BuilderView, system: System) -> Seq<u8> {
    let named = env_value(builder, encode_utf8("SHELL"@));
    let login = (system.passwd)(PasswdField::Shell);
    match (named, login) {
        (Some(shell), _) if valid_utf8(shell) && (system.files)(Probe::Execute, shell)
            == Answer::Yes => shell,
        (_, Some(shell)) if valid_utf8(shell) && (system.files)(Probe::Execute, shell)
            == Answer::Yes => shell,
        _ => encode_utf8("/bin/sh"@),
    }
}

/// Home and directory are the ones that were described.
proof fn lemma_dir(builder: BuilderView, system: System)
    ensures
        encode_utf8(home_on(builder, system)) == home_dir(builder, system),
        dir_on(builder, system) == process_dir(builder, system),
{
    reveal_strlit("/");
    assert("/"@ =~= seq!['/']);
    is_ascii_chars_encode_utf8("/"@);
    assert(encode_utf8("/"@) =~= seq![47u8]);
    if let Some(home) = env_value(builder, encode_utf8("HOME"@)) {
        if valid_utf8(home) {
            decode_utf8_encode_utf8(home);
        }
    }
    if let Some(home) = (system.passwd)(PasswdField::Dir) {
        if valid_utf8(home) {
            decode_utf8_encode_utf8(home);
        }
    }
}

/// The shell is the one that was described.
proof fn lemma_shell(builder: BuilderView, system: System)
    ensures
        encode_utf8(shell_on(builder, system)) == process_shell(builder, system),
{
    if let Some(shell) = env_value(builder, encode_utf8("SHELL"@)) {
        if valid_utf8(shell) {
            decode_utf8_encode_utf8(shell);
        }
    }
    if let Some(shell) = (system.passwd)(PasswdField::Shell) {
        if valid_utf8(shell) {
            decode_utf8_encode_utf8(shell);
        }
    }
}

/// The parts of the search path are the candidates, in their order.
proof fn lemma_candidate_of_part(request: Request, path: Seq<u8>, start: int, end: int)
    requires
        request.path matches Some(found) && found.0 == path,
        !is_rooted(request.exe),
        !begins_with_dots(request.exe),
        is_part(path, 58, start, end),
    ensures
        marks_in(path.take(start), 58) < candidate_count(request),
        candidate(request, marks_in(path.take(start), 58) as int) == on_path(
            request.cwd,
            path,
            start,
            end,
            request.exe,
        ),
{
    paths_are_told_by_their_bytes(request.cwd, request.exe);
    split_gives_the_part(path, 58, start, end);
    let entry = path.subrange(start, end);
    paths_are_told_by_their_bytes(request.cwd, entry);
    paths_are_told_by_their_bytes(taken_from(request.cwd, entry), request.exe);
}

/// Every candidate of a program that is looked up is a part of the search path.
proof fn lemma_part_of_candidate(request: Request, path: Seq<u8>, i: int)
    requires
        request.path matches Some(found) && found.0 == path,
        !is_rooted(request.exe),
        !begins_with_dots(request.exe),
        0 <= i < candidate_count(request),
    ensures
        exists|start: int, end: int| #[trigger]
            is_part(path, 58, start, end) && marks_in(path.take(start), 58) == i && candidate(
                request,
                i,
            ) == on_path(request.cwd, path, start, end, request.exe),
{
    paths_are_told_by_their_bytes(request.cwd, request.exe);
    split_gives_only_parts(path, 58, i);
    let (start, end) = choose|start: int, end: int| #[trigger]
        is_part(path, 58, start, end) && marks_in(path.take(start), 58) == i && split_at_mark(
            path,
            58,
        )[i] == path.subrange(start, end);
    lemma_candidate_of_part(request, path, start, end);
}

/// A part that starts earlier is an earlier candidate.
proof fn lemma_earlier_part(path: Seq<u8>, s: int, e: int, start: int)
    requires
        is_part(path, 58, s, e),
        s < start <= path.len(),
        path[start - 1] == 58,
    ensures
        marks_in(path.take(s), 58) < marks_in(path.take(start), 58),
{
    crate::path::lemma_marks_between(path, 58, s, start);
}

/// A launch that comes to a plan starts a program that can be run.  One that
/// is named by an absolute path is that very path; one whose name begins with
/// dots is taken from the directory of the process; any other is the first
/// that can be run on the search path of the command, whose relative parts are
/// taken from the directory of the process.  The program gets the arguments of
/// the command.
pub proof fn launch_starts_the_named_program(
    builder: BuilderView,
    path_text: Seq<char>,
    system: System,
    plan: PlanView,
)
    requires
        builder.argv.len() > 0,
        end_of_launch(builder, path_text, system) == LaunchStanding::Ready(plan),
    ensures
        can_be_run(system.files, plan.program),
        is_rooted(builder.argv[0]) ==> plan.program == builder.argv[0],
        begins_with_dots(builder.argv[0]) ==> plan.program == taken_from(
            plan.dir,
            builder.argv[0],
        ),
        !is_rooted(builder.argv[0]) && !begins_with_dots(builder.argv[0]) ==> (env_value(
            builder,
            encode_utf8("PATH"@),
        ) matches Some(path) && exists|start: int, end: int| #[trigger]
            is_first_on_path(system.files, plan.dir, path, start, end, builder.argv[0])
                && plan.program == on_path(plan.dir, path, start, end, builder.argv[0])),
        plan.arg0 == builder.argv[0],
        plan.args.len() == builder.argv.len() - 1,
        forall|i: int| 0 <= i < plan.args.len() ==> #[trigger] plan.args[i] == builder.argv[i + 1],
{
    launch_comes_to(builder, path_text, system);
    let exe = builder.argv[0];
    let files = system.files;
    let request = program_request(builder, path_text, dir_on(builder, system));
    search_finds_first(request, files);
    paths_are_told_by_their_bytes(plan.dir, exe);
    let i = choose|i: int|
        is_first_executable(request, files, i) && plan.program == candidate(request, i);
    assert(is_first_executable(request, files, i) && plan.program == candidate(request, i));
    if !is_rooted(exe) && !begins_with_dots(exe) {
        let path = env_value(builder, encode_utf8("PATH"@))->0;
        lemma_part_of_candidate(request, path, i);
        let (start, end) = choose|start: int, end: int| #[trigger]
            is_part(path, 58, start, end) && marks_in(path.take(start), 58) == i && candidate(
                request,
                i,
            ) == on_path(request.cwd, path, start, end, exe);
        assert forall|s: int, e: int| #[trigger]
            is_part(path, 58, s, e) && s < start implies !can_be_run(
            files,
            on_path(plan.dir, path, s, e, exe),
        ) by {
            lemma_candidate_of_part(request, path, s, e);
            lemma_earlier_part(path, s, e, start);
            let j = marks_in(path.take(s), 58) as int;
            assert(verdict_on(files, candidate(request, j)) != Verdict::Executable);
        }
        assert(is_first_on_path(files, plan.dir, path, start, end, exe));
    }
}

/// A command without a program comes to a plan, and it starts the shell, with
/// no arguments, under a dash and what stands behind the last separator of its
/// path.
pub proof fn launch_starts_the_shell(
    builder: BuilderView,
    path_text: Seq<char>,
    system: System,
)
    requires
        builder.argv.len() == 0,
    ensures
        end_of_launch(builder, path_text, system) matches LaunchStanding::Ready(plan)
            && plan.program == process_shell(builder, system) && plan.args.len() == 0 && exists|
            start: int,
        | #[trigger]
            is_part(plan.program, 47, start, plan.program.len() as int) && plan.arg0 == seq![45u8]
                + plan.program.subrange(start, plan.program.len() as int),
{
    launch_comes_to(builder, path_text, system);
    lemma_shell(builder, system);
    let program = process_shell(builder, system);
    let len = program.len() as int;
    split_counts_the_marks(program, 47);
    let last = split_at_mark(program, 47).len() - 1;
    split_gives_only_parts(program, 47, last);
    let (start, end) = choose|start: int, end: int| #[trigger]
        is_part(program, 47, start, end) && marks_in(program.take(start), 47) == last
            && split_at_mark(program, 47)[last] == program.subrange(start, end);
    assert(program.take(len) =~= program);
    crate::path::lemma_marks_between(program, 47, start, len);
    assert(end == len);
    assert(is_part(program, 47, start, len));
}

/// The process of a launch that comes to a plan starts in the directory that
/// was asked for, where it is one, and else at home.
pub proof fn launch_goes_to_the_directory(
    builder: BuilderView,
    path_text: Seq<char>,
    system: System,
    plan: PlanView,
)
    requires
        end_of_launch(builder, path_text, system) == LaunchStanding::Ready(plan),
    ensures
        plan.dir == process_dir(builder, system),
{
    launch_comes_to(builder, path_text, system);
    lemma_dir(builder, system);
}

/// What the process of a launch sees under a name is what the command has
/// there; where it has nothing, it sees the shell under `SHELL` and nothing
/// under any other name.  That holds of a named program and of the shell.
pub proof fn launch_passes_the_environment(
    builder: BuilderView,
    path_text: Seq<char>,
    system: System,
    plan: PlanView,
    name: Seq<u8>,
)
    requires
        builder.platform == Platform::Unix,
        is_kept(builder.platform, builder.env),
        end_of_launch(builder, path_text, system) == LaunchStanding::Ready(plan),
    ensures
        seen_by_process(plan.env, name) == match env_value(builder, name) {
            Some(value) => Some(value),
            None => if name == encode_utf8("SHELL"@) {
                Some(process_shell(builder, system))
            } else {
                None
            },
        },
{
    launch_comes_to(builder, path_text, system);
    lemma_shell(builder, system);
    process_sees_the_variables(builder, shell_on(builder, system), name);
}

/// The environment of a plan lists the shell under `SHELL`, and after it every
/// variable of the command once, in the order and under the name in which the
/// command has it.
pub proof fn launch_lists_the_environment(
    builder: BuilderView,
    path_text: Seq<char>,
    system: System,
    plan: PlanView,
)
    requires
        end_of_launch(builder, path_text, system) == LaunchStanding::Ready(plan),
    ensures
        plan.env.len() == builder.env.len() + 1,
        plan.env[0] == (encode_utf8("SHELL"@), process_shell(builder, system)),
        forall|i: int|
            0 <= i < builder.env.len() ==> plan.env[i + 1] == (
                (#[trigger] builder.env[i]).1.preferred_key,
                builder.env[i].1.value,
            ),
{
    launch_comes_to(builder, path_text, system);
    lemma_shell(builder, system);
}

/// Every launch ends, and one that fails had a program that cannot be run: the
/// path itself, the one taken from the directory of the process, or every one
/// on the search path, if there is a search path at all.
pub proof fn launch_fails_without_a_program(
    builder: BuilderView,
    path_text: Seq<char>,
    system: System,
)
    ensures
        match end_of_launch(builder, path_text, system) {
            LaunchStanding::Ready(_) => true,
            LaunchStanding::Failed(_) => {
                let exe = builder.argv[0];
                let dir = process_dir(builder, system);
                &&& builder.argv.len() > 0
                &&& is_rooted(exe) ==> !can_be_run(system.files, exe)
                &&& begins_with_dots(exe) ==> !can_be_run(system.files, taken_from(dir, exe))
                &&& !is_rooted(exe) && !begins_with_dots(exe) ==> match env_value(
                    builder,
                    encode_utf8("PATH"@),
                ) {
                    Some(path) => forall|s: int, e: int| #[trigger]
                        is_part(path, 58, s, e) ==> !can_be_run(
                            system.files,
                            on_path(dir, path, s, e, exe),
                        ),
                    None => true,
                }
            },
            _ => false,
        },
{
    launch_comes_to(builder, path_text, system);
    lemma_dir(builder, system);
    if builder.argv.len() > 0 {
        let exe = builder.argv[0];
        let dir = process_dir(builder, system);
        let request = program_request(builder, path_text, dir);
        search_finds_first(request, system.files);
        paths_are_told_by_their_bytes(dir, exe);
        if end_of_launch(builder, path_text, system) is Failed {
            if is_rooted(exe) || begins_with_dots(exe) {
                assert(verdict_on(system.files, candidate(request, 0)) != Verdict::Executable);
            } else if let Some(path) = env_value(builder, encode_utf8("PATH"@)) {
                assert forall|s: int, e: int| #[trigger]
                    is_part(path, 58, s, e) implies !can_be_run(
                    system.files,
                    on_path(dir, path, s, e, exe),
                ) by {
                    lemma_candidate_of_part(request, path, s, e);
                    let j = marks_in(path.take(s), 58) as int;
                    assert(verdict_on(system.files, candidate(request, j))
                        != Verdict::Executable);
                }
            }
        }
    }
}

/// A program that is named by a path and cannot be run is refused with the
/// reason: it is a directory; it exists but may not be executed; or it is not
/// there.  For an absolute path the error of the system is told as well.
pub proof fn refused_path_is_told(
    builder: BuilderView,
    path_text: Seq<char>,
    system: System,
    path: Seq<u8>,
)
    requires
        builder.argv.len() > 0,
        (is_rooted(builder.argv[0]) && path == builder.argv[0]) || (begins_with_dots(
            builder.argv[0],
        ) && path == taken_from(process_dir(builder, system), builder.argv[0])),
        !can_be_run(system.files, path),
    ensures
        ({
            let end = end_of_launch(builder, path_text, system);
            let told = |errno: i32|
                if is_rooted(builder.argv[0]) {
                    lossy_text(path) + " ("@ + errno_text(errno) + ")"@
                } else {
                    lossy_text(path)
                };
            match (system.files)(Probe::IsDir, path) {
                Answer::Yes => end == LaunchStanding::Failed(
                    ErrorView::IsDirectory(lossy_text(path)),
                ),
                Answer::No(_) => match (system.files)(Probe::Execute, path) {
                    Answer::Yes => false,
                    Answer::No(errno) => if (system.files)(Probe::Exists, path) == Answer::Yes {
                        end == LaunchStanding::Failed(ErrorView::NotExecutable(told(errno)))
                    } else {
                        end == LaunchStanding::Failed(ErrorView::CommandNotFound(told(errno)))
                    },
                },
            }
        }),
{
    launch_comes_to(builder, path_text, system);
    lemma_dir(builder, system);
    let exe = builder.argv[0];
    let dir = process_dir(builder, system);
    let request = program_request(builder, path_text, dir);
    paths_are_told_by_their_bytes(dir, exe);
    assert(candidate(request, 0) == path);
    failed_search_tells_why(request, system.files);
}

/// A program that is looked up without a search path cannot be resolved.
pub proof fn missing_search_path_is_told(
    builder: BuilderView,
    path_text: Seq<char>,
    system: System,
)
    requires
        builder.argv.len() > 0,
        !is_rooted(builder.argv[0]),
        !begins_with_dots(builder.argv[0]),
        env_value(builder, encode_utf8("PATH"@)) is None,
    ensures
        end_of_launch(builder, path_text, system) == LaunchStanding::Failed(
            ErrorView::PathResolution(
                "Unable to spawn "@ + lossy_text(builder.argv[0]) + ": "@
                    + "Unable to resolve the PATH"@,
            ),
        ),
{
    launch_comes_to(builder, path_text, system);
    let dir = dir_on(builder, system);
    let request = program_request(builder, path_text, dir);
    paths_are_told_by_their_bytes(dir, builder.argv[0]);
    failed_search_tells_why(request, system.files);
    let note = "Unable to resolve the PATH"@;
    let none: Seq<Seq<char>> = seq![];
    assert(none.push(note) =~= seq![note]);
    assert(joined(seq![note], ".\n"@) == note) by {
        reveal_with_fuel(joined, 2);
    }
}

/// A program that is looked up, and that exists nowhere on the search path, is
/// not found, and the search path is told.
pub proof fn absent_program_is_told(
    builder: BuilderView,
    path_text: Seq<char>,
    system: System,
    path: Seq<u8>,
)
    requires
        builder.argv.len() > 0,
        !is_rooted(builder.argv[0]),
        !begins_with_dots(builder.argv[0]),
        env_value(builder, encode_utf8("PATH"@)) == Some(path),
        forall|s: int, e: int, probe: Probe| #[trigger]
            is_part(path, 58, s, e) ==> #[trigger] (system.files)(
                probe,
                on_path(process_dir(builder, system), path, s, e, builder.argv[0]),
            ) != Answer::Yes,
    ensures
        end_of_launch(builder, path_text, system) == LaunchStanding::Failed(
            ErrorView::CommandNotFound(
                lossy_text(builder.argv[0]) + " ("@ + ("No viable candidates found in PATH "@
                    + path_text) + ")"@,
            ),
        ),
{
    launch_comes_to(builder, path_text, system);
    lemma_dir(builder, system);
    let exe = builder.argv[0];
    let dir = process_dir(builder, system);
    let request = program_request(builder, path_text, dir);
    paths_are_told_by_their_bytes(dir, exe);
    assert forall|i: int| 0 <= i < candidate_count(request) implies verdict_on(
        system.files,
        #[trigger] candidate(request, i),
    ) is Missing by {
        lemma_part_of_candidate(request, path, i);
        let (s, e) = choose|s: int, e: int| #[trigger]
            is_part(path, 58, s, e) && marks_in(path.take(s), 58) == i && candidate(request, i)
                == on_path(dir, path, s, e, exe);
        assert((system.files)(Probe::IsDir, on_path(dir, path, s, e, exe)) != Answer::Yes);
        assert((system.files)(Probe::Execute, on_path(dir, path, s, e, exe)) != Answer::Yes);
        assert((system.files)(Probe::Exists, on_path(dir, path, s, e, exe)) != Answer::Yes);
    }
    failed_search_tells_why(request, system.files);
    lemma_notes(request, system.files, candidate_count(request));
}

/// Whether there is something at a path that cannot be run.
pub open spec fn is_in_the_way(files: Files, path: Seq<u8>) -> bool {
    files(Probe::IsDir, path) == Answer::Yes || (files(Probe::Execute, path) != Answer::Yes
        && files(Probe::Exists, path) == Answer::Yes)
}

/// What is told of a path where there is something that cannot be run.
pub open spec fn told_of(files: Files, path: Seq<u8>) -> Seq<char> {
    if files(Probe::IsDir, path) == Answer::Yes {
        lossy_text(path) + " exists but is a directory"@
    } else {
        lossy_text(path) + " exists but is not executable"@
    }
}

/// Whether the first `k` candidates with something in the way are those at the
/// given places, in their order.
pub open spec fn are_in_the_way(request: Request, files: Files, places: Seq<int>, k: int) -> bool {
    &&& forall|a: int, b: int| 0 <= a < b < places.len() ==> places[a] < places[b]
    &&& forall|i: int|
        #![trigger places.contains(i)]
        places.contains(i) <==> 0 <= i < k && is_in_the_way(files, candidate(request, i))
}

/// What is told of the candidates at the given places.
pub open spec fn told_of_all(request: Request, files: Files, places: Seq<int>) -> Seq<Seq<char>> {
    Seq::new(places.len(), |a: int| told_of(files, candidate(request, places[a])))
}

/// The notes on the first `k` candidates are on those with something in the
/// way.
proof fn lemma_told(request: Request, files: Files, k: nat) -> (places: Seq<int>)
    requires
        k <= candidate_count(request),
        forall|i: int|
            0 <= i < candidate_count(request) ==> verdict_on(
                files,
                #[trigger] candidate(request, i),
            ) != Verdict::Executable,
    ensures
        are_in_the_way(request, files, places, k as int),
        notes_on(request, files, k) == told_of_all(request, files, places),
    decreases k,
{
    if k == 0 {
        let places: Seq<int> = seq![];
        assert(notes_on(request, files, k) =~= told_of_all(request, files, places));
        places
    } else {
        let before = lemma_told(request, files, (k - 1) as nat);
        let last = k - 1;
        let path = candidate(request, last);
        assert(verdict_on(files, path) != Verdict::Executable);
        let places = if is_in_the_way(files, path) {
            before.push(last)
        } else {
            before
        };
        assert forall|i: int|
            #![trigger places.contains(i)]
            places.contains(i) <==> 0 <= i < k && is_in_the_way(files, candidate(request, i)) by {
            if before.contains(i) {
                let a = before.index_of(i);
                assert(places[a] == i);
            }
            if i == last && is_in_the_way(files, path) {
                assert(places[places.len() - 1] == last);
            }
            if places.contains(i) {
                let a = places.index_of(i);
                if a < before.len() {
                    assert(before[a] == i);
                    assert(before.contains(i));
                }
            }
        }
        assert forall|a: int, b: int| 0 <= a < b < places.len() implies places[a] < places[b] by {
            assert(before[a] == places[a]);
            assert(before.contains(before[a]));
        }
        assert(notes_on(request, files, k) =~= told_of_all(request, files, places));
        places
    }
}

/// Where a program is looked up, and no candidate can be run though there is
/// something at some of them, each of those is told in turn, and last of all
/// the search path.
pub proof fn failed_lookup_lists_what_exists(
    request: Request,
    files: Files,
    path: (Seq<u8>, Seq<char>),
    i: int,
)
    requires
        !is_rooted(request.exe),
        !begins_with_dots(request.exe),
        request.path == Some(path),
        forall|j: int|
            0 <= j < candidate_count(request) ==> !can_be_run(
                files,
                #[trigger] candidate(request, j),
            ),
        0 <= i < candidate_count(request),
        is_in_the_way(files, candidate(request, i)),
    ensures
        exists|places: Seq<int>| #[trigger]
            are_in_the_way(request, files, places, candidate_count(request) as int) && searched(
                request,
                standing_at(request, 0, seq![]),
                files,
            ) == Standing::Failed(
                ErrorView::PathResolution(
                    "Unable to spawn "@ + lossy_text(request.exe) + ": "@ + joined(
                        told_of_all(request, files, places).push(
                            "No viable candidates found in PATH "@ + path.1,
                        ),
                        ".\n"@,
                    ),
                ),
            ),
{
    paths_are_told_by_their_bytes(request.cwd, request.exe);
    assert forall|j: int| 0 <= j < candidate_count(request) implies verdict_on(
        files,
        #[trigger] candidate(request, j),
    ) != Verdict::Executable by {
        assert(!can_be_run(files, candidate(request, j)));
    }
    failed_search_tells_why(request, files);
    let places = lemma_told(request, files, candidate_count(request));
    assert(places.contains(i));
}

} // verus!

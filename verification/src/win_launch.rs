//! Turning a command into what a Windows process is started with.
use vstd::prelude::*;
use vstd::utf8::{decode_utf8, encode_utf8, valid_utf8};

use crate::cmdbuilder::{env_value, BuilderView, CommandBuilder};
use crate::env::Listing;
use crate::error::{Error, ErrorView, IoError};
use crate::os_string::{os_views, OsString};
use crate::quoting::{append_quoted, argument_tail, argument_tail_reads_back, ends_argument, extend,
    leading_backslashes, lemma_leading_backslashes, needs_quotes, needs_quotes_for, quoted_arg,
    quoted_body, read_args, BACKSLASH, QUOTE, SPACE, TAB};
use crate::text::concat;
use crate::wide::wide_units;

verus! {

/// The unit between the name and the value of a variable.
pub const EQUALS: u16 = 61;

/// Start a process with attributes.
pub const EXTENDED_STARTUPINFO_PRESENT: u32 = 0x0008_0000;

/// The environment of a process is wide text.
pub const CREATE_UNICODE_ENVIRONMENT: u32 = 0x0000_0400;

/// The flags with which processes are made.
pub const CREATION_FLAGS: u32 = EXTENDED_STARTUPINFO_PRESENT | CREATE_UNICODE_ENVIRONMENT;

/// The command interpreter of a command.
pub open spec fn comspec_of(builder: BuilderView) -> Seq<u8> {
    match env_value(builder, encode_utf8("ComSpec"@)) {
        Some(path) => path,
        None => encode_utf8("cmd.exe"@),
    }
}

/// The command interpreter of a command.
pub fn comspec(cmd: &CommandBuilder) -> (r: OsString)
    ensures
        r@ == comspec_of(cmd@),
{
    match cmd.get_env(&OsString::from_text("ComSpec")) {
        Some(path) => path.clone(),
        None => OsString::from_text("cmd.exe"),
    }
}

/// The command interpreter of a command, as text.
pub fn get_shell(cmd: &CommandBuilder) -> (r: String)
    ensures
        r@ == if valid_utf8(comspec_of(cmd@)) {
            decode_utf8(comspec_of(cmd@))
        } else {
            "%CompSpec%"@
        },
{
    match comspec(cmd).to_text() {
        Some(text) => text,
        None => "%CompSpec%".to_owned(),
    }
}

/// The program of a command, as far as it is known without a search.
#[derive(Debug)]
pub enum WinProgram {
    /// This is the program.
    Known(OsString),
    /// A program with this name is to be searched for.
    Search(OsString),
}

/// The program of a command: where none is named, the command interpreter.
pub fn windows_program(cmd: &CommandBuilder) -> (r: WinProgram)
    ensures
        match r {
            WinProgram::Known(path) => cmd@.argv.len() == 0 && path@ == comspec_of(cmd@),
            WinProgram::Search(name) => cmd@.argv.len() > 0 && name@ == cmd@.argv[0],
        },
{
    let argv = cmd.get_argv();
    if argv.len() == 0 {
        WinProgram::Known(comspec(cmd))
    } else {
        assert(os_views(argv@)[0] == argv@[0]@);
        WinProgram::Search(argv[0].clone())
    }
}

/// The arguments behind the program.
pub open spec fn trailing_args(argv: Seq<Seq<u8>>) -> Seq<Seq<u8>> {
    if argv.len() > 0 {
        argv.skip(1)
    } else {
        seq![]
    }
}

/// The wide forms of strings.
pub open spec fn wide_list(list: Seq<Seq<u8>>) -> Seq<Seq<u16>> {
    list.map_values(|string: Seq<u8>| wide_units(string))
}

/// Whether a wide string can be passed on, up to the zero that ends it.
pub open spec fn is_free_of_zero(units: Seq<u16>) -> bool {
    forall|i: int| 0 <= i < units.len() ==> #[trigger] units[i] != 0
}

/// Whether all arguments behind the program can be passed on.
pub open spec fn args_are_free_of_zero(argv: Seq<Seq<u8>>) -> bool {
    forall|i: int| 1 <= i < argv.len() ==> is_free_of_zero(wide_units(#[trigger] argv[i]))
}

/// Program and arguments as they stand on a command line.
pub open spec fn line_of(exe: Seq<u8>, argv: Seq<Seq<u8>>) -> Seq<u16> {
    quoted_arg(wide_units(exe)) + argument_tail(wide_list(trailing_args(argv)))
}

/// Whether a wide string holds no zero.
fn has_no_zero(units: &Vec<u16>) -> (r: bool)
    ensures
        r == is_free_of_zero(units@),
{
    for i in 0..units.len()
        invariant
            forall|j: int| 0 <= j < i ==> #[trigger] units@[j] != 0,
    {
        if units[i] == 0 {
            return false;
        }
    }
    true
}

/// The wide form of a string with the zero that ends it.
pub fn wide_with_end(string: &OsString) -> (r: Vec<u16>)
    ensures
        r@ == wide_units(string@).push(0),
{
    let mut units = string.encode_wide();
    units.push(0);
    units
}

/// The path of the program, and the command line with the program, which was
/// found at `exe`, and its arguments; each with the zero that ends it.  An
/// argument that holds a zero cannot be passed on: the first such one is told.
pub fn cmdline(cmd: &CommandBuilder, exe: &OsString) -> (r: Result<(Vec<u16>, Vec<u16>), usize>)
    ensures
        match r {
            Ok((program, line)) => {
                &&& args_are_free_of_zero(cmd@.argv)
                &&& program@ == wide_units(exe@).push(0)
                &&& line@ == line_of(exe@, cmd@.argv).push(0)
            },
            Err(index) => {
                &&& 1 <= index < cmd@.argv.len()
                &&& !is_free_of_zero(wide_units(cmd@.argv[index as int]))
                &&& forall|i: int|
                    1 <= i < index ==> is_free_of_zero(wide_units(#[trigger] cmd@.argv[i]))
            },
        },
{
    let mut line: Vec<u16> = Vec::new();
    append_quoted(exe, &mut line);
    let argv = cmd.get_argv();
    let ghost args = wide_list(trailing_args(cmd@.argv));
    let ghost start = quoted_arg(wide_units(exe@));
    assert(line@ =~= start);
    assert(args.take(0) =~= seq![]);
    assert(line@ =~= start + argument_tail(args.take(0)));
    let mut i: usize = 1;
    while i < argv.len()
        invariant
            1 <= i,
            argv@.len() > 0 ==> i <= argv@.len(),
            argv@.len() == 0 ==> i == 1,
            os_views(argv@) == cmd@.argv,
            args == wide_list(trailing_args(cmd@.argv)),
            args.len() == if argv@.len() > 0 {
                argv@.len() - 1
            } else {
                0
            },
            line@ == start + argument_tail(args.take(i - 1)),
            forall|j: int| 1 <= j < i ==> is_free_of_zero(wide_units(#[trigger] cmd@.argv[j])),
        decreases argv@.len() - i,
    {
        assert(cmd@.argv[i as int] == argv@[i as int]@);
        assert(args[i - 1] == wide_units(cmd@.argv[i as int]));
        let ghost before = line@;
        line.push(SPACE);
        if !has_no_zero(&argv[i].encode_wide()) {
            return Err(i);
        }
        append_quoted(&argv[i], &mut line);
        proof {
            let longer = args.take(i as int);
            assert(longer.drop_last() =~= args.take(i - 1));
            assert(longer.last() == args[i - 1]);
            assert(line@ =~= start + argument_tail(longer));
        }
        i = i + 1;
    }
    assert(args.take(i - 1) =~= args);
    line.push(0);
    Ok((wide_with_end(exe), line))
}

/// The error for an argument that cannot be passed on; `arg_text` stands for
/// it.
pub fn invalid_argument(arg_text: &str) -> (r: Error)
    ensures
        r@ == ErrorView::Other("invalid encoding for command line argument "@ + arg_text@),
{
    Error::Other(concat("invalid encoding for command line argument ", arg_text))
}

/// How many units stand before the first quote, or the end.
pub open spec fn before_quote(line: Seq<u16>) -> nat
    decreases line.len(),
{
    if line.len() == 0 || line[0] == QUOTE {
        0
    } else {
        1 + before_quote(line.drop_first())
    }
}

/// How many units stand before the first blank, or the end.
pub open spec fn before_blank(line: Seq<u16>) -> nat
    decreases line.len(),
{
    if line.len() == 0 || line[0] == SPACE || line[0] == TAB {
        0
    } else {
        1 + before_blank(line.drop_first())
    }
}

/// The program that Windows reads at the front of a command line, and what is
/// left after it.  A quoted one goes up to the next quote, any other up to the
/// next blank; a backslash stands for itself.
pub open spec fn read_program(line: Seq<u16>) -> (Seq<u16>, Seq<u16>) {
    if line.len() > 0 && line[0] == QUOTE {
        let inside = line.drop_first();
        let n = before_quote(inside) as int;
        (
            inside.take(n),
            if n < inside.len() {
                inside.skip(n + 1)
            } else {
                seq![]
            },
        )
    } else {
        let n = before_blank(line) as int;
        (line.take(n), line.skip(n))
    }
}

/// Whether a path is read back as the program of a command line: it holds no
/// quote, which no Windows path does, and does not end in a backslash where it
/// has to be quoted.
pub open spec fn is_program_path(exe: Seq<u16>) -> bool {
    &&& forall|i: int| 0 <= i < exe.len() ==> #[trigger] exe[i] != QUOTE
    &&& needs_quotes(exe) && exe.len() > 0 ==> exe.last() != BACKSLASH
}

/// A path without quotes and without a backslash at the end stands for itself
/// between quotes.
proof fn lemma_plain_body(arg: Seq<u16>)
    requires
        forall|i: int| 0 <= i < arg.len() ==> #[trigger] arg[i] != QUOTE,
        arg.len() > 0 ==> arg.last() != BACKSLASH,
    ensures
        quoted_body(arg) == arg,
    decreases arg.len(),
{
    let n = leading_backslashes(arg);
    lemma_leading_backslashes(arg);
    let run = arg.take(n as int);
    let rest = arg.skip(n as int);
    if rest.len() == 0 {
        if n > 0 {
            assert(run[n - 1] == BACKSLASH);
            assert(arg.last() == run[n - 1]);
        }
        assert(quoted_body(arg) =~= arg);
    } else {
        assert(rest[0] == arg[n as int]);
        let more = rest.drop_first();
        assert forall|i: int| 0 <= i < more.len() implies #[trigger] more[i] != QUOTE by {
            assert(more[i] == arg[n + 1 + i]);
        }
        if more.len() > 0 {
            assert(more.last() == arg.last());
        }
        lemma_plain_body(more);
        assert(arg =~= run + seq![rest[0]] + more);
    }
}

/// The first quote after something without one.
proof fn lemma_before_quote(units: Seq<u16>, rest: Seq<u16>)
    requires
        forall|i: int| 0 <= i < units.len() ==> #[trigger] units[i] != QUOTE,
    ensures
        before_quote(units + seq![QUOTE] + rest) == units.len(),
    decreases units.len(),
{
    let all = units + seq![QUOTE] + rest;
    if units.len() > 0 {
        let more = units.drop_first();
        assert(all[0] == units[0]);
        assert forall|i: int| 0 <= i < more.len() implies #[trigger] more[i] != QUOTE by {
            assert(more[i] == units[i + 1]);
        }
        lemma_before_quote(more, rest);
        assert(all.drop_first() =~= more + seq![QUOTE] + rest);
    } else {
        assert(all[0] == QUOTE);
    }
}

/// The first blank after something without one, where a blank or nothing
/// follows.
proof fn lemma_before_blank(units: Seq<u16>, rest: Seq<u16>)
    requires
        forall|i: int|
            0 <= i < units.len() ==> #[trigger] units[i] != SPACE && units[i] != TAB,
        ends_argument(rest),
    ensures
        before_blank(units + rest) == units.len(),
    decreases units.len(),
{
    let all = units + rest;
    if units.len() > 0 {
        let more = units.drop_first();
        assert(all[0] == units[0]);
        assert forall|i: int| 0 <= i < more.len() implies #[trigger] more[i] != SPACE && more[i]
            != TAB by {
            assert(more[i] == units[i + 1]);
        }
        lemma_before_blank(more, rest);
        assert(all.drop_first() =~= more + rest);
    } else {
        assert(all =~= rest);
    }
}

/// Arguments behind a program start with a space, if there are any.
proof fn lemma_tail_starts(args: Seq<Seq<u16>>)
    ensures
        ends_argument(argument_tail(args)),
    decreases args.len(),
{
    if args.len() > 0 {
        lemma_tail_starts(args.drop_last());
        if args.len() == 1 {
            assert(argument_tail(args.drop_last()) =~= seq![]);
        }
    }
}

/// What stands on a command line is read back as the program and its
/// arguments, as long as the path of the program is one that is read back.
pub proof fn command_line_reads_back(exe: Seq<u8>, argv: Seq<Seq<u8>>)
    requires
        is_program_path(wide_units(exe)),
    ensures
        read_program(line_of(exe, argv)).0 == wide_units(exe),
        read_args(read_program(line_of(exe, argv)).1) == wide_list(trailing_args(argv)),
{
    let program = wide_units(exe);
    let args = wide_list(trailing_args(argv));
    let tail = argument_tail(args);
    let line = line_of(exe, argv);
    lemma_tail_starts(args);
    argument_tail_reads_back(args);
    if needs_quotes(program) {
        lemma_plain_body(program);
        lemma_before_quote(program, tail);
        let inside = line.drop_first();
        assert(inside =~= program + seq![QUOTE] + tail);
        assert(inside.take(program.len() as int) =~= program);
        assert(inside.skip(program.len() + 1int) =~= tail);
    } else {
        assert forall|i: int| 0 <= i < program.len() implies #[trigger] program[i] != SPACE
            && program[i] != TAB by {
            assert(!needs_quotes_for(program[i]));
        }
        lemma_before_blank(program, tail);
        assert(line[0] == program[0]);
        assert(line.take(program.len() as int) =~= program);
        assert(line.skip(program.len() as int) =~= tail);
    }
}

/// Quotes bring no zero in.
proof fn lemma_body_has_no_zero(arg: Seq<u16>)
    requires
        is_free_of_zero(arg),
    ensures
        is_free_of_zero(quoted_body(arg)),
    decreases arg.len(),
{
    let n = leading_backslashes(arg);
    lemma_leading_backslashes(arg);
    let rest = arg.skip(n as int);
    if rest.len() > 0 {
        assert(rest[0] == arg[n as int]);
        assert forall|i: int| 0 <= i < rest.drop_first().len() implies #[trigger] rest.drop_first()[i]
            != 0 by {
            assert(rest.drop_first()[i] == arg[n + 1 + i]);
        }
        lemma_body_has_no_zero(rest.drop_first());
    }
}

/// Quotes bring no zero in.
proof fn lemma_tail_has_no_zero(args: Seq<Seq<u16>>)
    requires
        forall|i: int| 0 <= i < args.len() ==> is_free_of_zero(#[trigger] args[i]),
    ensures
        is_free_of_zero(argument_tail(args)),
    decreases args.len(),
{
    if args.len() > 0 {
        lemma_tail_has_no_zero(args.drop_last());
        assert(is_free_of_zero(args[args.len() - 1]));
        lemma_body_has_no_zero(args.last());
    }
}

/// A command line is read up to its first zero, and only the last one on it
/// is: nothing of the arguments is cut off, as long as the path of the program
/// holds none.
pub proof fn command_line_is_read_whole(exe: Seq<u8>, argv: Seq<Seq<u8>>)
    requires
        is_free_of_zero(wide_units(exe)),
        args_are_free_of_zero(argv),
    ensures
        is_free_of_zero(line_of(exe, argv)),
{
    let args = wide_list(trailing_args(argv));
    assert forall|i: int| 0 <= i < args.len() implies is_free_of_zero(#[trigger] args[i]) by {
        assert(is_free_of_zero(wide_units(argv[i + 1])));
    }
    lemma_body_has_no_zero(wide_units(exe));
    lemma_tail_has_no_zero(args);
}

/// A variable as it stands in an environment block.
pub open spec fn block_entry(name: Seq<u8>, value: Seq<u8>) -> Seq<u16> {
    wide_units(name) + seq![EQUALS] + wide_units(value)
}

/// Variables as they stand in an environment block, each with the zero that
/// ends it.
pub open spec fn block_entries(listing: Listing) -> Seq<u16>
    decreases listing.len(),
{
    if listing.len() == 0 {
        seq![]
    } else {
        block_entries(listing.drop_last()) + block_entry(
            listing.last().1.preferred_key,
            listing.last().1.value,
        ).push(0)
    }
}

/// The environment of a command: its variables, in the order of their keys and
/// under the names that they were given, and a zero at the end.
pub fn environment_block(cmd: &CommandBuilder) -> (r: Vec<u16>)
    ensures
        r@ == block_entries(cmd@.env).push(0),
{
    let envs = cmd.envs();
    let mut block: Vec<u16> = Vec::new();
    assert(cmd@.env.take(0) =~= seq![]);
    let count = envs.len();
    for i in 0..count
        invariant
            count == envs@.len(),
            envs@ == cmd@.env,
            block@ == block_entries(cmd@.env.take(i as int)),
    {
        let entry = envs.entry(i);
        let ghost before = block@;
        extend(&mut block, &entry.preferred_key.encode_wide());
        block.push(EQUALS);
        extend(&mut block, &entry.value.encode_wide());
        block.push(0);
        proof {
            let longer = cmd@.env.take(i + 1);
            assert(longer.drop_last() =~= cmd@.env.take(i as int));
            assert(longer.last() == cmd@.env[i as int]);
            assert(block@ =~= before + block_entry(entry@.preferred_key, entry@.value).push(0));
        }
    }
    assert(cmd@.env.take(count as int) =~= cmd@.env);
    block.push(0);
    block
}

/// Where the first zero stands, or the end.
pub open spec fn first_zero(units: Seq<u16>) -> nat
    decreases units.len(),
{
    if units.len() == 0 || units[0] == 0 {
        0
    } else {
        1 + first_zero(units.drop_first())
    }
}

/// The strings that are read from an environment block: each goes up to its
/// zero, and an empty one ends the block.
pub open spec fn read_block(block: Seq<u16>) -> Seq<Seq<u16>>
    decreases block.len(),
    via read_block_decreases
{
    let n = first_zero(block);
    if n == 0 {
        seq![]
    } else if n >= block.len() {
        seq![block]
    } else {
        seq![block.take(n as int)] + read_block(block.skip(n + 1int))
    }
}

#[via_fn]
proof fn read_block_decreases(block: Seq<u16>) {
}

/// The first zero after something without one.
proof fn lemma_first_zero(units: Seq<u16>, rest: Seq<u16>)
    requires
        is_free_of_zero(units),
    ensures
        first_zero(units.push(0) + rest) == units.len(),
    decreases units.len(),
{
    let all = units.push(0) + rest;
    if units.len() > 0 {
        assert(units[0] != 0);
        assert(all[0] == units[0]);
        assert forall|i: int| 0 <= i < units.drop_first().len() implies #[trigger] units.drop_first()[i]
            != 0 by {
            assert(units.drop_first()[i] == units[i + 1]);
        }
        lemma_first_zero(units.drop_first(), rest);
        assert(all.drop_first() =~= units.drop_first().push(0) + rest);
    }
}

/// The strings of an environment block.
pub open spec fn block_strings(listing: Listing) -> Seq<Seq<u16>> {
    listing.map_values(
        |slot: (Seq<u8>, crate::env::EnvEntryView)|
            block_entry(slot.1.preferred_key, slot.1.value),
    )
}

/// Whether all names and values of a listing can be passed on.
pub open spec fn listing_is_free_of_zero(listing: Listing) -> bool {
    forall|i: int|
        0 <= i < listing.len() ==> is_free_of_zero(
            wide_units((#[trigger] listing[i]).1.preferred_key),
        ) && is_free_of_zero(wide_units(listing[i].1.value))
}

/// Reading variables with something behind them.
proof fn lemma_read_block(listing: Listing, rest: Seq<u16>)
    requires
        listing_is_free_of_zero(listing),
    ensures
        read_block(block_entries(listing) + rest) == block_strings(listing) + read_block(rest),
    decreases listing.len(),
{
    if listing.len() == 0 {
        assert(block_entries(listing) + rest =~= rest);
        assert(block_strings(listing) + read_block(rest) =~= read_block(rest));
    } else {
        let front = listing.drop_last();
        let last = listing[listing.len() - 1];
        let entry = block_entry(last.1.preferred_key, last.1.value);
        assert(is_free_of_zero(wide_units(last.1.preferred_key)));
        assert(is_free_of_zero(entry));
        let tail = entry.push(0) + rest;
        lemma_first_zero(entry, rest);
        assert(tail.take(entry.len() as int) =~= entry);
        assert(tail.skip(entry.len() + 1int) =~= rest);
        assert(read_block(tail) =~= seq![entry] + read_block(rest));
        lemma_read_block(front, tail);
        assert(block_entries(listing) + rest =~= block_entries(front) + tail);
        assert(block_strings(listing) =~= block_strings(front).push(entry));
        assert(block_strings(listing) + read_block(rest) =~= block_strings(front) + (seq![entry]
            + read_block(rest)));
    }
}

/// A process that reads its environment block finds the variables of the
/// command, and no others.
pub proof fn environment_block_reads_back(listing: Listing)
    requires
        listing_is_free_of_zero(listing),
    ensures
        read_block(block_entries(listing).push(0)) == block_strings(listing),
{
    let rest = seq![0u16];
    lemma_read_block(listing, rest);
    assert(block_entries(listing).push(0) =~= block_entries(listing) + rest);
    assert(read_block(rest) =~= seq![]);
    assert(block_strings(listing) + read_block(rest) =~= block_strings(listing));
}

/// The directory to start in: the one of the command, or else the user's, of
/// those that are directories.
pub open spec fn start_dir(
    builder: BuilderView,
    home_is_dir: bool,
    cwd_is_dir: bool,
) -> Option<Seq<u8>> {
    if builder.cwd is Some && cwd_is_dir {
        builder.cwd
    } else if home_is_dir {
        env_value(builder, encode_utf8("USERPROFILE"@))
    } else {
        None
    }
}

/// The home directory of the user.
pub fn user_profile(cmd: &CommandBuilder) -> (r: Option<&OsString>)
    ensures
        match r {
            Some(dir) => env_value(cmd@, encode_utf8("USERPROFILE"@)) == Some(dir@),
            None => env_value(cmd@, encode_utf8("USERPROFILE"@)) is None,
        },
{
    cmd.get_env(&OsString::from_text("USERPROFILE"))
}

/// The directory to start in, where it is known whether the home directory of
/// the user and the directory of the command are directories.
pub fn current_directory(cmd: &CommandBuilder, home_is_dir: bool, cwd_is_dir: bool) -> (r: Option<
    &OsString,
>)
    ensures
        match r {
            Some(dir) => start_dir(cmd@, home_is_dir, cwd_is_dir) == Some(dir@),
            None => start_dir(cmd@, home_is_dir, cwd_is_dir) is None,
        },
{
    if cwd_is_dir {
        if let Some(dir) = cmd.get_cwd() {
            return Some(dir);
        }
    }
    if home_is_dir {
        user_profile(cmd)
    } else {
        None
    }
}

/// The directory to start in as the process gets it: a relative one is put
/// behind the current directory, which is `joined`, unless that is not known.
pub fn start_directory<'a>(
    dir: Option<&'a OsString>,
    relative: bool,
    joined: Option<&'a OsString>,
) -> (r: Option<&'a OsString>)
    ensures
        r == if dir is Some && relative && joined is Some {
            joined
        } else {
            dir
        },
{
    match (dir, joined) {
        (Some(_), Some(path)) => if relative {
            Some(path)
        } else {
            dir
        },
        _ => dir,
    }
}

/// What a process is started with.
#[derive(Debug)]
pub struct WindowsPlan {
    /// The path of the program, with the zero that ends it.
    pub program: Vec<u16>,
    /// The command line, with the zero that ends it.
    pub line: Vec<u16>,
    /// The environment block.
    pub environment: Vec<u16>,
    /// The directory to start in, with the zero that ends it; without one, the
    /// process starts where the caller is.
    pub dir: Option<Vec<u16>>,
    /// The flags with which the process is made.
    pub flags: u32,
}

/// What a [`WindowsPlan`] holds.
pub struct WindowsPlanView {
    pub program: Seq<u16>,
    pub line: Seq<u16>,
    pub environment: Seq<u16>,
    pub dir: Option<Seq<u16>>,
    pub flags: u32,
}

impl View for WindowsPlan {
    type V = WindowsPlanView;

    open spec fn view(&self) -> WindowsPlanView {
        WindowsPlanView {
            program: self.program@,
            line: self.line@,
            environment: self.environment@,
            dir: match self.dir {
                Some(dir) => Some(dir@),
                None => None,
            },
            flags: self.flags,
        }
    }
}

/// The plan for a command whose program was found at `exe`, and that starts in
/// `dir`.
pub open spec fn windows_plan_of(
    builder: BuilderView,
    exe: Seq<u8>,
    dir: Option<Seq<u8>>,
) -> WindowsPlanView {
    WindowsPlanView {
        program: wide_units(exe).push(0),
        line: line_of(exe, builder.argv).push(0),
        environment: block_entries(builder.env).push(0),
        dir: match dir {
            Some(dir) => Some(wide_units(dir).push(0)),
            None => None,
        },
        flags: CREATION_FLAGS,
    }
}

/// The plan for a command whose program was found at `exe`, and that starts in
/// `dir`.  An argument that cannot be passed on is told, the first one first.
pub fn windows_plan(cmd: &CommandBuilder, exe: &OsString, dir: Option<&OsString>) -> (r: Result<
    WindowsPlan,
    usize,
>)
    ensures
        match r {
            Ok(plan) => args_are_free_of_zero(cmd@.argv) && plan@ == windows_plan_of(
                cmd@,
                exe@,
                match dir {
                    Some(dir) => Some(dir@),
                    None => None,
                },
            ),
            Err(index) => {
                &&& 1 <= index < cmd@.argv.len()
                &&& !is_free_of_zero(wide_units(cmd@.argv[index as int]))
                &&& forall|i: int|
                    1 <= i < index ==> is_free_of_zero(wide_units(#[trigger] cmd@.argv[i]))
            },
        },
{
    match cmdline(cmd, exe) {
        Ok((program, line)) => {
            let dir = match dir {
                Some(dir) => Some(wide_with_end(dir)),
                None => None,
            };
            Ok(
                WindowsPlan {
                    program,
                    line,
                    environment: environment_block(cmd),
                    dir,
                    flags: CREATION_FLAGS,
                },
            )
        },
        Err(index) => Err(index),
    }
}

/// The error of a process that could not be made.
pub open spec fn create_failure(
    line_text: Seq<char>,
    dir_text: Seq<char>,
    error: Seq<char>,
) -> ErrorView {
    ErrorView::Other(
        "CreateProcessW `"@ + line_text + "` in cwd `"@ + dir_text + "` failed: "@ + error,
    )
}

/// What making a process came to; `result` is zero where it failed, and then
/// `last_error` is why.  The texts stand for the command line and the
/// directory.
pub fn created(result: i32, line_text: &str, dir_text: &str, last_error: &IoError) -> (r: Result<
    (),
    Error,
>)
    ensures
        match r {
            Ok(_) => result != 0,
            Err(error) => result == 0 && error@ == create_failure(
                line_text@,
                dir_text@,
                last_error@.message,
            ),
        },
{
    if result == 0 {
        let mut out = concat("CreateProcessW `", line_text);
        out.append("` in cwd `");
        out.append(dir_text);
        out.append("` failed: ");
        out.append(last_error.message.as_str());
        Err(Error::Other(out))
    } else {
        Ok(())
    }
}

} // verus!

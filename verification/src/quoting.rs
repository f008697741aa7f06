//! Arguments on a Windows command line.
use vstd::prelude::*;

use crate::os_string::OsString;
use crate::wide::wide_units;

verus! {

/// The space.
pub const SPACE: u16 = 0x20;

/// The tab.
pub const TAB: u16 = 0x09;

/// The line feed.
pub const LINE_FEED: u16 = 0x0a;

/// The vertical tab.
pub const VERTICAL_TAB: u16 = 0x0b;

/// The double quote.
pub const QUOTE: u16 = 0x22;

/// The backslash.
pub const BACKSLASH: u16 = 0x5c;

/// Units that make an argument need quotes.
pub open spec fn needs_quotes_for(unit: u16) -> bool {
    unit == SPACE || unit == TAB || unit == LINE_FEED || unit == VERTICAL_TAB || unit == QUOTE
}

/// Whether an argument is put in quotes: when it is empty or holds a unit that
/// needs them.
pub open spec fn needs_quotes(arg: Seq<u16>) -> bool {
    arg.len() == 0 || exists|i: int| 0 <= i < arg.len() && needs_quotes_for(#[trigger] arg[i])
}

/// The number of backslashes at the front.
pub open spec fn leading_backslashes(units: Seq<u16>) -> nat
    decreases units.len(),
{
    if units.len() > 0 && units[0] == BACKSLASH {
        1 + leading_backslashes(units.drop_first())
    } else {
        0
    }
}

/// So many backslashes.
pub open spec fn backslashes(n: nat) -> Seq<u16> {
    Seq::new(n, |i: int| BACKSLASH)
}

/// An argument as it stands between its quotes: backslashes are doubled before
/// a quote and at the end, a quote gets a backslash of its own, and all else
/// stands for itself.
pub open spec fn quoted_body(arg: Seq<u16>) -> Seq<u16>
    decreases arg.len(),
    via quoted_body_decreases
{
    let n = leading_backslashes(arg);
    let rest = arg.skip(n as int);
    if rest.len() == 0 {
        backslashes(2 * n)
    } else if rest[0] == QUOTE {
        backslashes(2 * n + 1) + seq![QUOTE] + quoted_body(rest.drop_first())
    } else {
        backslashes(n) + seq![rest[0]] + quoted_body(rest.drop_first())
    }
}

#[via_fn]
proof fn quoted_body_decreases(arg: Seq<u16>) {
    lemma_leading_backslashes(arg);
}

/// The number of backslashes at the front is the length of a run of them.
pub(crate) proof fn lemma_leading_backslashes(units: Seq<u16>)
    ensures
        leading_backslashes(units) <= units.len(),
        units.take(leading_backslashes(units) as int) == backslashes(leading_backslashes(units)),
        leading_backslashes(units) < units.len() ==> units[leading_backslashes(units) as int]
            != BACKSLASH,
    decreases units.len(),
{
    let n = leading_backslashes(units);
    if units.len() > 0 && units[0] == BACKSLASH {
        let rest = units.drop_first();
        lemma_leading_backslashes(rest);
        assert(rest.take(n - 1) == backslashes((n - 1) as nat));
        assert forall|i: int| 0 <= i < n implies units[i] == BACKSLASH by {
            if i > 0 {
                assert(rest.take(n - 1)[i - 1] == BACKSLASH);
            }
        }
    }
    assert(units.take(n as int) =~= backslashes(n));
}

/// A run of backslashes before something else is counted in full.
proof fn lemma_count_run(n: nat, rest: Seq<u16>)
    requires
        rest.len() == 0 || rest[0] != BACKSLASH,
    ensures
        leading_backslashes(backslashes(n) + rest) == n,
        (backslashes(n) + rest).skip(n as int) == rest,
    decreases n,
{
    assert((backslashes(n) + rest).skip(n as int) =~= rest);
    if n == 0 {
        assert(backslashes(n) + rest =~= rest);
    } else {
        assert((backslashes(n) + rest).drop_first() =~= backslashes((n - 1) as nat) + rest);
        lemma_count_run((n - 1) as nat, rest);
    }
}

/// An argument as it is written on a command line.
pub open spec fn quoted_arg(arg: Seq<u16>) -> Seq<u16> {
    if needs_quotes(arg) {
        seq![QUOTE] + quoted_body(arg) + seq![QUOTE]
    } else {
        arg
    }
}

/// Arguments as they stand behind the program on a command line, each after a
/// space.
pub open spec fn argument_tail(args: Seq<Seq<u16>>) -> Seq<u16>
    decreases args.len(),
{
    if args.len() == 0 {
        seq![]
    } else {
        argument_tail(args.drop_last()) + seq![SPACE] + quoted_arg(args.last())
    }
}

/// The argument that Windows programs read at the front of a command line, and
/// what is left after it.  A quote opens or closes a quoted part.  Before a
/// quote each pair of backslashes stands for one, and a backslash left over
/// makes the quote stand for itself.  Outside quotes a space or a tab ends the
/// argument.
pub open spec fn read_arg(line: Seq<u16>, in_quotes: bool) -> (Seq<u16>, Seq<u16>)
    decreases line.len(),
    via read_arg_decreases
{
    let n = leading_backslashes(line);
    let after = line.skip(n as int);
    if line.len() == 0 {
        (seq![], seq![])
    } else if n > 0 {
        if after.len() > 0 && after[0] == QUOTE {
            if n % 2 == 1 {
                let (more, rest) = read_arg(after.drop_first(), in_quotes);
                (backslashes(n / 2) + seq![QUOTE] + more, rest)
            } else {
                let (more, rest) = read_arg(after, in_quotes);
                (backslashes(n / 2) + more, rest)
            }
        } else {
            let (more, rest) = read_arg(after, in_quotes);
            (backslashes(n) + more, rest)
        }
    } else if line[0] == QUOTE {
        read_arg(line.drop_first(), !in_quotes)
    } else if !in_quotes && (line[0] == SPACE || line[0] == TAB) {
        (seq![], line)
    } else {
        let (more, rest) = read_arg(line.drop_first(), in_quotes);
        (seq![line[0]] + more, rest)
    }
}

#[via_fn]
proof fn read_arg_decreases(line: Seq<u16>, in_quotes: bool) {
    lemma_leading_backslashes(line);
}

/// The arguments that Windows programs read from what stands behind the
/// program on a command line.
pub open spec fn read_args(line: Seq<u16>) -> Seq<Seq<u16>>
    decreases line.len(),
    via read_args_decreases
{
    if line.len() == 0 {
        seq![]
    } else if line[0] == SPACE || line[0] == TAB {
        read_args(line.drop_first())
    } else {
        let (arg, rest) = read_arg(line, false);
        seq![arg] + read_args(rest)
    }
}

#[via_fn]
proof fn read_args_decreases(line: Seq<u16>) {
    if line.len() > 0 && line[0] != SPACE && line[0] != TAB {
        lemma_read_arg_shortens(line, false);
    }
}

/// Reading an argument leaves no more than there was, and less where something
/// other than a blank stands at the front.
proof fn lemma_read_arg_shortens(line: Seq<u16>, in_quotes: bool)
    ensures
        read_arg(line, in_quotes).1.len() <= line.len(),
        line.len() > 0 && line[0] != SPACE && line[0] != TAB ==> read_arg(line, in_quotes).1.len()
            < line.len(),
    decreases line.len(),
{
    let n = leading_backslashes(line);
    let after = line.skip(n as int);
    lemma_leading_backslashes(line);
    if line.len() == 0 {
    } else if n > 0 {
        if after.len() > 0 && after[0] == QUOTE {
            if n % 2 == 1 {
                lemma_read_arg_shortens(after.drop_first(), in_quotes);
            } else {
                lemma_read_arg_shortens(after, in_quotes);
            }
        } else {
            lemma_read_arg_shortens(after, in_quotes);
        }
    } else if line[0] == QUOTE {
        lemma_read_arg_shortens(line.drop_first(), !in_quotes);
    } else if !in_quotes && (line[0] == SPACE || line[0] == TAB) {
    } else {
        lemma_read_arg_shortens(line.drop_first(), in_quotes);
    }
}

/// What may follow an argument: nothing, or a blank.
pub open spec fn ends_argument(rest: Seq<u16>) -> bool {
    rest.len() == 0 || rest[0] == SPACE || rest[0] == TAB
}

/// Where an argument has ended, nothing more is read.
proof fn lemma_read_end(rest: Seq<u16>)
    requires
        ends_argument(rest),
    ensures
        read_arg(rest, false) == (Seq::<u16>::empty(), rest),
{
    if rest.len() == 0 {
        assert(rest =~= seq![]);
    }
}

/// A unit that is no backslash and no quote is read as it stands inside quotes.
proof fn lemma_read_plain(unit: u16, line: Seq<u16>, in_quotes: bool)
    requires
        unit != BACKSLASH,
        unit != QUOTE,
        in_quotes || (unit != SPACE && unit != TAB),
    ensures
        read_arg(seq![unit] + line, in_quotes) == (
            seq![unit] + read_arg(line, in_quotes).0,
            read_arg(line, in_quotes).1,
        ),
{
    assert((seq![unit] + line).drop_first() =~= line);
}

/// A run of backslashes that no quote follows is read as it stands.
proof fn lemma_read_run(n: nat, line: Seq<u16>, in_quotes: bool)
    requires
        line.len() == 0 || (line[0] != BACKSLASH && line[0] != QUOTE),
    ensures
        read_arg(backslashes(n) + line, in_quotes) == (
            backslashes(n) + read_arg(line, in_quotes).0,
            read_arg(line, in_quotes).1,
        ),
{
    lemma_count_run(n, line);
    if n == 0 {
        assert(backslashes(n) + line =~= line);
        assert(backslashes(n) + read_arg(line, in_quotes).0 =~= read_arg(line, in_quotes).0);
    }
}

/// The quoted form of an argument followed by the closing quote is read as the
/// argument.
proof fn lemma_read_body(arg: Seq<u16>, rest: Seq<u16>)
    requires
        ends_argument(rest),
    ensures
        read_arg(quoted_body(arg) + (seq![QUOTE] + rest), true) == (arg, rest),
    decreases arg.len(),
{
    let n = leading_backslashes(arg);
    let tail = arg.skip(n as int);
    let close = seq![QUOTE] + rest;
    let nothing = Seq::<u16>::empty();
    lemma_leading_backslashes(arg);
    assert(arg =~= backslashes(n) + tail);
    if tail.len() == 0 {
        assert(read_arg(close, true) == (nothing, rest)) by {
            assert(close.drop_first() =~= rest);
            lemma_read_end(rest);
        }
        lemma_count_run(2 * n, close);
        if n == 0 {
            assert(quoted_body(arg) + close =~= close);
            assert(arg =~= nothing);
        } else {
            assert((2 * n) / 2 == n);
            assert(backslashes(n) + nothing =~= arg);
        }
    } else {
        let more = quoted_body(tail.drop_first()) + close;
        lemma_read_body(tail.drop_first(), rest);
        assert(seq![tail[0]] + tail.drop_first() =~= tail);
        if tail[0] == QUOTE {
            let line = quoted_body(arg) + close;
            assert(line =~= backslashes(2 * n + 1) + (seq![QUOTE] + more));
            lemma_count_run(2 * n + 1, seq![QUOTE] + more);
            assert((seq![QUOTE] + more).drop_first() =~= more);
            assert((2 * n + 1) / 2 == n && (2 * n + 1) % 2 == 1);
            assert(backslashes(n) + seq![QUOTE] + tail.drop_first() =~= arg);
        } else {
            let line = quoted_body(arg) + close;
            assert(line =~= backslashes(n) + (seq![tail[0]] + more));
            lemma_read_run(n, seq![tail[0]] + more, true);
            lemma_read_plain(tail[0], more, true);
        }
    }
}

/// An argument that needs no quotes is read as it stands.
proof fn lemma_read_bare(arg: Seq<u16>, rest: Seq<u16>)
    requires
        ends_argument(rest),
        forall|i: int| 0 <= i < arg.len() ==> !needs_quotes_for(#[trigger] arg[i]),
    ensures
        read_arg(arg + rest, false) == (arg, rest),
    decreases arg.len(),
{
    let n = leading_backslashes(arg);
    let tail = arg.skip(n as int);
    lemma_leading_backslashes(arg);
    assert(arg =~= backslashes(n) + tail);
    if tail.len() == 0 {
        assert(arg + rest =~= backslashes(n) + rest);
        lemma_read_run(n, rest, false);
        lemma_read_end(rest);
        assert(backslashes(n) + Seq::<u16>::empty() =~= arg);
    } else {
        assert(tail[0] == arg[n as int]);
        assert forall|i: int| 0 <= i < tail.drop_first().len() implies !needs_quotes_for(
            #[trigger] tail.drop_first()[i],
        ) by {
            assert(tail.drop_first()[i] == arg[n + 1 + i]);
        }
        let more = tail.drop_first() + rest;
        lemma_read_bare(tail.drop_first(), rest);
        assert(arg + rest =~= backslashes(n) + (seq![tail[0]] + more));
        lemma_read_run(n, seq![tail[0]] + more, false);
        lemma_read_plain(tail[0], more, false);
        assert(seq![tail[0]] + tail.drop_first() =~= tail);
    }
}

/// A Windows program reads back the very argument that was written to its
/// command line, quotes, blanks and backslashes included.
pub proof fn quoted_arg_reads_back(arg: Seq<u16>, rest: Seq<u16>)
    requires
        ends_argument(rest),
    ensures
        read_arg(quoted_arg(arg) + rest, false) == (arg, rest),
{
    if needs_quotes(arg) {
        let line = quoted_arg(arg) + rest;
        assert(line.drop_first() =~= quoted_body(arg) + (seq![QUOTE] + rest));
        lemma_read_body(arg, rest);
    } else {
        lemma_read_bare(arg, rest);
    }
}

/// A written argument begins with something other than a blank.
proof fn lemma_quoted_front(arg: Seq<u16>)
    ensures
        quoted_arg(arg).len() > 0,
        quoted_arg(arg)[0] != SPACE,
        quoted_arg(arg)[0] != TAB,
{
    if !needs_quotes(arg) {
        assert(!needs_quotes_for(arg[0]));
    }
}

/// Reading written arguments and what follows them.
proof fn lemma_read_tail(args: Seq<Seq<u16>>, rest: Seq<u16>)
    requires
        ends_argument(rest),
    ensures
        read_args(argument_tail(args) + rest) == args + read_args(rest),
    decreases args.len(),
{
    if args.len() == 0 {
        assert(argument_tail(args) + rest =~= rest);
        assert(args + read_args(rest) =~= read_args(rest));
    } else {
        let last = args.last();
        let front = args.drop_last();
        let line = quoted_arg(last) + rest;
        assert(argument_tail(args) + rest =~= argument_tail(front) + (seq![SPACE] + line));
        lemma_read_tail(front, seq![SPACE] + line);
        assert((seq![SPACE] + line).drop_first() =~= line);
        lemma_quoted_front(last);
        quoted_arg_reads_back(last, rest);
        assert(read_args(seq![SPACE] + line) == read_args(line));
        assert(line[0] == quoted_arg(last)[0]);
        assert(read_args(line) == seq![last] + read_args(rest));
        assert(front + (seq![last] + read_args(rest)) =~= args + read_args(rest));
    }
}

/// A Windows program reads back from its command line exactly the arguments
/// that were put there, in order.
pub proof fn argument_tail_reads_back(args: Seq<Seq<u16>>)
    ensures
        read_args(argument_tail(args)) == args,
{
    let nothing = Seq::<u16>::empty();
    lemma_read_tail(args, nothing);
    assert(argument_tail(args) + nothing =~= argument_tail(args));
    assert(args + read_args(nothing) =~= args);
}

/// Appends all units of `units`.
pub(crate) fn extend(out: &mut Vec<u16>, units: &Vec<u16>)
    ensures
        final(out)@ == old(out)@ + units@,
{
    for i in 0..units.len()
        invariant
            out@ == old(out)@ + units@.take(i as int),
    {
        out.push(units[i]);
        assert(units@.take(i + 1) =~= units@.take(i as int).push(units@[i as int]));
    }
    assert(units@.take(units@.len() as int) =~= units@);
}

/// Appends so many backslashes.
fn push_backslashes(out: &mut Vec<u16>, n: usize)
    ensures
        final(out)@ == old(out)@ + backslashes(n as nat),
{
    for i in 0..n
        invariant
            out@ == old(out)@ + backslashes(i as nat),
    {
        out.push(BACKSLASH);
        assert(out@ =~= old(out)@ + backslashes((i + 1) as nat));
    }
}

/// Whether an argument has to be put in quotes.
fn has_to_be_quoted(arg: &Vec<u16>) -> (r: bool)
    ensures
        r == needs_quotes(arg@),
{
    if arg.len() == 0 {
        return true;
    }
    for i in 0..arg.len()
        invariant
            forall|j: int| 0 <= j < i ==> !needs_quotes_for(#[trigger] arg@[j]),
    {
        let unit = arg[i];
        if unit == SPACE || unit == TAB || unit == LINE_FEED || unit == VERTICAL_TAB || unit
            == QUOTE {
            assert(needs_quotes_for(arg@[i as int]));
            return true;
        }
    }
    false
}

/// Appends an argument to a command line, in quotes where it needs them.
pub fn append_quoted(arg: &OsString, cmdline: &mut Vec<u16>)
    ensures
        final(cmdline)@ == old(cmdline)@ + quoted_arg(wide_units(arg@)),
{
    let units = arg.encode_wide();
    if !has_to_be_quoted(&units) {
        extend(cmdline, &units);
        return;
    }
    cmdline.push(QUOTE);
    let ghost start = cmdline@;
    let mut i: usize = 0;
    assert(units@.skip(0) =~= units@);
    while i < units.len()
        invariant
            i <= units@.len(),
            start + quoted_body(units@) == cmdline@ + quoted_body(units@.skip(i as int)),
        decreases units@.len() - i,
    {
        let ghost left = units@.skip(i as int);
        let ghost before = cmdline@;
        let first = i;
        while i < units.len() && units[i] == BACKSLASH
            invariant
                first <= i <= units@.len(),
                forall|j: int| first <= j < i ==> #[trigger] units@[j] == BACKSLASH,
            decreases units@.len() - i,
        {
            i += 1;
        }
        let count = i - first;
        proof {
            let rest = units@.skip(i as int);
            assert(left =~= backslashes(count as nat) + rest);
            lemma_count_run(count as nat, rest);
        }
        if i == units.len() {
            push_backslashes(cmdline, count);
            push_backslashes(cmdline, count);
            assert(cmdline@ =~= before + backslashes((2 * count) as nat));
            assert(units@.skip(i as int) =~= seq![]);
            assert(quoted_body(seq![]) =~= seq![]) by {
                assert(Seq::<u16>::empty().skip(0) =~= seq![]);
            }
            assert(cmdline@ + quoted_body(units@.skip(i as int)) =~= cmdline@);
        } else {
            push_backslashes(cmdline, count);
            if units[i] == QUOTE {
                push_backslashes(cmdline, count);
                push_backslashes(cmdline, 1);
                assert(cmdline@ =~= before + backslashes((2 * count + 1) as nat));
            }
            cmdline.push(units[i]);
            assert(units@.skip(i as int).drop_first() =~= units@.skip(i + 1));
            i += 1;
            assert(cmdline@ + quoted_body(units@.skip(i as int)) =~= before + quoted_body(left));
        }
    }
    assert(units@.skip(i as int) =~= seq![]);
    assert(quoted_body(seq![]) =~= seq![]) by {
        assert(Seq::<u16>::empty().skip(0) =~= seq![]);
    }
    assert(cmdline@ =~= start + quoted_body(units@));
    cmdline.push(QUOTE);
    assert(cmdline@ =~= old(cmdline)@ + quoted_arg(wide_units(arg@)));
}

} // verus!

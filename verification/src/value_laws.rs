//! What numbers, statuses, errors and sizes are turned into.
use vstd::arithmetic::div_mod::lemma_mod_breakdown;
use vstd::prelude::*;

use crate::base_env::{registry_views, RegistryValue};
use crate::error::{bits_of, error_text, Error, ErrorView, IoError, IoErrorView};
use crate::exit_status::{is_success, status_of, status_text, ExitStatusView, WaitStatus};
use crate::foreign::lossy_text;
use crate::kill::{result_view, signed_pid};
use crate::os_string::{os_pairs, os_views, OsString};
use crate::pty::{signed_of, size_of_winsize, winsize_of, writer_answers, PtySize, WinSize,
    WriterAnswer};
use crate::spawn::fd_values;
use crate::text::{decimal, digit_char, hexadecimal, joined, signed_decimal, small_char, texts};
use crate::unix::read_view;

verus! {

/// The value of a digit: `0` to `9`, and `a` to `f` for ten to fifteen; none
/// for any other character.
pub open spec fn digit_of(c: char) -> int {
    if '0' <= c <= '9' {
        c as int - '0' as int
    } else if 'a' <= c <= 'f' {
        c as int - 'a' as int + 10
    } else {
        -1
    }
}

/// The number that digits stand for.
pub open spec fn number_of(digits: Seq<char>, base: int) -> int
    decreases digits.len(),
{
    if digits.len() == 0 {
        0
    } else {
        number_of(digits.drop_last(), base) * base + digit_of(digits.last())
    }
}

/// A power of sixteen.
pub open spec fn power_of_sixteen(n: nat) -> nat
    decreases n,
{
    if n == 0 {
        1
    } else {
        16 * power_of_sixteen((n - 1) as nat)
    }
}

/// A digit is written so that it is read back.
proof fn lemma_digit(digit: int)
    requires
        0 <= digit < 16,
    ensures
        digit_of(digit_char(digit)) == digit,
        digit < 10 ==> '0' <= digit_char(digit) <= '9',
{
}

/// A number in decimal notation reads as that number; it is made of the digits
/// from zero to nine, and begins with a zero only where it is zero.
pub proof fn decimal_reads_back(n: nat)
    ensures
        number_of(decimal(n), 10) == n,
        decimal(n).len() > 0,
        forall|i: int| 0 <= i < decimal(n).len() ==> '0' <= #[trigger] decimal(n)[i] <= '9',
        decimal(n)[0] == '0' ==> n == 0,
    decreases n,
{
    if n < 10 {
        let text = seq![digit_char(n as int)];
        lemma_digit(n as int);
        assert(text.drop_last() =~= seq![]);
        assert(number_of(text.drop_last(), 10) == 0);
    } else {
        let front = decimal(n / 10);
        let last = digit_char((n % 10) as int);
        decimal_reads_back(n / 10);
        lemma_digit((n % 10) as int);
        assert(front.push(last).drop_last() =~= front);
        assert forall|i: int| 0 <= i < decimal(n).len() implies '0' <= #[trigger] decimal(n)[i]
            <= '9' by {
            if i < front.len() {
                assert(decimal(n)[i] == front[i]);
            }
        }
        assert(decimal(n)[0] == front[0]);
    }
}

/// A negative number is written with a minus sign before its size.
pub proof fn signed_decimal_reads_back(n: int)
    ensures
        n >= 0 ==> number_of(signed_decimal(n), 10) == n && signed_decimal(n)[0] != '-',
        n < 0 ==> signed_decimal(n)[0] == '-' && number_of(signed_decimal(n).skip(1), 10) == -n,
{
    if n >= 0 {
        decimal_reads_back(n as nat);
        assert('0' <= decimal(n as nat)[0] <= '9');
    } else {
        decimal_reads_back((-n) as nat);
        assert(signed_decimal(n).skip(1) =~= decimal((-n) as nat));
    }
}

/// A number in hexadecimal notation has as many digits as were asked for, and
/// they read as what is left of the number in that many digits.
pub proof fn hexadecimal_reads_back(n: nat, width: nat)
    ensures
        hexadecimal(n, width).len() == width,
        number_of(hexadecimal(n, width), 16) == n as int % power_of_sixteen(width) as int,
        power_of_sixteen(width) > 0,
    decreases width,
{
    if width > 0 {
        let front = hexadecimal(n / 16, (width - 1) as nat);
        let last = digit_char((n % 16) as int);
        let power = power_of_sixteen((width - 1) as nat) as int;
        hexadecimal_reads_back(n / 16, (width - 1) as nat);
        lemma_digit((n % 16) as int);
        assert(front.push(last).drop_last() =~= front);
        lemma_mod_breakdown(n as int, 16, power);
    }
}

/// A list is joined item by item, with the separator between two items and
/// nowhere else.
pub proof fn items_are_joined(list: Seq<Seq<char>>, item: Seq<char>, separator: Seq<char>)
    ensures
        joined(seq![], separator) == Seq::<char>::empty(),
        joined(seq![item], separator) == item,
        list.len() > 0 ==> joined(list.push(item), separator) == joined(list, separator)
            + separator + item,
{
    assert(list.push(item).drop_last() =~= list);
}

/// Of the letters only the capital ones are changed, and into the small one at
/// the same place of the alphabet.
pub proof fn capitals_are_made_small(c: char)
    ensures
        'A' <= c <= 'Z' ==> small_char(c) as int - 'a' as int == c as int - 'A' as int,
        !('A' <= c <= 'Z') ==> small_char(c) == c,
{
}

/// A status says in words whether the process ended well, which signal ended
/// it, or with which code it ended.
pub proof fn status_is_put_in_words(status: ExitStatusView)
    ensures
        match (status.signal, status.code) {
            (Some(name), _) => status_text(status) == "Terminated by "@ + name && !is_success(
                status,
            ),
            (None, 0) => status_text(status) == "Success"@ && is_success(status),
            (None, code) => status_text(status) == "Exited with code "@ + decimal(code as nat)
                && !is_success(status),
        },
{
}

/// What a wait reports is what the status holds: the code, with its bits taken
/// as those of an unsigned number; without one, zero only for a success that
/// no signal ended; and the name of the signal, or its number where it has
/// none.
pub proof fn status_is_what_was_reported(wait: WaitStatus)
    ensures
        match wait.code {
            Some(code) => (status_of(wait).code - code) % 0x1_0000_0000 == 0,
            None => status_of(wait).code == if wait.success && wait.signal is None {
                0int
            } else {
                1int
            },
        },
        match (wait.signal, wait.signal_name) {
            (None, _) => status_of(wait).signal is None,
            (Some(_), Some(name)) => status_of(wait).signal == Some(lossy_text(name@)),
            (Some(number), None) => status_of(wait).signal == Some(
                "Signal "@ + signed_decimal(number as int),
            ),
        },
{
}

/// The bits of a code are those of the unsigned number that is the same in
/// thirty-two bits.
pub proof fn bits_are_kept(code: i32)
    ensures
        0 <= bits_of(code) < 0x1_0000_0000,
        (bits_of(code) - code) % 0x1_0000_0000 == 0,
{
}

/// What an error says ends in what it carries, and what stands before that
/// tells which kind of error it is.
pub proof fn errors_are_put_in_words(error: ErrorView, text: Seq<char>)
    ensures
        error == ErrorView::CommandNotFound(text) ==> error_text(error) == "command not found: "@
            + text,
        error == ErrorView::NotExecutable(text) ==> error_text(error) == "not executable: "@
            + text,
        error == ErrorView::IsDirectory(text) ==> error_text(error) == "path is a directory: "@
            + text,
        error == ErrorView::PathResolution(text) ==> error_text(error) == text,
        error == ErrorView::Other(text) ==> error_text(error) == text,
        error matches ErrorView::Io(io) ==> error_text(error) == io.message,
        error is WriterAlreadyTaken ==> error_text(error) == "writer already taken"@,
        error is InvalidUtf8 ==> error_text(error) == "argument is not valid UTF-8"@,
{
}

/// An error of Windows is told by the eight hexadecimal digits of its code.
pub proof fn windows_errors_are_told_by_code(code: i32)
    ensures
        ({
            let text = error_text(ErrorView::Hresult(code));
            let front = "windows error: HRESULT 0x"@;
            let digits = text.skip(front.len() as int);
            &&& text.take(front.len() as int) == front
            &&& digits.len() == 8
            &&& (number_of(digits, 16) - code) % 0x1_0000_0000 == 0
            &&& 0 <= number_of(digits, 16) < 0x1_0000_0000
        }),
{
    let text = error_text(ErrorView::Hresult(code));
    let front = "windows error: HRESULT 0x"@;
    let digits = hexadecimal(bits_of(code), 8);
    hexadecimal_reads_back(bits_of(code), 8);
    assert(power_of_sixteen(8) == 0x1_0000_0000) by {
        reveal_with_fuel(power_of_sixteen, 9);
    }
    assert(text.take(front.len() as int) =~= front);
    assert(text.skip(front.len() as int) =~= digits);
}

/// The kernel is told rows, columns and pixels for what they are.
pub proof fn sizes_are_taken_by_name(size: PtySize, winsize: WinSize)
    ensures
        winsize_of(size).ws_row == size.rows,
        winsize_of(size).ws_col == size.cols,
        winsize_of(size).ws_xpixel == size.pixel_width,
        winsize_of(size).ws_ypixel == size.pixel_height,
        size_of_winsize(winsize).rows == winsize.ws_row,
        size_of_winsize(winsize).cols == winsize.ws_col,
        size_of_winsize(winsize).pixel_width == winsize.ws_xpixel,
        size_of_winsize(winsize).pixel_height == winsize.ws_ypixel,
{
}

/// Where an unsigned number is taken as a signed one, its bits stay.
pub proof fn bits_stay_when_signed(n: u16, pid: u32)
    ensures
        -0x8000 <= signed_of(n) < 0x8000,
        (signed_of(n) - n) % 0x10000 == 0,
        -0x8000_0000 <= signed_pid(pid) < 0x8000_0000,
        (signed_pid(pid) - pid) % 0x1_0000_0000 == 0,
{
}

/// As long as no writer was given, each request is answered by whether one
/// could be made.
pub proof fn writer_is_given_when_made(made: Seq<bool>, i: int)
    requires
        0 <= i < made.len(),
        forall|j: int| 0 <= j < i ==> !(#[trigger] made[j]),
    ensures
        writer_answers(false, made).len() == made.len(),
        writer_answers(false, made)[i] == if made[i] {
            WriterAnswer::Given
        } else {
            WriterAnswer::Failed
        },
    decreases made.len(),
{
    let rest = made.drop_first();
    crate::pty::writer_is_refused_once_given(false, made, i);
    if i > 0 {
        assert(!made[0]);
        assert forall|j: int| 0 <= j < i - 1 implies !(#[trigger] rest[j]) by {
            assert(!made[j + 1]);
        }
        writer_is_given_when_made(rest, i - 1);
        assert(writer_answers(false, made)[i] == writer_answers(false, rest)[i - 1]);
    }
}

/// Lists and pairs are viewed item by item.
pub proof fn lists_are_viewed_item_by_item(
    strings: Seq<OsString>,
    pairs: Seq<(OsString, OsString)>,
    values: Seq<RegistryValue>,
    lines: Seq<String>,
    fds: Seq<i32>,
    i: int,
)
    ensures
        os_views(strings).len() == strings.len(),
        0 <= i < strings.len() ==> os_views(strings)[i] == strings[i]@,
        os_pairs(pairs).len() == pairs.len(),
        0 <= i < pairs.len() ==> os_pairs(pairs)[i] == (pairs[i].0@, pairs[i].1@),
        registry_views(values).len() == values.len(),
        0 <= i < values.len() ==> registry_views(values)[i].name == values[i].name@,
        0 <= i < values.len() ==> match values[i].value {
            Some(value) => registry_views(values)[i].value == Some(value@),
            None => registry_views(values)[i].value is None,
        },
        texts(lines).len() == lines.len(),
        0 <= i < lines.len() ==> texts(lines)[i] == lines[i]@,
        fd_values(fds).len() == fds.len(),
        0 <= i < fds.len() ==> fd_values(fds)[i] == fds[i],
{
}

/// Errors and results are viewed as what they are.
pub proof fn results_are_viewed_as_they_are(
    error: Error,
    read: Result<usize, IoError>,
    sent: Result<(), IoError>,
)
    ensures
        match error {
            Error::Io(io) => error@ == ErrorView::Io(io@),
            Error::WriterAlreadyTaken => error@ == ErrorView::WriterAlreadyTaken,
            Error::CommandNotFound(text) => error@ == ErrorView::CommandNotFound(text@),
            Error::NotExecutable(text) => error@ == ErrorView::NotExecutable(text@),
            Error::IsDirectory(text) => error@ == ErrorView::IsDirectory(text@),
            Error::PathResolution(text) => error@ == ErrorView::PathResolution(text@),
            Error::InvalidUtf8 => error@ == ErrorView::InvalidUtf8,
            Error::Hresult(code) => error@ == ErrorView::Hresult(code),
            Error::Other(text) => error@ == ErrorView::Other(text@),
        },
        error matches Error::Io(io) ==> io@.kind == io.kind && io@.raw_os_error == io.raw_os_error
            && io@.message == io.message@,
        match read {
            Ok(size) => read_view(read) == Ok::<usize, IoErrorView>(size),
            Err(io) => read_view(read) == Err::<usize, IoErrorView>(io@),
        },
        match sent {
            Ok(_) => result_view(sent) == Ok::<(), IoErrorView>(()),
            Err(io) => result_view(sent) == Err::<(), IoErrorView>(io@),
        },
{
}

} // verus!

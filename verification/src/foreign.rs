//! Calls into the standard library and into other crates whose contracts are
//! taken on trust.
use vstd::prelude::*;
use vstd::utf8::{decode_utf8, is_ascii_chars, valid_utf8};

use crate::shell::quoted_line;
use crate::text::{small_text, texts};

verus! {

/// The error number of a failed transfer, which Linux gives on the master side
/// of a pty when no slave is open any more.
pub const EIO: i32 = 5;

/// The error number of a buffer that is too small.
pub const ERANGE: i32 = 34;

/// The flag of a file descriptor that is closed when a program is run.
pub const FD_CLOEXEC: i32 = 1;

/// What `String::from_utf8_lossy` makes of a byte string.
pub uninterp spec fn lossy_text(bytes: Seq<u8>) -> Seq<char>;

/// What `str::to_lowercase` makes of a text.
pub uninterp spec fn lowercase_text(text: Seq<char>) -> Seq<char>;

/// How `nix::errno::Errno` displays the error number `code`.
pub uninterp spec fn errno_text(code: i32) -> Seq<char>;

/// `std::str::from_utf8`: the text that the bytes encode, exactly when they
/// are well-formed UTF-8.
#[verifier::external_body]
pub(crate) fn utf8_text(bytes: &[u8]) -> (r: Option<&str>)
    ensures
        r is Some <==> valid_utf8(bytes@),
        r is Some ==> r->0@ == decode_utf8(bytes@),
{
    std::str::from_utf8(bytes).ok()
}

/// `String::from_utf8_lossy`: the text that the bytes encode where they are
/// well-formed UTF-8.  What stands in for ill-formed parts is only named.
#[verifier::external_body]
pub(crate) fn lossy(bytes: &[u8]) -> (r: String)
    ensures
        r@ == lossy_text(bytes@),
        valid_utf8(bytes@) ==> r@ == decode_utf8(bytes@),
{
    String::from_utf8_lossy(bytes).into_owned()
}

/// `str::to_lowercase`: the lower case of the text, by Unicode's tables, which
/// do not depend on a locale.  Of ASCII text that is the text with its capital
/// letters made small.
#[verifier::external_body]
pub(crate) fn lowercase(text: &str) -> (r: String)
    ensures
        r@ == lowercase_text(text@),
        is_ascii_chars(text@) ==> r@ == small_text(text@),
{
    text.to_lowercase()
}

/// `nix::errno::Errno::from_raw` and its `Display`: the name of an error
/// number with its description, taken from the fixed table of the platform
/// that the library is built for.
#[verifier::external_body]
pub(crate) fn describe_errno(code: i32) -> (r: String)
    ensures
        r@ == errno_text(code),
{
    format!("{:#}", nix::errno::Errno::from_raw(code))
}

/// `libc::EIO`, which is 5 on the platforms that the library is for: Linux,
/// macOS and the BSDs.
#[verifier::external_body]
pub(crate) fn eio() -> (r: i32)
    ensures
        r == EIO,
{
    libc::EIO
}

/// `libc::ERANGE`, which is 34 on the platforms that the library is for: Linux,
/// macOS and the BSDs.
#[verifier::external_body]
pub(crate) fn erange() -> (r: i32)
    ensures
        r == ERANGE,
{
    libc::ERANGE
}

/// `libc::FD_CLOEXEC`, which is 1 on the platforms that the library is for:
/// Linux, macOS and the BSDs.
#[verifier::external_body]
pub(crate) fn fd_cloexec() -> (r: i32)
    ensures
        r == FD_CLOEXEC,
{
    libc::FD_CLOEXEC
}

/// `shell_words::join`: each word as it stands when it is not empty and holds
/// no character that is special to a shell, otherwise between single quotes
/// with every single quote inside replaced by `'\''`; one space between words.
#[verifier::external_body]
pub(crate) fn join_words(words: &Vec<String>) -> (r: String)
    ensures
        r@ == quoted_line(texts(words@)),
{
    shell_words::join(words)
}

} // verus!

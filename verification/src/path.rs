//! Paths and search paths of Unix.
use vstd::prelude::*;

use crate::os_string::{os_views, OsString};

verus! {

/// The separator of path components.
pub const SLASH: u8 = 47;

/// The separator of the entries of a search path.
pub const COLON: u8 = 58;

/// The full stop.
pub const DOT: u8 = 46;

/// Whether a path starts at the root.
pub open spec fn is_absolute_path(path: Seq<u8>) -> bool {
    path.len() > 0 && path[0] == SLASH
}

/// A path taken from a directory: an absolute path stands for itself, any
/// other is put behind the directory and a separator.
pub open spec fn joined_path(dir: Seq<u8>, path: Seq<u8>) -> Seq<u8> {
    if is_absolute_path(path) {
        path
    } else if dir.len() > 0 && dir.last() != SLASH {
        dir.push(SLASH) + path
    } else {
        dir + path
    }
}

/// Whether the first component of a path is `component`, which holds no
/// separator.
pub open spec fn starts_with_component(path: Seq<u8>, component: Seq<u8>) -> bool {
    &&& path.len() >= component.len()
    &&& path.take(component.len() as int) =~= component
    &&& path.len() == component.len() || path[component.len() as int] == SLASH
}

/// Whether a path starts with `.` or `..`.
pub open spec fn is_cwd_relative(path: Seq<u8>) -> bool {
    starts_with_component(path, seq![DOT]) || starts_with_component(path, seq![DOT, DOT])
}

/// The parts of a byte string between occurrences of `mark`; there is always
/// one more of them than marks.
pub open spec fn split_at_mark(bytes: Seq<u8>, mark: u8) -> Seq<Seq<u8>>
    decreases bytes.len(),
{
    if bytes.len() == 0 {
        seq![seq![]]
    } else {
        let before = split_at_mark(bytes.drop_last(), mark);
        if bytes.last() == mark {
            before.push(seq![])
        } else {
            before.drop_last().push(before.last().push(bytes.last()))
        }
    }
}

/// What stands behind the last separator of a path.
pub open spec fn last_component(path: Seq<u8>) -> Seq<u8> {
    split_at_mark(path, SLASH).last()
}

/// There is always a last part.
proof fn lemma_split_not_empty(bytes: Seq<u8>, mark: u8)
    ensures
        split_at_mark(bytes, mark).len() > 0,
    decreases bytes.len(),
{
    if bytes.len() > 0 {
        lemma_split_not_empty(bytes.drop_last(), mark);
    }
}

/// Putting the parts back together with the mark in between gives the whole.
pub open spec fn with_marks(parts: Seq<Seq<u8>>, mark: u8) -> Seq<u8>
    decreases parts.len(),
{
    if parts.len() == 0 {
        seq![]
    } else if parts.len() == 1 {
        parts[0]
    } else {
        with_marks(parts.drop_last(), mark).push(mark) + parts.last()
    }
}

/// Splitting loses nothing, and no part holds the mark.
pub proof fn split_is_exact(bytes: Seq<u8>, mark: u8)
    ensures
        with_marks(split_at_mark(bytes, mark), mark) == bytes,
        forall|i: int|
            0 <= i < split_at_mark(bytes, mark).len() ==> !(#[trigger] split_at_mark(
                bytes,
                mark,
            )[i]).contains(mark),
    decreases bytes.len(),
{
    let parts = split_at_mark(bytes, mark);
    if bytes.len() > 0 {
        let before = split_at_mark(bytes.drop_last(), mark);
        split_is_exact(bytes.drop_last(), mark);
        lemma_split_not_empty(bytes.drop_last(), mark);
        assert(bytes =~= bytes.drop_last().push(bytes.last()));
        if bytes.last() == mark {
            assert(parts.drop_last() =~= before);
            assert(with_marks(parts, mark) =~= bytes);
            assert forall|i: int| 0 <= i < parts.len() implies !(#[trigger] parts[i]).contains(
                mark,
            ) by {
                if i < before.len() {
                    assert(parts[i] == before[i]);
                }
            }
        } else {
            assert(parts.drop_last() =~= before.drop_last());
            assert(parts.last() =~= before.last().push(bytes.last()));
            assert(with_marks(parts, mark) =~= bytes);
            assert forall|i: int| 0 <= i < parts.len() implies !(#[trigger] parts[i]).contains(
                mark,
            ) by {
                assert(!before[i].contains(mark));
                if i < parts.len() - 1 {
                    assert(parts[i] == before[i]);
                } else if parts[i].contains(mark) {
                    let k = parts[i].index_of(mark);
                    assert(parts[i][k] == mark);
                    assert(before[i][k] == mark);
                }
            }
        }
    } else {
        assert(with_marks(parts, mark) =~= bytes);
    }
}

/// Whether a path starts at the root.
pub fn is_absolute(path: &OsString) -> (r: bool)
    ensures
        r == is_absolute_path(path@),
{
    let bytes = path.as_bytes();
    bytes.len() > 0 && bytes[0] == SLASH
}

/// Takes a path from a directory.
pub fn join_path(dir: &OsString, path: &OsString) -> (r: OsString)
    ensures
        r@ == joined_path(dir@, path@),
{
    if is_absolute(path) {
        return path.clone();
    }
    let mut out = dir.clone();
    let bytes = dir.as_bytes();
    if bytes.len() > 0 && bytes[bytes.len() - 1] != SLASH {
        out.push_byte(SLASH);
    }
    out.push(path);
    out
}

/// Whether a path is meant relative to the current directory: its first
/// component is `.` or `..`.
pub fn is_cwd_relative_path(path: &OsString) -> (r: bool)
    ensures
        r == is_cwd_relative(path@),
{
    let bytes = path.as_bytes();
    assert(seq![DOT][0] == DOT);
    assert(seq![DOT, DOT][0] == DOT && seq![DOT, DOT][1] == DOT);
    if bytes.len() == 0 || bytes[0] != DOT {
        return false;
    }
    if bytes.len() == 1 || bytes[1] == SLASH {
        return true;
    }
    bytes[1] == DOT && (bytes.len() == 2 || bytes[2] == SLASH)
}

/// The parts of a string between occurrences of `mark`.
fn split_parts(whole: &OsString, mark: u8) -> (r: Vec<OsString>)
    ensures
        os_views(r@) == split_at_mark(whole@, mark),
        r@.len() > 0,
{
    let bytes = whole.as_bytes();
    let mut parts: Vec<OsString> = Vec::new();
    let mut part: Vec<u8> = Vec::new();
    assert(os_views(parts@).push(part@) =~= split_at_mark(whole@.take(0), mark));
    for i in 0..bytes.len()
        invariant
            bytes@ == whole@,
            os_views(parts@).push(part@) == split_at_mark(whole@.take(i as int), mark),
    {
        let ghost before = split_at_mark(whole@.take(i as int), mark);
        let ghost parts_before = parts@;
        let ghost part_before = part@;
        assert(whole@.take(i + 1).drop_last() =~= whole@.take(i as int));
        assert(before.drop_last() =~= os_views(parts_before));
        assert(before.last() == part_before);
        if bytes[i] == mark {
            parts.push(OsString::from_bytes(part));
            part = Vec::new();
            assert(os_views(parts@) =~= before);
            assert(part@ =~= seq![]);
        } else {
            part.push(bytes[i]);
        }
        assert(os_views(parts@).push(part@) =~= split_at_mark(whole@.take(i + 1), mark));
    }
    assert(whole@.take(whole@.len() as int) =~= whole@);
    let ghost parts_before = parts@;
    let ghost part_before = part@;
    parts.push(OsString::from_bytes(part));
    assert(os_views(parts@) =~= os_views(parts_before).push(part_before));
    parts
}

/// The directories of a Unix search path.
pub fn split_paths(search_path: &OsString) -> (r: Vec<OsString>)
    ensures
        os_views(r@) == split_at_mark(search_path@, COLON),
{
    split_parts(search_path, COLON)
}

/// What stands behind the last separator of a path.
pub fn base_name(path: &OsString) -> (r: OsString)
    ensures
        r@ == last_component(path@),
{
    let parts = split_parts(path, SLASH);
    assert(os_views(parts@).last() == parts@.last()@);
    parts[parts.len() - 1].clone()
}

/// How often a mark occurs in a byte string.
pub open spec fn marks_in(bytes: Seq<u8>, mark: u8) -> nat
    decreases bytes.len(),
{
    if bytes.len() == 0 {
        0
    } else if bytes.last() == mark {
        marks_in(bytes.drop_last(), mark) + 1
    } else {
        marks_in(bytes.drop_last(), mark)
    }
}

/// Whether the bytes from `start` to `end` stand between two marks that follow
/// each other, or between a mark and an end of the whole.
pub open spec fn is_part(bytes: Seq<u8>, mark: u8, start: int, end: int) -> bool {
    &&& 0 <= start <= end <= bytes.len()
    &&& start == 0 || bytes[start - 1] == mark
    &&& end == bytes.len() || bytes[end] == mark
    &&& forall|i: int| start <= i < end ==> #[trigger] bytes[i] != mark
}

/// Up to a later place there are more marks exactly where there is one in
/// between.
pub(crate) proof fn lemma_marks_between(bytes: Seq<u8>, mark: u8, i: int, j: int)
    requires
        0 <= i <= j <= bytes.len(),
    ensures
        marks_in(bytes.take(i), mark) <= marks_in(bytes.take(j), mark),
        (forall|k: int| i <= k < j ==> #[trigger] bytes[k] != mark) ==> marks_in(
            bytes.take(i),
            mark,
        ) == marks_in(bytes.take(j), mark),
        (exists|k: int| i <= k < j && #[trigger] bytes[k] == mark) ==> marks_in(
            bytes.take(i),
            mark,
        ) < marks_in(bytes.take(j), mark),
    decreases j - i,
{
    if i < j {
        lemma_marks_between(bytes, mark, i, j - 1);
        assert(bytes.take(j).drop_last() =~= bytes.take(j - 1));
        assert(bytes.take(j).last() == bytes[j - 1]);
    }
}

/// There is one part more than there are marks.
pub proof fn split_counts_the_marks(bytes: Seq<u8>, mark: u8)
    ensures
        split_at_mark(bytes, mark).len() == marks_in(bytes, mark) + 1,
    decreases bytes.len(),
{
    if bytes.len() > 0 {
        split_counts_the_marks(bytes.drop_last(), mark);
    }
}

/// Splitting gives the bytes between marks, in the order in which they stand.
pub proof fn split_gives_the_part(bytes: Seq<u8>, mark: u8, start: int, end: int)
    requires
        is_part(bytes, mark, start, end),
    ensures
        marks_in(bytes.take(start), mark) < split_at_mark(bytes, mark).len(),
        split_at_mark(bytes, mark)[marks_in(bytes.take(start), mark) as int] == bytes.subrange(
            start,
            end,
        ),
    decreases bytes.len(),
{
    let place = marks_in(bytes.take(start), mark);
    split_counts_the_marks(bytes, mark);
    assert(bytes.take(bytes.len() as int) =~= bytes);
    lemma_marks_between(bytes, mark, start, bytes.len() as int);
    if bytes.len() > 0 {
        let front = bytes.drop_last();
        let before = split_at_mark(front, mark);
        split_counts_the_marks(front, mark);
        assert(front.take(front.len() as int) =~= front);
        if end < bytes.len() {
            assert(bytes[end] == mark);
            assert(front.take(start) =~= bytes.take(start));
            assert(is_part(front, mark, start, end)) by {
                assert forall|i: int| start <= i < end implies #[trigger] front[i] != mark by {
                    assert(bytes[i] != mark);
                }
                if start > 0 {
                    assert(front[start - 1] == bytes[start - 1]);
                }
                if end < front.len() {
                    assert(front[end] == bytes[end]);
                }
            }
            split_gives_the_part(front, mark, start, end);
            assert(front.subrange(start, end) =~= bytes.subrange(start, end));
            if bytes.last() != mark {
                assert(end < front.len());
                assert(front[end] == mark);
                lemma_marks_between(front, mark, start, front.len() as int);
            }
        } else if start == bytes.len() {
            assert(bytes.subrange(start, end) =~= seq![]);
        } else {
            assert(bytes[end - 1] != mark);
            assert(front.take(start) =~= bytes.take(start));
            assert(is_part(front, mark, start, end - 1)) by {
                assert forall|i: int| start <= i < end - 1 implies #[trigger] front[i] != mark by {
                    assert(bytes[i] != mark);
                }
                if start > 0 {
                    assert(front[start - 1] == bytes[start - 1]);
                }
            }
            split_gives_the_part(front, mark, start, end - 1);
            lemma_marks_between(front, mark, start, front.len() as int);
            assert(place == before.len() - 1);
            assert(front.subrange(start, end - 1).push(bytes.last()) =~= bytes.subrange(
                start,
                end,
            ));
        }
    } else {
        assert(bytes.subrange(start, end) =~= seq![]);
    }
}

/// Every part that splitting gives stands between marks.
pub proof fn split_gives_only_parts(bytes: Seq<u8>, mark: u8, i: int)
    requires
        0 <= i < split_at_mark(bytes, mark).len(),
    ensures
        exists|start: int, end: int| #[trigger]
            is_part(bytes, mark, start, end) && marks_in(bytes.take(start), mark) == i
                && split_at_mark(bytes, mark)[i] == bytes.subrange(start, end),
    decreases bytes.len(),
{
    split_counts_the_marks(bytes, mark);
    assert(bytes.take(bytes.len() as int) =~= bytes);
    if bytes.len() == 0 {
        assert(is_part(bytes, mark, 0, 0));
        split_gives_the_part(bytes, mark, 0, 0);
    } else {
        let front = bytes.drop_last();
        let before = split_at_mark(front, mark);
        split_counts_the_marks(front, mark);
        assert(front.take(front.len() as int) =~= front);
        if i == before.len() {
            let len = bytes.len() as int;
            assert(is_part(bytes, mark, len, len));
            split_gives_the_part(bytes, mark, len, len);
        } else {
            split_gives_only_parts(front, mark, i);
            let (start, end) = choose|start: int, end: int| #[trigger]
                is_part(front, mark, start, end) && marks_in(front.take(start), mark) == i
                    && before[i] == front.subrange(start, end);
            assert(front.take(start) =~= bytes.take(start));
            lemma_marks_between(front, mark, start, front.len() as int);
            let stop = if bytes.last() != mark && end == front.len() {
                end + 1
            } else {
                end
            };
            assert(is_part(bytes, mark, start, stop)) by {
                assert forall|k: int| start <= k < stop implies #[trigger] bytes[k] != mark by {
                    if k < front.len() {
                        assert(front[k] != mark);
                    }
                }
                if start > 0 {
                    assert(front[start - 1] == bytes[start - 1]);
                }
                if end < front.len() {
                    assert(front[end] == bytes[end]);
                }
            }
            split_gives_the_part(bytes, mark, start, stop);
        }
    }
}

/// A path taken from a directory: one that starts with a separator stands for
/// itself, any other is put behind the directory, with a separator in between
/// where the directory has none at its end.
pub open spec fn taken_from(dir: Seq<u8>, path: Seq<u8>) -> Seq<u8> {
    if path.len() > 0 && path[0] == 47 {
        path
    } else if dir.len() > 0 && dir[dir.len() - 1] != 47 {
        dir + seq![47u8] + path
    } else {
        dir + path
    }
}

/// Whether a path begins with one dot or two, as a component of its own.
pub open spec fn begins_with_dots(path: Seq<u8>) -> bool {
    &&& path.len() > 0 && path[0] == 46
    &&& path.len() == 1 || path[1] == 47 || (path[1] == 46 && (path.len() == 2 || path[2] == 47))
}

/// How paths are joined, and which of them are taken from the current
/// directory, byte by byte.
pub proof fn paths_are_told_by_their_bytes(dir: Seq<u8>, path: Seq<u8>)
    ensures
        joined_path(dir, path) == taken_from(dir, path),
        is_absolute_path(path) <==> path.len() > 0 && path[0] == 47,
        is_cwd_relative(path) <==> begins_with_dots(path),
{
    assert(joined_path(dir, path) =~= taken_from(dir, path));
    if path.len() >= 1 {
        assert(path.take(1)[0] == path[0]);
        assert(path[0] == 46 ==> path.take(1) =~= seq![46u8]);
    }
    if path.len() >= 2 {
        assert(path.take(2)[0] == path[0]);
        assert(path.take(2)[1] == path[1]);
        assert(path[0] == 46 && path[1] == 46 ==> path.take(2) =~= seq![46u8, 46u8]);
    }
}

} // verus!

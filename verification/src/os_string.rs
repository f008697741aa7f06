//! Strings of the operating system: file names, arguments, environment
//! variables.
use vstd::prelude::*;
use vstd::utf8::{decode_utf8, encode_utf8, valid_utf8};

use crate::foreign::{lossy, lossy_text, utf8_text};

verus! {

/// A string as the operating system holds it, in its encoded form: on Unix any
/// bytes, on Windows the generalised UTF-8 of a sequence of 16-bit units.
#[derive(Debug)]
pub struct OsString {
    bytes: Vec<u8>,
}

impl View for OsString {
    type V = Seq<u8>;

    closed spec fn view(&self) -> Seq<u8> {
        self.bytes@
    }
}

/// Whether `a` comes before `b` in the order that compares byte by byte.
pub open spec fn bytes_less(a: Seq<u8>, b: Seq<u8>) -> bool
    decreases a.len(),
{
    if b.len() == 0 {
        false
    } else if a.len() == 0 {
        true
    } else if a[0] != b[0] {
        a[0] < b[0]
    } else {
        bytes_less(a.drop_first(), b.drop_first())
    }
}

/// The contents of each string of a list.
pub open spec fn os_views(list: Seq<OsString>) -> Seq<Seq<u8>> {
    list.map_values(|s: OsString| s@)
}

/// The contents of pairs of strings.
pub open spec fn os_pairs(list: Seq<(OsString, OsString)>) -> Seq<(Seq<u8>, Seq<u8>)> {
    list.map_values(|pair: (OsString, OsString)| (pair.0@, pair.1@))
}

/// No byte string comes before itself.
pub proof fn bytes_less_irreflexive(a: Seq<u8>)
    ensures
        !bytes_less(a, a),
    decreases a.len(),
{
    if a.len() > 0 {
        bytes_less_irreflexive(a.drop_first());
    }
}

/// The order on byte strings is transitive.
pub proof fn bytes_less_transitive(a: Seq<u8>, b: Seq<u8>, c: Seq<u8>)
    requires
        bytes_less(a, b),
        bytes_less(b, c),
    ensures
        bytes_less(a, c),
    decreases a.len(),
{
    if a.len() > 0 && a[0] == b[0] && b[0] == c[0] {
        bytes_less_transitive(a.drop_first(), b.drop_first(), c.drop_first());
    }
}

/// Of two different byte strings one comes before the other.
pub proof fn bytes_less_total(a: Seq<u8>, b: Seq<u8>)
    ensures
        a == b || bytes_less(a, b) || bytes_less(b, a),
    decreases a.len(),
{
    if a.len() > 0 && b.len() > 0 {
        if a[0] == b[0] {
            bytes_less_total(a.drop_first(), b.drop_first());
            if a.drop_first() == b.drop_first() {
                assert(a =~= seq![a[0]] + a.drop_first());
                assert(b =~= seq![b[0]] + b.drop_first());
            }
        }
    } else if a.len() == 0 && b.len() == 0 {
        assert(a =~= b);
    }
}

/// One byte string comes before another exactly where it is the shorter start
/// of it, or has the lower byte at the first place at which they differ.
pub proof fn bytes_less_at_first_difference(a: Seq<u8>, b: Seq<u8>, n: int)
    requires
        0 <= n <= a.len(),
        n <= b.len(),
        forall|i: int| 0 <= i < n ==> #[trigger] a[i] == b[i],
        n < a.len() && n < b.len() ==> a[n] != b[n],
    ensures
        bytes_less(a, b) <==> n < b.len() && (n == a.len() || a[n] < b[n]),
    decreases n,
{
    if n > 0 {
        let x = a.drop_first();
        let y = b.drop_first();
        assert(a[0] == b[0]);
        assert forall|i: int| 0 <= i < n - 1 implies #[trigger] x[i] == y[i] by {
            assert(a[i + 1] == b[i + 1]);
        }
        bytes_less_at_first_difference(x, y, n - 1);
    }
}

/// Copies a byte slice.
pub(crate) fn bytes_copy(bytes: &[u8]) -> (r: Vec<u8>)
    ensures
        r@ == bytes@,
{
    let mut out: Vec<u8> = Vec::new();
    for i in 0..bytes.len()
        invariant
            out@ == bytes@.take(i as int),
    {
        out.push(bytes[i]);
        assert(bytes@.take(i + 1) =~= bytes@.take(i as int).push(bytes@[i as int]));
    }
    assert(bytes@.take(bytes@.len() as int) =~= bytes@);
    out
}

/// Whether two byte slices hold the same bytes.
pub(crate) fn bytes_equal(a: &[u8], b: &[u8]) -> (r: bool)
    ensures
        r == (a@ == b@),
{
    if a.len() != b.len() {
        return false;
    }
    for i in 0..a.len()
        invariant
            a@.len() == b@.len(),
            forall|j: int| 0 <= j < i ==> a@[j] == b@[j],
    {
        if a[i] != b[i] {
            return false;
        }
    }
    assert(a@ =~= b@);
    true
}

impl OsString {
    /// The empty string.
    pub fn new() -> (r: Self)
        ensures
            r@ == Seq::<u8>::empty(),
    {
        OsString { bytes: Vec::new() }
    }

    /// The string with the given encoded bytes.
    pub fn from_bytes(bytes: Vec<u8>) -> (r: Self)
        ensures
            r@ == bytes@,
    {
        OsString { bytes }
    }

    /// The string that holds a text.
    pub fn from_text(text: &str) -> (r: Self)
        ensures
            r@ == encode_utf8(text@),
    {
        OsString { bytes: bytes_copy(text.as_bytes()) }
    }

    /// The encoded bytes.
    pub fn as_bytes(&self) -> (r: &[u8])
        ensures
            r@ == self@,
    {
        self.bytes.as_slice()
    }

    /// The number of encoded bytes.
    pub fn len(&self) -> (r: usize)
        ensures
            r == self@.len(),
    {
        self.bytes.len()
    }

    /// Whether the string holds nothing.
    pub fn is_empty(&self) -> (r: bool)
        ensures
            r == (self@.len() == 0),
    {
        self.bytes.len() == 0
    }

    /// Appends another string.
    pub fn push(&mut self, other: &OsString)
        ensures
            final(self)@ == old(self)@ + other@,
    {
        let mut copy = bytes_copy(other.as_bytes());
        self.bytes.append(&mut copy);
    }

    /// Appends one byte.
    pub fn push_byte(&mut self, byte: u8)
        ensures
            final(self)@ == old(self)@.push(byte),
    {
        self.bytes.push(byte);
    }

    /// The text of the string, exactly when it is well-formed UTF-8.
    pub fn to_text(&self) -> (r: Option<String>)
        ensures
            r is Some <==> valid_utf8(self@),
            r is Some ==> r->0@ == decode_utf8(self@),
    {
        match utf8_text(self.bytes.as_slice()) {
            Some(text) => Some(text.to_owned()),
            None => None,
        }
    }

    /// The string as text for a message: what is not UTF-8 is replaced.
    pub fn display(&self) -> (r: String)
        ensures
            r@ == lossy_text(self@),
            valid_utf8(self@) ==> r@ == decode_utf8(self@),
    {
        lossy(self.bytes.as_slice())
    }

    /// Whether this string comes before `other`, compared byte by byte.
    pub fn precedes(&self, other: &OsString) -> (r: bool)
        ensures
            r == bytes_less(self@, other@),
    {
        let mut i: usize = 0;
        assert(self@.skip(0) =~= self@);
        assert(other@.skip(0) =~= other@);
        while i < self.bytes.len() && i < other.bytes.len()
            invariant
                i <= self@.len(),
                i <= other@.len(),
                bytes_less(self@, other@) == bytes_less(
                    self@.skip(i as int),
                    other@.skip(i as int),
                ),
            decreases self@.len() - i,
        {
            let ghost a = self@.skip(i as int);
            let ghost b = other@.skip(i as int);
            if self.bytes[i] != other.bytes[i] {
                assert(a[0] != b[0]);
                return self.bytes[i] < other.bytes[i];
            }
            assert(a[0] == b[0]);
            assert(a.drop_first() =~= self@.skip(i + 1));
            assert(b.drop_first() =~= other@.skip(i + 1));
            i += 1;
        }
        i < other.bytes.len()
    }
}

impl Clone for OsString {
    fn clone(&self) -> (r: Self)
        ensures
            r@ == self@,
    {
        OsString { bytes: bytes_copy(self.bytes.as_slice()) }
    }
}

impl PartialEq for OsString {
    fn eq(&self, other: &OsString) -> (r: bool) {
        bytes_equal(self.bytes.as_slice(), other.bytes.as_slice())
    }
}

impl vstd::std_specs::cmp::PartialEqSpecImpl for OsString {
    open spec fn obeys_eq_spec() -> bool {
        true
    }

    open spec fn eq_spec(&self, other: &OsString) -> bool {
        self@ == other@
    }
}

/// Copies a list of strings.
pub fn copy_list(list: &[OsString]) -> (r: Vec<OsString>)
    ensures
        os_views(r@) == os_views(list@),
{
    let mut out: Vec<OsString> = Vec::new();
    for i in 0..list.len()
        invariant
            os_views(out@) == os_views(list@).take(i as int),
    {
        let ghost before = out@;
        out.push(list[i].clone());
        assert(os_views(out@) =~= os_views(before).push(list@[i as int]@));
        assert(os_views(list@).take(i + 1) =~= os_views(list@).take(i as int).push(
            list@[i as int]@,
        ));
    }
    assert(os_views(list@).take(list@.len() as int) =~= os_views(list@));
    out
}

/// Whether two lists hold the same strings in the same order.
pub fn lists_equal(a: &[OsString], b: &[OsString]) -> (r: bool)
    ensures
        r == (os_views(a@) == os_views(b@)),
{
    if a.len() != b.len() {
        assert(os_views(a@).len() != os_views(b@).len());
        return false;
    }
    for i in 0..a.len()
        invariant
            a@.len() == b@.len(),
            forall|j: int| 0 <= j < i ==> a@[j]@ == b@[j]@,
    {
        if a[i] != b[i] {
            assert(os_views(a@)[i as int] != os_views(b@)[i as int]);
            return false;
        }
    }
    assert(os_views(a@) =~= os_views(b@));
    true
}

} // verus!

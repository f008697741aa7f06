//! Environment variables of a command.
use vstd::prelude::*;
use vstd::utf8::{decode_utf8, encode_utf8, is_ascii_chars, valid_utf8};

use crate::foreign::{lowercase, lowercase_text};
use crate::os_string::{bytes_less, bytes_less_irreflexive, bytes_less_total, bytes_less_transitive,
    OsString};
use crate::text::small_text;

verus! {

/// The operating systems whose conventions the library knows.
#[derive(Debug, Clone, Copy, PartialEq, Eq, Structural)]
pub enum Platform {
    Unix,
    Windows,
}

/// One environment variable.  Windows finds variables without regard to case,
/// so the name as it was given is kept apart from the key it is found by.
#[derive(Debug)]
pub struct EnvEntry {
    /// Whether the variable comes from the base environment, and was not set
    /// on the command.
    pub is_from_base_env: bool,
    /// The name as it was given.
    pub preferred_key: OsString,
    /// The value.
    pub value: OsString,
}

/// What an [`EnvEntry`] holds.
pub struct EnvEntryView {
    pub is_from_base_env: bool,
    pub preferred_key: Seq<u8>,
    pub value: Seq<u8>,
}

impl View for EnvEntry {
    type V = EnvEntryView;

    open spec fn view(&self) -> EnvEntryView {
        EnvEntryView {
            is_from_base_env: self.is_from_base_env,
            preferred_key: self.preferred_key@,
            value: self.value@,
        }
    }
}

/// The key by which a variable is found: on Windows its name in lower case,
/// where the name is well-formed text; otherwise the name itself.
pub open spec fn env_key(platform: Platform, name: Seq<u8>) -> Seq<u8> {
    if platform == Platform::Windows && valid_utf8(name) {
        encode_utf8(lowercase_text(decode_utf8(name)))
    } else {
        name
    }
}

/// What is known of the key of a name in ASCII: on Windows it is the name with
/// its capital letters made small.
pub open spec fn has_plain_key(platform: Platform, name: Seq<u8>) -> bool {
    platform == Platform::Windows && valid_utf8(name) && is_ascii_chars(decode_utf8(name))
        ==> env_key(platform, name) == encode_utf8(small_text(decode_utf8(name)))
}

impl Clone for EnvEntry {
    fn clone(&self) -> (r: Self)
        ensures
            r@ == self@,
    {
        EnvEntry {
            is_from_base_env: self.is_from_base_env,
            preferred_key: self.preferred_key.clone(),
            value: self.value.clone(),
        }
    }
}

impl PartialEq for EnvEntry {
    fn eq(&self, other: &EnvEntry) -> (r: bool) {
        self.is_from_base_env == other.is_from_base_env && self.preferred_key
            == other.preferred_key && self.value == other.value
    }
}

impl vstd::std_specs::cmp::PartialEqSpecImpl for EnvEntry {
    open spec fn obeys_eq_spec() -> bool {
        true
    }

    open spec fn eq_spec(&self, other: &EnvEntry) -> bool {
        self@ == other@
    }
}

impl EnvEntry {
    /// The key by which the variable `name` is found.
    pub fn map_key(platform: Platform, name: &OsString) -> (r: OsString)
        ensures
            r@ == env_key(platform, name@),
            has_plain_key(platform, name@),
    {
        match platform {
            Platform::Windows => match name.to_text() {
                Some(text) => OsString::from_text(lowercase(text.as_str()).as_str()),
                None => name.clone(),
            },
            Platform::Unix => name.clone(),
        }
    }
}

/// Variables with their keys, in a row.
pub type Listing = Seq<(Seq<u8>, EnvEntryView)>;

/// Whether the keys of a listing ascend, so that none occurs twice.
pub open spec fn ascending(listing: Listing) -> bool {
    forall|i: int, j: int|
        0 <= i < j < listing.len() ==> bytes_less(#[trigger] listing[i].0, #[trigger] listing[j].0)
}

/// Whether a key occurs at a place of a listing.
pub open spec fn stands_at(listing: Listing, key: Seq<u8>, i: int) -> bool {
    0 <= i < listing.len() && listing[i].0 == key
}

/// The variables of a listing by their keys.
pub open spec fn by_key(listing: Listing) -> Map<Seq<u8>, EnvEntryView> {
    Map::new(
        |key: Seq<u8>| exists|i: int| stands_at(listing, key, i),
        |key: Seq<u8>| listing[choose|i: int| stands_at(listing, key, i)].1,
    )
}

/// In an ascending listing each place is found by its key.
pub proof fn listing_finds(listing: Listing, i: int)
    requires
        ascending(listing),
        0 <= i < listing.len(),
    ensures
        by_key(listing).contains_key(listing[i].0),
        by_key(listing)[listing[i].0] == listing[i].1,
{
    let key = listing[i].0;
    assert(stands_at(listing, key, i));
    let found = choose|j: int| stands_at(listing, key, j);
    assert(stands_at(listing, key, found));
    bytes_less_irreflexive(key);
    if found < i {
        assert(bytes_less(listing[found].0, listing[i].0));
    } else if i < found {
        assert(bytes_less(listing[i].0, listing[found].0));
    }
}

/// Whether two tables agree on a key.
spec fn same_at(
    a: Map<Seq<u8>, EnvEntryView>,
    b: Map<Seq<u8>, EnvEntryView>,
    key: Seq<u8>,
) -> bool {
    a.contains_key(key) == b.contains_key(key) && (a.contains_key(key) ==> a[key] == b[key])
}

/// Tables that agree on every key are the same.
proof fn lemma_same_map(a: Map<Seq<u8>, EnvEntryView>, b: Map<Seq<u8>, EnvEntryView>)
    requires
        forall|key: Seq<u8>| same_at(a, b, key),
    ensures
        a == b,
{
    assert forall|key: Seq<u8>| a.dom().contains(key) == b.dom().contains(key) by {
        assert(same_at(a, b, key));
    }
    assert forall|key: Seq<u8>| a.dom().contains(key) implies a[key] == b[key] by {
        assert(same_at(a, b, key));
    }
    assert(a =~= b);
}

/// Putting a new key in its place adds one variable.
proof fn lemma_insert(listing: Listing, at: int, key: Seq<u8>, entry: EnvEntryView)
    requires
        ascending(listing),
        0 <= at <= listing.len(),
        forall|i: int| 0 <= i < at ==> bytes_less(#[trigger] listing[i].0, key),
        forall|i: int| at <= i < listing.len() ==> bytes_less(key, #[trigger] listing[i].0),
    ensures
        ascending(listing.insert(at, (key, entry))),
        by_key(listing.insert(at, (key, entry))) == by_key(listing).insert(key, entry),
{
    let after = listing.insert(at, (key, entry));
    assert(ascending(after)) by {
        assert forall|i: int, j: int| 0 <= i < j < after.len() implies bytes_less(
            #[trigger] after[i].0,
            #[trigger] after[j].0,
        ) by {
            let i0 = if i < at { i } else { i - 1 };
            let j0 = if j < at { j } else { j - 1 };
            if i == at {
                assert(after[j] == listing[j0]);
            } else if j == at {
                assert(after[i] == listing[i0]);
            } else {
                assert(after[i] == listing[i0] && after[j] == listing[j0]);
            }
        }
    }
    let want = by_key(listing).insert(key, entry);
    assert forall|k: Seq<u8>| same_at(by_key(after), want, k) by {
        if by_key(after).contains_key(k) {
            let i = choose|i: int| stands_at(after, k, i);
            assert(stands_at(after, k, i));
            listing_finds(after, i);
            if i == at {
            } else {
                let i0 = if i < at { i } else { i - 1 };
                assert(after[i] == listing[i0]);
                listing_finds(listing, i0);
                bytes_less_irreflexive(key);
            }
        }
        if want.contains_key(k) {
            if k == key {
                assert(stands_at(after, k, at));
            } else {
                let i0 = choose|i: int| stands_at(listing, k, i);
                assert(stands_at(listing, k, i0));
                let i = if i0 < at { i0 } else { i0 + 1 };
                assert(after[i] == listing[i0]);
                assert(stands_at(after, k, i));
            }
        }
    }
    lemma_same_map(by_key(after), want);
}

/// Replacing the variable at the place of its key changes that one alone.
proof fn lemma_replace(listing: Listing, at: int, entry: EnvEntryView)
    requires
        ascending(listing),
        0 <= at < listing.len(),
    ensures
        ascending(listing.update(at, (listing[at].0, entry))),
        by_key(listing.update(at, (listing[at].0, entry))) == by_key(listing).insert(
            listing[at].0,
            entry,
        ),
{
    let key = listing[at].0;
    let after = listing.update(at, (key, entry));
    assert(forall|i: int| 0 <= i < after.len() ==> #[trigger] after[i].0 == listing[i].0);
    let want = by_key(listing).insert(key, entry);
    assert forall|k: Seq<u8>| same_at(by_key(after), want, k) by {
        if by_key(after).contains_key(k) {
            let i = choose|i: int| stands_at(after, k, i);
            assert(stands_at(after, k, i));
            listing_finds(after, i);
            listing_finds(listing, i);
            if i != at {
                bytes_less_irreflexive(key);
                if i < at {
                    assert(bytes_less(listing[i].0, listing[at].0));
                } else {
                    assert(bytes_less(listing[at].0, listing[i].0));
                }
            }
        }
        if want.contains_key(k) {
            if k == key {
                assert(stands_at(after, k, at));
            } else {
                let i = choose|i: int| stands_at(listing, k, i);
                assert(stands_at(listing, k, i));
                assert(stands_at(after, k, i));
            }
        }
    }
    lemma_same_map(by_key(after), want);
}

/// Taking out the place of a key takes out that variable alone.
proof fn lemma_remove(listing: Listing, at: int)
    requires
        ascending(listing),
        0 <= at < listing.len(),
    ensures
        ascending(listing.remove(at)),
        by_key(listing.remove(at)) == by_key(listing).remove(listing[at].0),
{
    let key = listing[at].0;
    let after = listing.remove(at);
    assert(ascending(after)) by {
        assert forall|i: int, j: int| 0 <= i < j < after.len() implies bytes_less(
            #[trigger] after[i].0,
            #[trigger] after[j].0,
        ) by {
            let i0 = if i < at { i } else { i + 1 };
            let j0 = if j < at { j } else { j + 1 };
            assert(after[i] == listing[i0] && after[j] == listing[j0]);
        }
    }
    let want = by_key(listing).remove(key);
    assert forall|k: Seq<u8>| same_at(by_key(after), want, k) by {
        if by_key(after).contains_key(k) {
            let i = choose|i: int| stands_at(after, k, i);
            assert(stands_at(after, k, i));
            listing_finds(after, i);
            let i0 = if i < at { i } else { i + 1 };
            assert(after[i] == listing[i0]);
            listing_finds(listing, i0);
            bytes_less_irreflexive(key);
            if i0 < at {
                assert(bytes_less(listing[i0].0, listing[at].0));
            } else {
                assert(bytes_less(listing[at].0, listing[i0].0));
            }
        }
        if want.contains_key(k) {
            let i0 = choose|i: int| stands_at(listing, k, i);
            assert(stands_at(listing, k, i0));
            let i = if i0 < at { i0 } else { i0 - 1 };
            assert(after[i] == listing[i0]);
            assert(stands_at(after, k, i));
        }
    }
    lemma_same_map(by_key(after), want);
}

/// A key that stands nowhere is not found.
proof fn lemma_absent(listing: Listing, at: int, key: Seq<u8>)
    requires
        0 <= at <= listing.len(),
        forall|i: int| 0 <= i < at ==> bytes_less(#[trigger] listing[i].0, key),
        forall|i: int| at <= i < listing.len() ==> bytes_less(key, #[trigger] listing[i].0),
    ensures
        !by_key(listing).contains_key(key),
{
    bytes_less_irreflexive(key);
    if by_key(listing).contains_key(key) {
        let i = choose|i: int| stands_at(listing, key, i);
        assert(stands_at(listing, key, i));
    }
}

/// The order of the listing is settled by what it holds: two ascending
/// listings of the same variables are the same.
pub proof fn listing_is_unique(a: Listing, b: Listing)
    requires
        ascending(a),
        ascending(b),
        by_key(a) == by_key(b),
    ensures
        a == b,
    decreases a.len(),
{
    if a.len() == 0 {
        if b.len() > 0 {
            listing_finds(b, 0);
            let i = choose|i: int| stands_at(a, b[0].0, i);
            assert(stands_at(a, b[0].0, i));
        }
        assert(a =~= b);
    } else if b.len() == 0 {
        listing_finds(a, 0);
        let i = choose|i: int| stands_at(b, a[0].0, i);
        assert(stands_at(b, a[0].0, i));
    } else {
        listing_finds(a, 0);
        listing_finds(b, 0);
        let in_b = choose|i: int| stands_at(b, a[0].0, i);
        let in_a = choose|i: int| stands_at(a, b[0].0, i);
        assert(stands_at(b, a[0].0, in_b));
        assert(stands_at(a, b[0].0, in_a));
        bytes_less_irreflexive(a[0].0);
        if in_b > 0 && in_a > 0 {
            assert(bytes_less(b[0].0, b[in_b].0));
            assert(bytes_less(a[0].0, a[in_a].0));
            bytes_less_transitive(a[0].0, b[0].0, a[0].0);
        }
        assert(a[0].0 == b[0].0);
        assert(a[0] == b[0]);
        lemma_remove(a, 0);
        lemma_remove(b, 0);
        listing_is_unique(a.remove(0), b.remove(0));
        assert(a =~= seq![a[0]] + a.remove(0));
        assert(b =~= seq![b[0]] + b.remove(0));
    }
}

/// A variable in the table, with the key that it is found by.
#[derive(Debug)]
struct EnvSlot {
    key: OsString,
    entry: EnvEntry,
}

/// Environment variables by key, in the order of their keys.
#[derive(Debug)]
pub struct EnvMap {
    slots: Vec<EnvSlot>,
}

/// The listing of slots.
spec fn slots_listing(slots: Seq<EnvSlot>) -> Listing {
    slots.map_values(|slot: EnvSlot| (slot.key@, slot.entry@))
}

impl View for EnvMap {
    type V = Listing;

    closed spec fn view(&self) -> Listing {
        slots_listing(self.slots@)
    }
}

impl EnvMap {
    /// The keys ascend.
    #[verifier::type_invariant]
    pub open spec fn well_formed(self) -> bool {
        ascending(self@)
    }

    /// A table without variables.
    pub fn new() -> (r: Self)
        ensures
            r@ == Seq::<(Seq<u8>, EnvEntryView)>::empty(),
    {
        let slots: Vec<EnvSlot> = Vec::new();
        assert(slots_listing(slots@) =~= Seq::<(Seq<u8>, EnvEntryView)>::empty());
        EnvMap { slots }
    }

    /// The number of variables.
    pub fn len(&self) -> (r: usize)
        ensures
            r == self@.len(),
            ascending(self@),
    {
        proof {
            use_type_invariant(self);
        }
        self.slots.len()
    }

    /// The variable at a place of the listing.
    pub fn entry(&self, i: usize) -> (r: &EnvEntry)
        requires
            i < self@.len(),
        ensures
            r@ == self@[i as int].1,
    {
        &self.slots[i].entry
    }

    /// The place of a key, and whether it stands there; if it does not, the
    /// place where it belongs.
    fn find(&self, key: &OsString) -> (r: (usize, bool))
        ensures
            r.0 <= self@.len(),
            ascending(self@),
            r.1 ==> stands_at(self@, key@, r.0 as int),
            !r.1 ==> {
                &&& forall|i: int| 0 <= i < r.0 ==> bytes_less(#[trigger] self@[i].0, key@)
                &&& forall|i: int|
                    r.0 <= i < self@.len() ==> bytes_less(key@, #[trigger] self@[i].0)
            },
    {
        proof {
            use_type_invariant(self);
        }
        let mut low: usize = 0;
        let mut high: usize = self.slots.len();
        while low < high
            invariant
                low <= high <= self@.len(),
                self@ == slots_listing(self.slots@),
                ascending(self@),
                forall|i: int| 0 <= i < low ==> bytes_less(#[trigger] self@[i].0, key@),
                forall|i: int|
                    high <= i < self@.len() ==> !bytes_less(#[trigger] self@[i].0, key@),
            decreases high - low,
        {
            let middle = low + (high - low) / 2;
            if self.slots[middle].key.precedes(key) {
                assert forall|i: int| 0 <= i < middle + 1 implies bytes_less(
                    #[trigger] self@[i].0,
                    key@,
                ) by {
                    if i < middle {
                        bytes_less_transitive(self@[i].0, self@[middle as int].0, key@);
                    }
                }
                low = middle + 1;
            } else {
                assert forall|i: int| middle <= i < self@.len() implies !bytes_less(
                    #[trigger] self@[i].0,
                    key@,
                ) by {
                    if i > middle && bytes_less(self@[i].0, key@) {
                        bytes_less_transitive(self@[middle as int].0, self@[i].0, key@);
                    }
                }
                high = middle;
            }
        }
        if low < self.slots.len() && self.slots[low].key == *key {
            return (low, true);
        }
        assert forall|i: int| low <= i < self@.len() implies bytes_less(
            key@,
            #[trigger] self@[i].0,
        ) by {
            bytes_less_total(self@[low as int].0, key@);
            if i > low {
                bytes_less_transitive(key@, self@[low as int].0, self@[i].0);
            }
        }
        (low, false)
    }

    /// Sets a variable, in place of the one that had the key before.
    pub fn insert(&mut self, key: OsString, entry: EnvEntry)
        ensures
            ascending(final(self)@),
            by_key(final(self)@) == by_key(old(self)@).insert(key@, entry@),
    {
        let (at, found) = self.find(&key);
        let mut slots: Vec<EnvSlot> = Vec::new();
        std::mem::swap(&mut slots, &mut self.slots);
        let ghost before = slots_listing(slots@);
        let slot = EnvSlot { key, entry };
        if found {
            slots[at] = slot;
            proof {
                lemma_replace(before, at as int, entry@);
                assert(slots_listing(slots@) =~= before.update(at as int, (key@, entry@)));
            }
        } else {
            slots.insert(at, slot);
            proof {
                lemma_insert(before, at as int, key@, entry@);
                assert(slots_listing(slots@) =~= before.insert(at as int, (key@, entry@)));
            }
        }
        self.slots = slots;
    }

    /// Takes out the variable with the key, if there is one.
    pub fn remove(&mut self, key: &OsString)
        ensures
            ascending(final(self)@),
            by_key(final(self)@) == by_key(old(self)@).remove(key@),
    {
        let (at, found) = self.find(key);
        if found {
            let mut slots: Vec<EnvSlot> = Vec::new();
            std::mem::swap(&mut slots, &mut self.slots);
            let ghost before = slots_listing(slots@);
            slots.remove(at);
            proof {
                lemma_remove(before, at as int);
                assert(slots_listing(slots@) =~= before.remove(at as int));
            }
            self.slots = slots;
        } else {
            proof {
                lemma_absent(self@, at as int, key@);
                assert(by_key(self@).remove(key@) =~= by_key(self@));
            }
        }
    }

    /// The variable with the key.
    pub fn get(&self, key: &OsString) -> (r: Option<&EnvEntry>)
        ensures
            r is Some <==> by_key(self@).contains_key(key@),
            r is Some ==> r->0@ == by_key(self@)[key@],
            ascending(self@),
    {
        let (at, found) = self.find(key);
        if found {
            proof {
                listing_finds(self@, at as int);
            }
            Some(&self.slots[at].entry)
        } else {
            proof {
                lemma_absent(self@, at as int, key@);
            }
            None
        }
    }
}

impl Clone for EnvMap {
    fn clone(&self) -> (r: Self)
        ensures
            r@ == self@,
    {
        proof {
            use_type_invariant(self);
        }
        let mut slots: Vec<EnvSlot> = Vec::new();
        for i in 0..self.slots.len()
            invariant
                slots_listing(slots@) == slots_listing(self.slots@).take(i as int),
        {
            let ghost before = slots@;
            let slot = &self.slots[i];
            slots.push(EnvSlot { key: slot.key.clone(), entry: slot.entry.clone() });
            assert(slots_listing(slots@) =~= slots_listing(before).push(
                slots_listing(self.slots@)[i as int],
            ));
            assert(slots_listing(self.slots@).take(i + 1) =~= slots_listing(self.slots@).take(
                i as int,
            ).push(slots_listing(self.slots@)[i as int]));
        }
        assert(slots_listing(self.slots@).take(self.slots@.len() as int) =~= slots_listing(
            self.slots@,
        ));
        EnvMap { slots }
    }
}

impl PartialEq for EnvMap {
    fn eq(&self, other: &EnvMap) -> (r: bool) {
        if self.slots.len() != other.slots.len() {
            assert(self@.len() != other@.len());
            return false;
        }
        for i in 0..self.slots.len()
            invariant
                self@.len() == other@.len(),
                self@ == slots_listing(self.slots@),
                other@ == slots_listing(other.slots@),
                forall|j: int| 0 <= j < i ==> self@[j] == other@[j],
        {
            if self.slots[i].key != other.slots[i].key || self.slots[i].entry
                != other.slots[i].entry {
                assert(self@[i as int] != other@[i as int]);
                return false;
            }
        }
        assert(self@ =~= other@);
        true
    }
}

impl vstd::std_specs::cmp::PartialEqSpecImpl for EnvMap {
    open spec fn obeys_eq_spec() -> bool {
        true
    }

    open spec fn eq_spec(&self, other: &EnvMap) -> bool {
        self@ == other@
    }
}

/// Whether each variable is kept under the key of its own name.
pub open spec fn keys_are_own(platform: Platform, vars: Map<Seq<u8>, EnvEntryView>) -> bool {
    forall|key: Seq<u8>| #[trigger]
        vars.contains_key(key) ==> key == env_key(platform, vars[key].preferred_key)
}

/// Whether a listing is one of an environment: its keys ascend, and each is
/// the key of the name beside it.
pub open spec fn is_kept(platform: Platform, listing: Listing) -> bool {
    ascending(listing) && keys_are_own(platform, by_key(listing))
}

/// The environment variables of a process, each under the key of its own name.
#[derive(Debug)]
pub struct Environment {
    platform: Platform,
    vars: EnvMap,
}

/// What an [`Environment`] holds.
pub struct EnvironmentView {
    pub platform: Platform,
    pub env: Listing,
}

impl View for Environment {
    type V = EnvironmentView;

    closed spec fn view(&self) -> EnvironmentView {
        EnvironmentView { platform: self.platform, env: self.vars@ }
    }
}

/// No key occurs in an empty listing.
proof fn lemma_nothing_listed(platform: Platform)
    ensures
        is_kept(platform, seq![]),
        by_key(seq![]) == Map::<Seq<u8>, EnvEntryView>::empty(),
{
    assert(by_key(seq![]) =~= Map::<Seq<u8>, EnvEntryView>::empty());
}

impl Environment {
    /// Each variable is kept under the key of its own name.
    #[verifier::type_invariant]
    pub open spec fn well_formed(self) -> bool {
        is_kept(self@.platform, self@.env)
    }

    /// An environment without variables.
    pub fn new(platform: Platform) -> (r: Self)
        ensures
            r@.platform == platform,
            r@.env == Seq::<(Seq<u8>, EnvEntryView)>::empty(),
    {
        proof {
            lemma_nothing_listed(platform);
        }
        Environment { platform, vars: EnvMap::new() }
    }

    /// The platform whose conventions hold.
    pub fn platform(&self) -> (r: Platform)
        ensures
            r == self@.platform,
    {
        self.platform
    }

    /// The variables.
    pub fn vars(&self) -> (r: &EnvMap)
        ensures
            r@ == self@.env,
            is_kept(self@.platform, self@.env),
    {
        proof {
            use_type_invariant(self);
        }
        &self.vars
    }

    /// Sets a variable.
    pub fn set(&mut self, entry: EnvEntry)
        ensures
            final(self)@.platform == old(self)@.platform,
            is_kept(final(self)@.platform, final(self)@.env),
            by_key(final(self)@.env) == by_key(old(self)@.env).insert(
                env_key(old(self)@.platform, entry@.preferred_key),
                entry@,
            ),
            has_plain_key(old(self)@.platform, entry@.preferred_key),
    {
        proof {
            use_type_invariant(&*self);
            lemma_nothing_listed(self.platform);
        }
        let key = EnvEntry::map_key(self.platform, &entry.preferred_key);
        let ghost before = by_key(self.vars@);
        let mut vars = EnvMap::new();
        std::mem::swap(&mut vars, &mut self.vars);
        vars.insert(key, entry);
        assert(keys_are_own(self.platform, by_key(vars@))) by {
            assert forall|k: Seq<u8>| #[trigger] by_key(vars@).contains_key(k) implies k == env_key(
                self.platform,
                by_key(vars@)[k].preferred_key,
            ) by {
                if k != key@ {
                    assert(before.contains_key(k));
                }
            }
        }
        self.vars = vars;
    }

    /// Takes a variable out.
    pub fn unset(&mut self, name: &OsString)
        ensures
            final(self)@.platform == old(self)@.platform,
            is_kept(final(self)@.platform, final(self)@.env),
            by_key(final(self)@.env) == by_key(old(self)@.env).remove(
                env_key(old(self)@.platform, name@),
            ),
            has_plain_key(old(self)@.platform, name@),
    {
        proof {
            use_type_invariant(&*self);
            lemma_nothing_listed(self.platform);
        }
        let key = EnvEntry::map_key(self.platform, name);
        let ghost before = by_key(self.vars@);
        let mut vars = EnvMap::new();
        std::mem::swap(&mut vars, &mut self.vars);
        vars.remove(&key);
        assert(keys_are_own(self.platform, by_key(vars@))) by {
            assert forall|k: Seq<u8>| #[trigger] by_key(vars@).contains_key(k) implies k == env_key(
                self.platform,
                by_key(vars@)[k].preferred_key,
            ) by {
                assert(before.contains_key(k));
            }
        }
        self.vars = vars;
    }

    /// The variable that a name stands for.
    pub fn get(&self, name: &OsString) -> (r: Option<&EnvEntry>)
        ensures
            r is Some <==> by_key(self@.env).contains_key(env_key(self@.platform, name@)),
            r is Some ==> r->0@ == by_key(self@.env)[env_key(self@.platform, name@)],
            is_kept(self@.platform, self@.env),
            has_plain_key(self@.platform, name@),
    {
        proof {
            use_type_invariant(self);
        }
        self.vars.get(&EnvEntry::map_key(self.platform, name))
    }
}

impl Clone for Environment {
    fn clone(&self) -> (r: Self)
        ensures
            r@ == self@,
            is_kept(r@.platform, r@.env),
    {
        proof {
            use_type_invariant(self);
        }
        Environment { platform: self.platform, vars: self.vars.clone() }
    }
}

impl PartialEq for Environment {
    fn eq(&self, other: &Environment) -> (r: bool) {
        self.platform == other.platform && self.vars == other.vars
    }
}

impl vstd::std_specs::cmp::PartialEqSpecImpl for Environment {
    open spec fn obeys_eq_spec() -> bool {
        true
    }

    open spec fn eq_spec(&self, other: &Environment) -> bool {
        self@ == other@
    }
}

} // verus!

//! What holds of the environments of commands, over all operations on them.
use vstd::prelude::*;
use vstd::utf8::{decode_utf8, decode_utf8_encode_utf8, encode_utf8, encode_utf8_decode_utf8, encode_utf8_valid_utf8,
    is_ascii_chars, valid_utf8};

use crate::base_env::{all_are_base, is_base, BaseEnvView};
use crate::cmdbuilder::{all_text, argument_texts, copy_of, env_text, env_texts, env_value, fresh,
    fresh_default, removes_env, runs_default_prog, same_command, sets_env, BuilderView};
use crate::env::{ascending, by_key, env_key, has_plain_key, is_kept, listing_finds, stands_at, EnvEntryView, Listing,
    Platform};
use crate::foreign::lowercase_text;
use crate::launch::{listed_pairs, process_env};
use crate::os_string::{bytes_less, bytes_less_irreflexive};
use crate::text::small_text;

verus! {

/// A variable that was set is read back, under every name that stands for it,
/// and no other variable changes.
pub proof fn set_variable_is_read_back(
    before: BuilderView,
    after: BuilderView,
    name: Seq<u8>,
    value: Seq<u8>,
    asked: Seq<u8>,
)
    requires
        sets_env(before, after, name, value),
    ensures
        env_value(after, asked) == if env_key(before.platform, asked) == env_key(
            before.platform,
            name,
        ) {
            Some(value)
        } else {
            env_value(before, asked)
        },
{
}

/// On Windows two names in ASCII that differ only in the case of letters stand
/// for one variable.
pub proof fn names_in_other_case_meet(a: Seq<char>, b: Seq<char>)
    requires
        is_ascii_chars(a),
        is_ascii_chars(b),
        small_text(a) == small_text(b),
        has_plain_key(Platform::Windows, encode_utf8(a)),
        has_plain_key(Platform::Windows, encode_utf8(b)),
    ensures
        env_key(Platform::Windows, encode_utf8(a)) == env_key(Platform::Windows, encode_utf8(b)),
{
    encode_utf8_valid_utf8(a);
    encode_utf8_decode_utf8(a);
    encode_utf8_valid_utf8(b);
    encode_utf8_decode_utf8(b);
}

/// A variable that was taken out is gone, under every name that stands for it,
/// and no other variable changes.
pub proof fn removed_variable_is_gone(
    before: BuilderView,
    after: BuilderView,
    name: Seq<u8>,
    asked: Seq<u8>,
)
    requires
        removes_env(before, after, name),
    ensures
        env_value(after, asked) == if env_key(before.platform, asked) == env_key(
            before.platform,
            name,
        ) {
            None
        } else {
            env_value(before, asked)
        },
{
}

/// After everything was taken out no variable has a value.
pub proof fn cleared_environment_is_empty(builder: BuilderView, asked: Seq<u8>)
    ensures
        env_value(BuilderView { env: seq![], ..builder }, asked) is None,
{
}

/// Whether two names are well-formed text and the same in lower case.
pub open spec fn same_in_lower_case(a: Seq<u8>, b: Seq<u8>) -> bool {
    valid_utf8(a) && valid_utf8(b) && lowercase_text(decode_utf8(a)) == lowercase_text(
        decode_utf8(b),
    )
}

/// On Windows names that are the same in lower case stand for one variable; on
/// Unix each name stands for its own.
pub proof fn names_of_one_variable(platform: Platform, a: Seq<u8>, b: Seq<u8>)
    ensures
        env_key(platform, a) == env_key(platform, b) <==> a == b || platform == Platform::Windows
            && same_in_lower_case(a, b),
{
    if platform == Platform::Windows {
        if valid_utf8(a) {
            encode_utf8_valid_utf8(lowercase_text(decode_utf8(a)));
            encode_utf8_decode_utf8(lowercase_text(decode_utf8(a)));
        }
        if valid_utf8(b) {
            encode_utf8_valid_utf8(lowercase_text(decode_utf8(b)));
            encode_utf8_decode_utf8(lowercase_text(decode_utf8(b)));
        }
    }
}

/// Every variable that a command lists has, under the name that is listed, the
/// value that is listed.
pub proof fn listed_variable_is_read_back(builder: BuilderView, i: int)
    requires
        is_kept(builder.platform, builder.env),
        0 <= i < builder.env.len(),
    ensures
        env_value(builder, builder.env[i].1.preferred_key) == Some(builder.env[i].1.value),
{
    listing_finds(builder.env, i);
}

/// Whether a variable is listed as text.
pub open spec fn is_listed(entry: EnvEntryView, extra_only: bool) -> bool {
    !(extra_only && entry.is_from_base_env) && valid_utf8(entry.preferred_key) && valid_utf8(
        entry.value,
    )
}

/// Name and value of a variable, as text.
pub open spec fn as_text(entry: EnvEntryView) -> (Seq<char>, Seq<char>) {
    (decode_utf8(entry.preferred_key), decode_utf8(entry.value))
}

/// What is listed comes from the places of the listing.
proof fn lemma_texts(listing: Listing, extra_only: bool, pair: (Seq<char>, Seq<char>))
    ensures
        env_texts(listing, extra_only).contains(pair) == exists|i: int|
            0 <= i < listing.len() && is_listed((#[trigger] listing[i]).1, extra_only) && as_text(
                listing[i].1,
            ) == pair,
    decreases listing.len(),
{
    if listing.len() > 0 {
        let front = listing.drop_last();
        let before = env_texts(front, extra_only);
        let all = env_texts(listing, extra_only);
        let last = listing.len() - 1;
        lemma_texts(front, extra_only, pair);
        if all.contains(pair) {
            let k = all.index_of(pair);
            if k < before.len() {
                assert(before[k] == pair);
                let i = choose|i: int|
                    0 <= i < front.len() && is_listed((#[trigger] front[i]).1, extra_only)
                        && as_text(front[i].1) == pair;
                assert(listing[i] == front[i]);
            } else {
                assert(is_listed(listing[last].1, extra_only));
            }
        }
        if exists|i: int|
            0 <= i < listing.len() && is_listed((#[trigger] listing[i]).1, extra_only) && as_text(
                listing[i].1,
            ) == pair {
            let i = choose|i: int|
                0 <= i < listing.len() && is_listed((#[trigger] listing[i]).1, extra_only)
                    && as_text(listing[i].1) == pair;
            if i < last {
                assert(front[i] == listing[i]);
                let k = before.index_of(pair);
                assert(all[k] == pair);
            } else {
                assert(all.last() == pair);
            }
        }
    }
}

/// The variables of a command as text are those whose names and values are
/// text, and nothing else; of the extra ones, those that were set on the
/// command.
pub proof fn listed_texts_are_the_variables(
    listing: Listing,
    extra_only: bool,
    pair: (Seq<char>, Seq<char>),
)
    requires
        ascending(listing),
    ensures
        env_texts(listing, extra_only).contains(pair) == exists|key: Seq<u8>|
            by_key(listing).contains_key(key) && is_listed(
                #[trigger] by_key(listing)[key],
                extra_only,
            ) && as_text(by_key(listing)[key]) == pair,
{
    lemma_texts(listing, extra_only, pair);
    if env_texts(listing, extra_only).contains(pair) {
        let i = choose|i: int|
            0 <= i < listing.len() && is_listed((#[trigger] listing[i]).1, extra_only) && as_text(
                listing[i].1,
            ) == pair;
        listing_finds(listing, i);
        assert(by_key(listing)[listing[i].0] == listing[i].1);
    }
    if exists|key: Seq<u8>|
        by_key(listing).contains_key(key) && is_listed(
            #[trigger] by_key(listing)[key],
            extra_only,
        ) && as_text(by_key(listing)[key]) == pair {
        let key = choose|key: Seq<u8>|
            by_key(listing).contains_key(key) && is_listed(
                #[trigger] by_key(listing)[key],
                extra_only,
            ) && as_text(by_key(listing)[key]) == pair;
        let i = choose|i: int| stands_at(listing, key, i);
        assert(stands_at(listing, key, i));
        assert(listing[i].1 == by_key(listing)[key]);
    }
}

/// A new command has no variables of its own: all come from the base
/// environment.
pub proof fn new_command_has_no_extra(
    argv: Seq<Seq<u8>>,
    base: BaseEnvView,
)
    requires
        is_base(base),
    ensures
        env_texts(fresh(argv, base).env, true) == Seq::<(Seq<char>, Seq<char>)>::empty(),
{
    let texts = env_texts(base.env, true);
    if texts.len() > 0 {
        let pair = texts[0];
        assert(texts.contains(pair));
        listed_texts_are_the_variables(base.env, true, pair);
        let key = choose|key: Seq<u8>|
            by_key(base.env).contains_key(key) && is_listed(
                #[trigger] by_key(base.env)[key],
                true,
            ) && as_text(by_key(base.env)[key]) == pair;
        assert(by_key(base.env)[key].is_from_base_env);
    }
    assert(texts =~= Seq::<(Seq<char>, Seq<char>)>::empty());
}

/// The value of a variable of a process, where the later one of two with one
/// name counts.
pub open spec fn seen_by_process(env: Seq<(Seq<u8>, Seq<u8>)>, name: Seq<u8>) -> Option<Seq<u8>>
    decreases env.len(),
{
    if env.len() == 0 {
        None
    } else if env.last().0 == name {
        Some(env.last().1)
    } else {
        seen_by_process(env.drop_last(), name)
    }
}

/// What comes later counts.
proof fn lemma_seen_later(
    first: Seq<(Seq<u8>, Seq<u8>)>,
    later: Seq<(Seq<u8>, Seq<u8>)>,
    name: Seq<u8>,
)
    ensures
        seen_by_process(first + later, name) == match seen_by_process(later, name) {
            Some(value) => Some(value),
            None => seen_by_process(first, name),
        },
    decreases later.len(),
{
    if later.len() == 0 {
        assert(first + later =~= first);
    } else {
        assert((first + later).drop_last() =~= first + later.drop_last());
        lemma_seen_later(first, later.drop_last(), name);
    }
}

/// A variable whose name occurs once is seen.
proof fn lemma_seen_once(env: Seq<(Seq<u8>, Seq<u8>)>, i: int)
    requires
        0 <= i < env.len(),
        forall|j: int| i < j < env.len() ==> (#[trigger] env[j]).0 != env[i].0,
    ensures
        seen_by_process(env, env[i].0) == Some(env[i].1),
    decreases env.len(),
{
    if i < env.len() - 1 {
        assert(env[env.len() - 1].0 != env[i].0);
        lemma_seen_once(env.drop_last(), i);
    }
}

/// A variable whose name does not occur is not seen.
proof fn lemma_not_seen(env: Seq<(Seq<u8>, Seq<u8>)>, name: Seq<u8>)
    requires
        forall|j: int| 0 <= j < env.len() ==> (#[trigger] env[j]).0 != name,
    ensures
        seen_by_process(env, name) is None,
    decreases env.len(),
{
    if env.len() > 0 {
        assert(env[env.len() - 1].0 != name);
        lemma_not_seen(env.drop_last(), name);
    }
}

/// A Unix process sees the variables of its command, and besides them only the
/// shell, where the command names none.
pub proof fn process_sees_the_variables(builder: BuilderView, shell: Seq<char>, name: Seq<u8>)
    requires
        builder.platform == Platform::Unix,
        is_kept(builder.platform, builder.env),
    ensures
        seen_by_process(process_env(builder, shell), name) == match env_value(builder, name) {
            Some(value) => Some(value),
            None => if name == encode_utf8("SHELL"@) {
                Some(encode_utf8(shell))
            } else {
                None
            },
        },
{
    let first = seq![(encode_utf8("SHELL"@), encode_utf8(shell))];
    let listed = listed_pairs(builder.env);
    lemma_seen_later(first, listed, name);
    assert(first.drop_last() =~= seq![]);
    assert(seen_by_process(first.drop_last(), name) is None);
    assert forall|j: int| 0 <= j < listed.len() implies (#[trigger] listed[j]).0
        == builder.env[j].0 by {
        listing_finds(builder.env, j);
    }
    if by_key(builder.env).contains_key(name) {
        let i = choose|i: int| stands_at(builder.env, name, i);
        assert(stands_at(builder.env, name, i));
        listing_finds(builder.env, i);
        assert(listed[i].0 == name);
        assert forall|j: int| i < j < listed.len() implies (#[trigger] listed[j]).0
            != listed[i].0 by {
            assert(bytes_less(builder.env[i].0, builder.env[j].0));
            bytes_less_irreflexive(name);
        }
        lemma_seen_once(listed, i);
    } else {
        assert forall|j: int| 0 <= j < listed.len() implies (#[trigger] listed[j]).0 != name by {
            if listed[j].0 == name {
                assert(stands_at(builder.env, name, j));
            }
        }
        lemma_not_seen(listed, name);
    }
}

/// The places of a listing whose variables are listed as text.
pub open spec fn listed_places(listing: Listing, extra_only: bool) -> Seq<int>
    decreases listing.len(),
{
    if listing.len() == 0 {
        seq![]
    } else {
        let before = listed_places(listing.drop_last(), extra_only);
        if is_listed(listing.last().1, extra_only) {
            before.push(listing.len() - 1)
        } else {
            before
        }
    }
}

/// What is listed as text stands at the places that are listed, each in turn.
proof fn lemma_listed_places(listing: Listing, extra_only: bool)
    ensures
        ({
            let places = listed_places(listing, extra_only);
            let texts = env_texts(listing, extra_only);
            &&& texts.len() == places.len()
            &&& forall|k: int|
                0 <= k < places.len() ==> {
                    &&& 0 <= #[trigger] places[k] < listing.len()
                    &&& is_listed(listing[places[k]].1, extra_only)
                    &&& texts[k] == as_text(listing[places[k]].1)
                }
            &&& forall|j: int, k: int|
                0 <= j < k < places.len() ==> #[trigger] places[j] < #[trigger] places[k]
            &&& forall|i: int|
                0 <= i < listing.len() && is_listed((#[trigger] listing[i]).1, extra_only)
                    ==> places.contains(i)
        }),
    decreases listing.len(),
{
    if listing.len() > 0 {
        let front = listing.drop_last();
        let before = listed_places(front, extra_only);
        let places = listed_places(listing, extra_only);
        let last = listing.len() - 1;
        lemma_listed_places(front, extra_only);
        assert forall|k: int| 0 <= k < places.len() implies {
            &&& 0 <= #[trigger] places[k] < listing.len()
            &&& is_listed(listing[places[k]].1, extra_only)
            &&& env_texts(listing, extra_only)[k] == as_text(listing[places[k]].1)
        } by {
            if k < before.len() {
                assert(places[k] == before[k]);
                assert(listing[places[k]] == front[before[k]]);
            }
        }
        assert forall|i: int|
            0 <= i < listing.len() && is_listed(
                (#[trigger] listing[i]).1,
                extra_only,
            ) implies places.contains(i) by {
            if i < last {
                assert(front[i] == listing[i]);
                let k = before.index_of(i);
                assert(places[k] == i);
            } else {
                assert(places.last() == i);
            }
        }
    }
}

/// The variables of a command as text are listed each once and in the order of
/// their keys: what is listed stands at places of the listing that go up, and
/// every variable that is to be listed stands at one of them.
pub proof fn texts_are_listed_once_in_order(listing: Listing, extra_only: bool)
    requires
        ascending(listing),
    ensures
        ({
            let places = listed_places(listing, extra_only);
            let texts = env_texts(listing, extra_only);
            &&& texts.len() == places.len()
            &&& forall|k: int|
                0 <= k < places.len() ==> {
                    &&& 0 <= #[trigger] places[k] < listing.len()
                    &&& is_listed(listing[places[k]].1, extra_only)
                    &&& texts[k] == as_text(listing[places[k]].1)
                }
            &&& forall|j: int, k: int|
                0 <= j < k < places.len() ==> bytes_less(
                    listing[#[trigger] places[j]].0,
                    listing[#[trigger] places[k]].0,
                )
            &&& forall|i: int|
                0 <= i < listing.len() && is_listed((#[trigger] listing[i]).1, extra_only)
                    ==> places.contains(i)
        }),
{
    lemma_listed_places(listing, extra_only);
}

/// Whether `at` says where the elements of one sequence stand in another, in
/// the same order.
pub open spec fn stands_in(
    part: Seq<(Seq<char>, Seq<char>)>,
    whole: Seq<(Seq<char>, Seq<char>)>,
    at: Seq<int>,
) -> bool {
    &&& at.len() == part.len()
    &&& forall|k: int|
        0 <= k < at.len() ==> 0 <= #[trigger] at[k] < whole.len() && part[k] == whole[at[k]]
    &&& forall|j: int, k: int| 0 <= j < k < at.len() ==> #[trigger] at[j] < #[trigger] at[k]
}

/// The variables that were set on a command are listed among all of them, in
/// the same order.
pub proof fn extra_texts_are_a_subsequence(listing: Listing)
    ensures
        exists|at: Seq<int>|
            stands_in(env_texts(listing, true), env_texts(listing, false), at),
    decreases listing.len(),
{
    let part = env_texts(listing, true);
    let whole = env_texts(listing, false);
    if listing.len() == 0 {
        assert(stands_in(part, whole, seq![]));
    } else {
        let front = listing.drop_last();
        extra_texts_are_a_subsequence(front);
        let at = choose|at: Seq<int>|
            stands_in(env_texts(front, true), env_texts(front, false), at);
        if is_listed(listing.last().1, true) {
            let longer = at.push(env_texts(front, false).len() as int);
            assert(stands_in(part, whole, longer));
        } else {
            assert(stands_in(part, whole, at));
        }
    }
}

/// A change to the environment of a command.
pub enum EnvChange {
    /// A variable is set.
    Assign(Seq<u8>, Seq<u8>),
    /// A variable is taken out.
    Remove(Seq<u8>),
    /// All variables are taken out.
    Clear,
}

/// Whether a builder has come from another by a change to its environment.
pub open spec fn makes_change(before: BuilderView, after: BuilderView, change: EnvChange) -> bool {
    match change {
        EnvChange::Assign(name, value) => sets_env(before, after, name, value),
        EnvChange::Remove(name) => removes_env(before, after, name),
        EnvChange::Clear => after == (BuilderView { env: seq![], ..before }),
    }
}

/// Whether these are the builders before, between and after changes.
pub open spec fn are_changed(builders: Seq<BuilderView>, changes: Seq<EnvChange>) -> bool {
    &&& builders.len() == changes.len() + 1
    &&& forall|i: int|
        #![trigger changes[i]]
        0 <= i < changes.len() ==> makes_change(builders[i], builders[i + 1], changes[i])
}

/// The name and the value that a variable was set to last, unless it has been
/// taken out since.
pub open spec fn last_set(platform: Platform, changes: Seq<EnvChange>, key: Seq<u8>) -> Option<
    (Seq<u8>, Seq<u8>),
>
    decreases changes.len(),
{
    if changes.len() == 0 {
        None
    } else {
        let before = last_set(platform, changes.drop_last(), key);
        match changes.last() {
            EnvChange::Assign(name, value) => if env_key(platform, name) == key {
                Some((name, value))
            } else {
                before
            },
            EnvChange::Remove(name) => if env_key(platform, name) == key {
                None
            } else {
                before
            },
            EnvChange::Clear => None,
        }
    }
}

/// After changes, the variables of a command's own are those that were set and
/// not taken out since, each under the name and with the value that it was set
/// to last.
pub proof fn own_variables_are_those_set(
    builders: Seq<BuilderView>,
    changes: Seq<EnvChange>,
    key: Seq<u8>,
)
    requires
        are_changed(builders, changes),
        all_are_base(by_key(builders[0].env)),
    ensures
        ({
            let vars = by_key(builders.last().env);
            &&& builders.last().platform == builders[0].platform
            &&& match last_set(builders[0].platform, changes, key) {
                Some((name, value)) => vars.contains_key(key) && vars[key] == (EnvEntryView {
                    is_from_base_env: false,
                    preferred_key: name,
                    value,
                }),
                None => vars.contains_key(key) ==> vars[key].is_from_base_env,
            }
        }),
    decreases changes.len(),
{
    if changes.len() > 0 {
        let last = changes.len() - 1;
        let fewer = changes.drop_last();
        let earlier = builders.drop_last();
        assert forall|i: int| #![trigger fewer[i]] 0 <= i < fewer.len() implies makes_change(
            earlier[i],
            earlier[i + 1],
            fewer[i],
        ) by {
            assert(changes[i] == fewer[i]);
        }
        own_variables_are_those_set(earlier, fewer, key);
        assert(makes_change(builders[last], builders[last + 1], changes[last]));
        assert(earlier.last() == builders[last]);
        assert(earlier[0] == builders[0]);
    }
}

/// After changes to a new command, its extra variables as text are those that
/// were set and not taken out since, where name and value are text.
pub proof fn extra_texts_are_what_was_set(
    builders: Seq<BuilderView>,
    changes: Seq<EnvChange>,
    pair: (Seq<char>, Seq<char>),
)
    requires
        are_changed(builders, changes),
        all_are_base(by_key(builders[0].env)),
        ascending(builders.last().env),
    ensures
        env_texts(builders.last().env, true).contains(pair) == exists|key: Seq<u8>|
            (#[trigger] last_set(builders[0].platform, changes, key)) matches Some((name, value))
                && valid_utf8(name) && valid_utf8(value) && pair == (
                decode_utf8(name),
                decode_utf8(value),
            ),
{
    let platform = builders[0].platform;
    let vars = by_key(builders.last().env);
    listed_texts_are_the_variables(builders.last().env, true, pair);
    if env_texts(builders.last().env, true).contains(pair) {
        let key = choose|key: Seq<u8>|
            vars.contains_key(key) && is_listed(#[trigger] vars[key], true) && as_text(vars[key])
                == pair;
        own_variables_are_those_set(builders, changes, key);
        assert(last_set(platform, changes, key) is Some);
    }
    if exists|key: Seq<u8>|
        (#[trigger] last_set(platform, changes, key)) matches Some((name, value)) && valid_utf8(
            name,
        ) && valid_utf8(value) && pair == (decode_utf8(name), decode_utf8(value)) {
        let key = choose|key: Seq<u8>|
            (#[trigger] last_set(platform, changes, key)) matches Some((name, value))
                && valid_utf8(name) && valid_utf8(value) && pair == (
                decode_utf8(name),
                decode_utf8(value),
            );
        own_variables_are_those_set(builders, changes, key);
        assert(is_listed(vars[key], true));
    }
}

/// Only a builder that was made for the default program runs it, and no longer
/// once a program was put in its place.
pub proof fn default_program_is_asked_for(
    argv: Seq<Seq<u8>>,
    base: BaseEnvView,
    program: Seq<Seq<u8>>,
)
    requires
        program.len() > 0,
    ensures
        runs_default_prog(fresh_default(base)),
        !runs_default_prog(fresh(argv, base)),
        !runs_default_prog(BuilderView { argv: program, ..fresh_default(base) }),
{
}

/// A command is equal to its copy, and to what registering a call makes of it:
/// the calls in the child take no part in equality.  Nor does it count how the
/// same program and arguments came to be.
pub proof fn hooks_take_no_part_in_equality(
    builder: BuilderView,
    hooks: Seq<usize>,
    base: BaseEnvView,
)
    ensures
        same_command(builder, copy_of(builder)),
        same_command(copy_of(builder), builder),
        same_command(builder, BuilderView { hooks, ..builder }),
        same_command(BuilderView { hooks, ..builder }, builder),
        same_command(
            BuilderView { argv: builder.argv, ..fresh_default(base) },
            fresh(builder.argv, base),
        ),
{
}

/// A new command has the arguments that it was given and the environment that
/// it starts from; it has no directory, no mask and no calls of its own, and
/// its pty becomes the controlling terminal.
pub proof fn new_command_is_plain(argv: Seq<Seq<u8>>, base: BaseEnvView)
    ensures
        fresh(argv, base).argv == argv,
        fresh(argv, base).env == base.env,
        fresh(argv, base).platform == base.platform,
        fresh(argv, base).cwd is None,
        fresh(argv, base).umask is None,
        fresh(argv, base).hooks.len() == 0,
        fresh(argv, base).controlling_tty,
        !fresh(argv, base).default_prog,
        same_command(fresh_default(base), fresh(seq![], base)),
        fresh_default(base).hooks.len() == 0,
        fresh_default(base).default_prog,
{
}

/// Setting or removing a variable changes nothing but the environment.
pub proof fn variables_are_all_that_changes(
    before: BuilderView,
    after: BuilderView,
    name: Seq<u8>,
    value: Seq<u8>,
)
    requires
        sets_env(before, after, name, value) || removes_env(before, after, name),
    ensures
        after.platform == before.platform,
        after.argv == before.argv,
        after.default_prog == before.default_prog,
        after.cwd == before.cwd,
        after.umask == before.umask,
        after.controlling_tty == before.controlling_tty,
        after.hooks == before.hooks,
{
}

/// Commands are equal exactly where everything but the calls in the child, and
/// how they came to be, is.
pub proof fn commands_are_compared_by_parts(a: BuilderView, b: BuilderView)
    ensures
        same_command(a, b) <==> a.platform == b.platform && a.argv == b.argv && a.env == b.env
            && a.cwd == b.cwd && a.umask == b.umask && a.controlling_tty == b.controlling_tty,
{
}

/// A copy of a command has no calls in the child, and runs the default program
/// where the command does.
pub proof fn copies_lose_the_calls(builder: BuilderView)
    ensures
        copy_of(builder).hooks.len() == 0,
        copy_of(builder).default_prog == builder.default_prog,
        runs_default_prog(copy_of(builder)) == runs_default_prog(builder),
        runs_default_prog(builder) <==> builder.default_prog && builder.argv.len() == 0,
{
}

/// A variable is given as text exactly where its value is well-formed, and the
/// text is the one whose bytes the value holds.
pub proof fn text_of_a_variable_is_its_value(builder: BuilderView, name: Seq<u8>)
    ensures
        match env_text(builder, name) {
            Some(text) => env_value(builder, name) == Some(encode_utf8(text)),
            None => match env_value(builder, name) {
                Some(value) => !valid_utf8(value),
                None => true,
            },
        },
{
    if let Some(value) = env_value(builder, name) {
        if valid_utf8(value) {
            decode_utf8_encode_utf8(value);
        }
    }
}

/// The texts of arguments are those whose bytes the arguments hold.
pub proof fn texts_of_arguments_are_the_arguments(argv: Seq<Seq<u8>>, i: int)
    requires
        0 <= i < argv.len(),
    ensures
        argument_texts(argv).len() == argv.len(),
        all_text(argv) ==> encode_utf8(argument_texts(argv)[i]) == argv[i],
        !valid_utf8(argv[i]) ==> !all_text(argv),
{
    if all_text(argv) {
        assert(valid_utf8(argv[i]));
        decode_utf8_encode_utf8(argv[i]);
    }
}

/// Where no argument is ill-formed, all are text.
pub proof fn arguments_are_text_where_well_formed(argv: Seq<Seq<u8>>)
    requires
        forall|i: int| 0 <= i < argv.len() ==> valid_utf8(#[trigger] argv[i]),
    ensures
        all_text(argv),
{
}

/// The environment of a command is what its parts are found by: on Unix a
/// variable is found under its own name alone.
pub proof fn unix_names_stand_for_themselves(name: Seq<u8>)
    ensures
        env_key(Platform::Unix, name) == name,
{
}

} // verus!

//! What the base environment holds, told variable by variable.
use vstd::prelude::*;
use vstd::utf8::{encode_utf8, is_ascii_chars_encode_utf8};

use crate::base_env::{is_called, lacks_shell, process_vars, small_letter, windows_vars,
    with_system_values, with_user_values, without_trailing_zeros, BaseEnvView, RegistryValueView,
    Variables};
use crate::env::{by_key, env_key, EnvEntryView, Platform};

verus! {

/// Whether a name is a word in small letters, but for the case of its letters.
pub open spec fn is_spelled(name: Seq<u8>, word: Seq<u8>) -> bool {
    &&& name.len() == word.len()
    &&& forall|i: int| 0 <= i < name.len() ==> #[trigger] name[i] == word[i] || name[i] + 32 == word[i]
}

/// The word `username`.
pub open spec fn user_name_word() -> Seq<u8> {
    seq![117u8, 115, 101, 114, 110, 97, 109, 101]
}

/// The word `path`.
pub open spec fn path_word() -> Seq<u8> {
    seq![112u8, 97, 116, 104]
}

/// A name is compared letter by letter.
proof fn lemma_called(name: Seq<u8>, word: Seq<char>, bytes: Seq<u8>)
    requires
        encode_utf8(word) == bytes,
        forall|i: int| 0 <= i < bytes.len() ==> 97 <= #[trigger] bytes[i] <= 122,
    ensures
        is_called(name, word) <==> is_spelled(name, bytes),
{
    let small = name.map_values(|byte: u8| small_letter(byte));
    if is_called(name, word) {
        assert forall|i: int| 0 <= i < name.len() implies #[trigger] name[i] == bytes[i] || name[i]
            + 32 == bytes[i] by {
            assert(small[i] == bytes[i]);
        }
    }
    if is_spelled(name, bytes) {
        assert forall|i: int| 0 <= i < name.len() implies small[i] == bytes[i] by {
            assert(name[i] == bytes[i] || name[i] + 32 == bytes[i]);
            assert(97 <= bytes[i] <= 122);
        }
        assert(small =~= bytes);
    }
}

/// The names that are treated in a way of their own.
proof fn lemma_words(name: Seq<u8>)
    ensures
        is_called(name, "username"@) <==> is_spelled(name, user_name_word()),
        is_called(name, "path"@) <==> is_spelled(name, path_word()),
{
    reveal_strlit("username");
    reveal_strlit("path");
    is_ascii_chars_encode_utf8("username"@);
    is_ascii_chars_encode_utf8("path"@);
    assert(encode_utf8("username"@) =~= user_name_word());
    assert(encode_utf8("path"@) =~= path_word());
    lemma_called(name, "username"@, user_name_word());
    lemma_called(name, "path"@, path_word());
}

/// Whether two tables hold the same under a key.
pub open spec fn agree_at(a: Variables, b: Variables, key: Seq<u8>) -> bool {
    a.contains_key(key) == b.contains_key(key) && (a.contains_key(key) ==> a[key] == b[key])
}

/// Whether a table holds a variable of the base environment under its key.
pub open spec fn holds(
    vars: Variables,
    platform: Platform,
    name: Seq<u8>,
    value: Seq<u8>,
) -> bool {
    let key = env_key(platform, name);
    vars.contains_key(key) && vars[key] == (EnvEntryView {
        is_from_base_env: true,
        preferred_key: name,
        value,
    })
}

/// Whether a system value gives the variable of a key its value: it can be
/// read, and is not the user name.
pub open spec fn system_gives(item: RegistryValueView, platform: Platform, key: Seq<u8>) -> bool {
    item.value is Some && !is_spelled(item.name, user_name_word()) && env_key(platform, item.name)
        == key
}

/// Whether a user's value gives the variable of a key its value: it can be
/// read.
pub open spec fn user_gives(item: RegistryValueView, platform: Platform, key: Seq<u8>) -> bool {
    item.value is Some && env_key(platform, item.name) == key
}

/// A variable of the process is in the base environment unless a later one has
/// its key, and there is nothing in it that the process does not have.
pub proof fn process_variables_are_taken(
    platform: Platform,
    list: Seq<(Seq<u8>, Seq<u8>)>,
    i: int,
    key: Seq<u8>,
)
    ensures
        0 <= i < list.len() && (forall|j: int|
            i < j < list.len() ==> env_key(platform, #[trigger] list[j].0) != env_key(
                platform,
                list[i].0,
            )) ==> holds(process_vars(platform, list), platform, list[i].0, list[i].1),
        (forall|j: int| 0 <= j < list.len() ==> env_key(platform, #[trigger] list[j].0) != key)
            ==> !process_vars(platform, list).contains_key(key),
    decreases list.len(),
{
    if list.len() > 0 {
        let front = list.drop_last();
        let last = list.len() - 1;
        process_variables_are_taken(platform, front, i, key);
        assert(forall|j: int| 0 <= j < last ==> front[j] == list[j]);
        if i < last && (forall|j: int|
            i < j < list.len() ==> env_key(platform, #[trigger] list[j].0) != env_key(
                platform,
                list[i].0,
            )) {
            assert(env_key(platform, list[last].0) != env_key(platform, list[i].0));
        }
        if forall|j: int| 0 <= j < list.len() ==> env_key(platform, #[trigger] list[j].0) != key {
            assert(env_key(platform, list[last].0) != key);
        }
    }
}

/// A system value that can be read, and that is not the user name, is in the
/// environment unless a later one has its key.
pub proof fn system_values_are_taken(
    vars: Variables,
    platform: Platform,
    list: Seq<RegistryValueView>,
    i: int,
)
    requires
        0 <= i < list.len(),
        system_gives(list[i], platform, env_key(platform, list[i].name)),
        forall|j: int|
            i < j < list.len() ==> !system_gives(
                #[trigger] list[j],
                platform,
                env_key(platform, list[i].name),
            ),
    ensures
        holds(with_system_values(vars, platform, list), platform, list[i].name, list[i].value->0),
    decreases list.len(),
{
    let last = list.len() - 1;
    lemma_words(list[last].name);
    if i < last {
        let front = list.drop_last();
        assert(forall|j: int| 0 <= j < last ==> front[j] == list[j]);
        assert(!system_gives(list[last], platform, env_key(platform, list[i].name)));
        system_values_are_taken(vars, platform, front, i);
    }
}

/// Where no system value gives a variable its value, what was there stays; so
/// a system value for the user name, and one that cannot be read, changes
/// nothing.
pub proof fn system_values_leave_the_rest(
    vars: Variables,
    platform: Platform,
    list: Seq<RegistryValueView>,
    key: Seq<u8>,
)
    requires
        forall|j: int| 0 <= j < list.len() ==> !system_gives(#[trigger] list[j], platform, key),
    ensures
        agree_at(with_system_values(vars, platform, list), vars, key),
    decreases list.len(),
{
    if list.len() > 0 {
        let last = list.len() - 1;
        let front = list.drop_last();
        lemma_words(list[last].name);
        assert(forall|j: int| 0 <= j < last ==> front[j] == list[j]);
        assert(!system_gives(list[last], platform, key));
        system_values_leave_the_rest(vars, platform, front, key);
    }
}

/// A user's value that can be read, and that is not the search path, is in the
/// environment unless a later one has its key.
pub proof fn user_values_are_taken(
    vars: Variables,
    platform: Platform,
    list: Seq<RegistryValueView>,
    i: int,
)
    requires
        0 <= i < list.len(),
        list[i].value is Some,
        !is_spelled(list[i].name, path_word()),
        forall|j: int|
            i < j < list.len() ==> !user_gives(
                #[trigger] list[j],
                platform,
                env_key(platform, list[i].name),
            ),
    ensures
        holds(with_user_values(vars, platform, list), platform, list[i].name, list[i].value->0),
    decreases list.len(),
{
    let last = list.len() - 1;
    lemma_words(list[last].name);
    if i < last {
        let front = list.drop_last();
        assert(forall|j: int| 0 <= j < last ==> front[j] == list[j]);
        assert(!user_gives(list[last], platform, env_key(platform, list[i].name)));
        user_values_are_taken(vars, platform, front, i);
    }
}

/// A search path of the user is put behind the one that is there, with a
/// semicolon in between; where none is there, it stands alone.
pub proof fn user_path_is_put_behind(
    vars: Variables,
    platform: Platform,
    list: Seq<RegistryValueView>,
    name: Seq<u8>,
    value: Seq<u8>,
)
    requires
        is_spelled(name, path_word()),
    ensures
        ({
            let before = with_user_values(vars, platform, list);
            let key = env_key(platform, name);
            holds(
                with_user_values(
                    vars,
                    platform,
                    list.push((RegistryValueView { name, value: Some(value) })),
                ),
                platform,
                name,
                if before.contains_key(key) {
                    before[key].value + seq![59u8] + value
                } else {
                    value
                },
            )
        }),
{
    let more = list.push((RegistryValueView { name, value: Some(value) }));
    let before = with_user_values(vars, platform, list);
    let key = env_key(platform, name);
    lemma_words(name);
    assert(more.drop_last() =~= list);
    assert(before[key].value.push(59) + value =~= before[key].value + seq![59u8] + value);
}

/// Where no user's value gives a variable its value, what was there stays.
pub proof fn user_values_leave_the_rest(
    vars: Variables,
    platform: Platform,
    list: Seq<RegistryValueView>,
    key: Seq<u8>,
)
    requires
        forall|j: int| 0 <= j < list.len() ==> !user_gives(#[trigger] list[j], platform, key),
    ensures
        agree_at(with_user_values(vars, platform, list), vars, key),
    decreases list.len(),
{
    if list.len() > 0 {
        let last = list.len() - 1;
        let front = list.drop_last();
        assert(forall|j: int| 0 <= j < last ==> front[j] == list[j]);
        assert(!user_gives(list[last], platform, key));
        user_values_leave_the_rest(vars, platform, front, key);
    }
}

/// On Windows, a system value that can be read, and that is not the user name,
/// is in the base environment unless a later system value or a user's value
/// has its key.
pub proof fn windows_system_values_are_there(
    list: Seq<(Seq<u8>, Seq<u8>)>,
    system: Seq<RegistryValueView>,
    user: Seq<RegistryValueView>,
    i: int,
)
    requires
        0 <= i < system.len(),
        system[i].value is Some,
        !is_spelled(system[i].name, user_name_word()),
        forall|j: int|
            i < j < system.len() ==> !system_gives(
                #[trigger] system[j],
                Platform::Windows,
                env_key(Platform::Windows, system[i].name),
            ),
        forall|j: int|
            0 <= j < user.len() ==> !user_gives(
                #[trigger] user[j],
                Platform::Windows,
                env_key(Platform::Windows, system[i].name),
            ),
    ensures
        holds(
            windows_vars(list, system, user),
            Platform::Windows,
            system[i].name,
            system[i].value->0,
        ),
{
    let process = process_vars(Platform::Windows, list);
    let all = with_system_values(process, Platform::Windows, system);
    system_values_are_taken(process, Platform::Windows, system, i);
    user_values_leave_the_rest(
        all,
        Platform::Windows,
        user,
        env_key(Platform::Windows, system[i].name),
    );
}

/// On Windows, a variable of the process stays in the base environment where
/// no later one and no value of the registry that counts has its key.  A
/// system value for the user name does not count.
pub proof fn windows_process_variables_stay(
    list: Seq<(Seq<u8>, Seq<u8>)>,
    system: Seq<RegistryValueView>,
    user: Seq<RegistryValueView>,
    i: int,
)
    requires
        0 <= i < list.len(),
        forall|j: int|
            i < j < list.len() ==> env_key(Platform::Windows, #[trigger] list[j].0) != env_key(
                Platform::Windows,
                list[i].0,
            ),
        forall|j: int|
            0 <= j < system.len() ==> !system_gives(
                #[trigger] system[j],
                Platform::Windows,
                env_key(Platform::Windows, list[i].0),
            ),
        forall|j: int|
            0 <= j < user.len() ==> !user_gives(
                #[trigger] user[j],
                Platform::Windows,
                env_key(Platform::Windows, list[i].0),
            ),
    ensures
        holds(windows_vars(list, system, user), Platform::Windows, list[i].0, list[i].1),
{
    let process = process_vars(Platform::Windows, list);
    let all = with_system_values(process, Platform::Windows, system);
    let key = env_key(Platform::Windows, list[i].0);
    process_variables_are_taken(Platform::Windows, list, i, key);
    system_values_leave_the_rest(process, Platform::Windows, system, key);
    user_values_leave_the_rest(all, Platform::Windows, user, key);
}

/// On Windows, a user's value that can be read, and that is not the search
/// path, is in the base environment unless a later one has its key.
pub proof fn windows_user_values_are_there(
    list: Seq<(Seq<u8>, Seq<u8>)>,
    system: Seq<RegistryValueView>,
    user: Seq<RegistryValueView>,
    i: int,
)
    requires
        0 <= i < user.len(),
        user[i].value is Some,
        !is_spelled(user[i].name, path_word()),
        forall|j: int|
            i < j < user.len() ==> !user_gives(
                #[trigger] user[j],
                Platform::Windows,
                env_key(Platform::Windows, user[i].name),
            ),
    ensures
        holds(
            windows_vars(list, system, user),
            Platform::Windows,
            user[i].name,
            user[i].value->0,
        ),
{
    let process = process_vars(Platform::Windows, list);
    let all = with_system_values(process, Platform::Windows, system);
    user_values_are_taken(all, Platform::Windows, user, i);
}

/// On Windows, where the user has one search path and all users have another,
/// which comes last of those with its key, the search path is that of all
/// users, a semicolon, and that of the user.
pub proof fn windows_search_paths_are_joined(
    list: Seq<(Seq<u8>, Seq<u8>)>,
    system: Seq<RegistryValueView>,
    user: Seq<RegistryValueView>,
    i: int,
    k: int,
)
    requires
        0 <= i < system.len(),
        0 <= k < user.len(),
        is_spelled(user[k].name, path_word()),
        system_gives(
            system[i],
            Platform::Windows,
            env_key(Platform::Windows, user[k].name),
        ),
        user[k].value is Some,
        forall|j: int|
            i < j < system.len() ==> !system_gives(
                #[trigger] system[j],
                Platform::Windows,
                env_key(Platform::Windows, user[k].name),
            ),
        forall|j: int|
            0 <= j < user.len() && j != k ==> !user_gives(
                #[trigger] user[j],
                Platform::Windows,
                env_key(Platform::Windows, user[k].name),
            ),
    ensures
        holds(
            windows_vars(list, system, user),
            Platform::Windows,
            user[k].name,
            system[i].value->0 + seq![59u8] + user[k].value->0,
        ),
{
    let platform = Platform::Windows;
    let key = env_key(platform, user[k].name);
    let all = with_system_values(process_vars(platform, list), platform, system);
    system_values_are_taken(process_vars(platform, list), platform, system, i);
    let front = user.take(k);
    assert(forall|j: int| 0 <= j < k ==> front[j] == user[j]);
    user_values_leave_the_rest(all, platform, front, key);
    user_path_is_put_behind(all, platform, front, user[k].name, user[k].value->0);
    assert(user.take(k + 1) =~= front.push(
        (RegistryValueView { name: user[k].name, value: Some(user[k].value->0) }),
    ));
    lemma_rest_of_user_values(all, platform, user, k + 1, key);
}

/// What the first user's values give stays where no later one has the key.
proof fn lemma_rest_of_user_values(
    vars: Variables,
    platform: Platform,
    list: Seq<RegistryValueView>,
    n: int,
    key: Seq<u8>,
)
    requires
        0 <= n <= list.len(),
        forall|j: int| n <= j < list.len() ==> !user_gives(#[trigger] list[j], platform, key),
    ensures
        agree_at(
            with_user_values(vars, platform, list),
            with_user_values(vars, platform, list.take(n)),
            key,
        ),
    decreases list.len(),
{
    if n < list.len() {
        let front = list.drop_last();
        let last = list.len() - 1;
        assert(forall|j: int| 0 <= j < last ==> front[j] == list[j]);
        assert(front.take(n) =~= list.take(n));
        assert(!user_gives(list[last], platform, key));
        lemma_rest_of_user_values(vars, platform, front, n, key);
    } else {
        assert(list.take(n) =~= list);
    }
}

/// A base environment lacks a shell exactly where it is one of a Unix process
/// and no variable in it is called `SHELL`.
pub proof fn shell_is_missing_by_name(base: BaseEnvView)
    ensures
        lacks_shell(base) <==> base.platform == Platform::Unix && forall|i: int|
            0 <= i < base.env.len() ==> (#[trigger] base.env[i]).0 != encode_utf8("SHELL"@),
{
    let name = encode_utf8("SHELL"@);
    if by_key(base.env).contains_key(name) {
        let i = choose|i: int| crate::env::stands_at(base.env, name, i);
        assert(base.env[i].0 == name);
    }
    if exists|i: int| 0 <= i < base.env.len() && (#[trigger] base.env[i]).0 == name {
        let i = choose|i: int| 0 <= i < base.env.len() && (#[trigger] base.env[i]).0 == name;
        assert(crate::env::stands_at(base.env, name, i));
    }
}

/// Only zeros are cut off at the end of a buffer, and all of them are.
pub proof fn only_trailing_zeros_are_cut(units: Seq<u16>)
    ensures
        ({
            let kept = without_trailing_zeros(units);
            &&& kept.len() <= units.len()
            &&& kept == units.take(kept.len() as int)
            &&& kept.len() > 0 ==> kept[kept.len() - 1] != 0
            &&& forall|i: int| kept.len() <= i < units.len() ==> #[trigger] units[i] == 0
        }),
    decreases units.len(),
{
    if units.len() > 0 && units.last() == 0 {
        let front = units.drop_last();
        only_trailing_zeros_are_cut(front);
        let kept = without_trailing_zeros(front);
        assert(front.take(kept.len() as int) =~= units.take(kept.len() as int));
        assert forall|i: int| kept.len() <= i < units.len() implies #[trigger] units[i] == 0 by {
            if i < front.len() {
                assert(front[i] == 0);
            }
        }
    } else {
        assert(units.take(units.len() as int) =~= units);
    }
}

} // verus!

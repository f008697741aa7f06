//! The environment that every command starts from.
use vstd::prelude::*;
use vstd::utf8::encode_utf8;

use crate::env::{by_key, env_key, is_kept, EnvEntry, EnvEntryView, EnvMap, Environment, Listing,
    Platform};
use crate::os_string::{os_pairs, OsString};
use crate::wide::wide_bytes;

verus! {

/// Variables by key.
pub type Variables = Map<Seq<u8>, EnvEntryView>;

/// A variable of the base environment.
pub open spec fn base_entry(name: Seq<u8>, value: Seq<u8>) -> EnvEntryView {
    EnvEntryView { is_from_base_env: true, preferred_key: name, value }
}

/// Variables with one of the base environment set.
pub open spec fn with_base(
    vars: Variables,
    platform: Platform,
    name: Seq<u8>,
    value: Seq<u8>,
) -> Variables {
    vars.insert(env_key(platform, name), base_entry(name, value))
}

/// The variables of a process environment; of two with one key the later one
/// stays.
pub open spec fn process_vars(platform: Platform, list: Seq<(Seq<u8>, Seq<u8>)>) -> Variables
    decreases list.len(),
{
    if list.len() == 0 {
        Map::empty()
    } else {
        with_base(
            process_vars(platform, list.drop_last()),
            platform,
            list.last().0,
            list.last().1,
        )
    }
}

/// A byte with a capital ASCII letter made small.
pub open spec fn small_letter(byte: u8) -> u8 {
    if 65 <= byte <= 90 {
        (byte + 32) as u8
    } else {
        byte
    }
}

/// Whether a name is `word` when its capital ASCII letters are made small.
pub open spec fn is_called(name: Seq<u8>, word: Seq<char>) -> bool {
    name.map_values(|byte: u8| small_letter(byte)) == encode_utf8(word)
}

/// A value of the Windows registry, with its name; without a value where it
/// has none that can be read as a string.
#[derive(Debug)]
pub struct RegistryValue {
    pub name: OsString,
    pub value: Option<OsString>,
}

/// What a [`RegistryValue`] holds.
pub struct RegistryValueView {
    pub name: Seq<u8>,
    pub value: Option<Seq<u8>>,
}

impl View for RegistryValue {
    type V = RegistryValueView;

    open spec fn view(&self) -> RegistryValueView {
        RegistryValueView {
            name: self.name@,
            value: match self.value {
                Some(value) => Some(value@),
                None => None,
            },
        }
    }
}

/// The contents of registry values.
pub open spec fn registry_views(list: Seq<RegistryValue>) -> Seq<RegistryValueView> {
    list.map_values(|item: RegistryValue| item@)
}

/// Variables after the system-wide registry values: all but the user name
/// replace what was there.
pub open spec fn with_system_values(
    vars: Variables,
    platform: Platform,
    list: Seq<RegistryValueView>,
) -> Variables
    decreases list.len(),
{
    if list.len() == 0 {
        vars
    } else {
        let before = with_system_values(vars, platform, list.drop_last());
        match list.last().value {
            Some(value) if !is_called(list.last().name, "username"@) => with_base(
                before,
                platform,
                list.last().name,
                value,
            ),
            _ => before,
        }
    }
}

/// The value that a user's registry value gives a variable: a search path is
/// put behind the one that is there, everything else replaces it.
pub open spec fn user_value(
    vars: Variables,
    platform: Platform,
    name: Seq<u8>,
    value: Seq<u8>,
) -> Seq<u8> {
    if is_called(name, "path"@) && vars.contains_key(env_key(platform, name)) {
        vars[env_key(platform, name)].value.push(59) + value
    } else {
        value
    }
}

/// Variables after the registry values of the user.
pub open spec fn with_user_values(
    vars: Variables,
    platform: Platform,
    list: Seq<RegistryValueView>,
) -> Variables
    decreases list.len(),
{
    if list.len() == 0 {
        vars
    } else {
        let before = with_user_values(vars, platform, list.drop_last());
        match list.last().value {
            Some(value) => with_base(
                before,
                platform,
                list.last().name,
                user_value(before, platform, list.last().name, value),
            ),
            None => before,
        }
    }
}

/// The variables of a Windows process, with what the registry says.
pub open spec fn windows_vars(
    vars: Seq<(Seq<u8>, Seq<u8>)>,
    system: Seq<RegistryValueView>,
    user: Seq<RegistryValueView>,
) -> Variables {
    with_user_values(
        with_system_values(process_vars(Platform::Windows, vars), Platform::Windows, system),
        Platform::Windows,
        user,
    )
}

/// Units without the zeros at their end.
pub open spec fn without_trailing_zeros(units: Seq<u16>) -> Seq<u16>
    decreases units.len(),
{
    if units.len() > 0 && units.last() == 0 {
        without_trailing_zeros(units.drop_last())
    } else {
        units
    }
}

/// The string in a buffer that Windows filled and padded with zeros.
pub fn expanded_string(buffer: &[u16]) -> (r: OsString)
    ensures
        r@ == wide_bytes(without_trailing_zeros(buffer@)),
{
    let mut units: Vec<u16> = Vec::new();
    let mut end: usize = buffer.len();
    assert(buffer@.take(end as int) =~= buffer@);
    while end > 0 && buffer[end - 1] == 0
        invariant
            end <= buffer@.len(),
            without_trailing_zeros(buffer@) == without_trailing_zeros(buffer@.take(end as int)),
        decreases end,
    {
        assert(buffer@.take(end as int).drop_last() =~= buffer@.take(end - 1));
        end -= 1;
    }
    for i in 0..end
        invariant
            end <= buffer@.len(),
            units@ == buffer@.take(i as int),
    {
        units.push(buffer[i]);
        assert(buffer@.take(i + 1) =~= buffer@.take(i as int).push(buffer@[i as int]));
    }
    OsString::from_wide(units.as_slice())
}

/// Whether a name is `word` when its capital ASCII letters are made small.
fn name_is(name: &OsString, word: &str) -> (r: bool)
    ensures
        r == is_called(name@, word@),
{
    let bytes = name.as_bytes();
    let want = word.as_bytes();
    let ghost small = name@.map_values(|byte: u8| small_letter(byte));
    if bytes.len() != want.len() {
        assert(small.len() != want@.len());
        return false;
    }
    for i in 0..bytes.len()
        invariant
            bytes@ == name@,
            bytes@.len() == want@.len(),
            small == name@.map_values(|byte: u8| small_letter(byte)),
            want@ == encode_utf8(word@),
            forall|j: int| 0 <= j < i ==> small[j] == want@[j],
    {
        let byte = bytes[i];
        let made: u8 = if 65 <= byte && byte <= 90 { byte + 32 } else { byte };
        assert(small[i as int] == made);
        if made != want[i] {
            return false;
        }
    }
    assert(small =~= want@);
    true
}

/// The environment that every command starts from.
#[derive(Debug)]
pub struct BaseEnv {
    environment: Environment,
}

/// What a [`BaseEnv`] holds.
pub struct BaseEnvView {
    pub platform: Platform,
    pub env: Listing,
}

impl View for BaseEnv {
    type V = BaseEnvView;

    closed spec fn view(&self) -> BaseEnvView {
        BaseEnvView { platform: self.environment@.platform, env: self.environment@.env }
    }
}

/// Whether all variables come from the base environment.
pub open spec fn all_are_base(vars: Variables) -> bool {
    forall|key: Seq<u8>| #[trigger] vars.contains_key(key) ==> vars[key].is_from_base_env
}

/// Whether this is a base environment: each variable is kept under the key of
/// its own name, and all are marked as the base's.
pub open spec fn is_base(base: BaseEnvView) -> bool {
    is_kept(base.platform, base.env) && all_are_base(by_key(base.env))
}

/// Whether a base environment lacks a shell that it should name.
pub open spec fn lacks_shell(base: BaseEnvView) -> bool {
    base.platform == Platform::Unix && !by_key(base.env).contains_key(encode_utf8("SHELL"@))
}

impl BaseEnv {
    /// All variables are marked as the base's.
    #[verifier::type_invariant]
    pub open spec fn well_formed(self) -> bool {
        all_are_base(by_key(self@.env))
    }

    /// A base environment without variables.
    fn empty(platform: Platform) -> (r: Self)
        ensures
            r@.platform == platform,
            is_base(r@),
            by_key(r@.env) == Map::<Seq<u8>, EnvEntryView>::empty(),
    {
        let environment = Environment::new(platform);
        assert(by_key(environment@.env) =~= Map::<Seq<u8>, EnvEntryView>::empty());
        BaseEnv { environment }
    }

    /// Sets a variable of the base environment.
    fn set(&mut self, name: &OsString, value: OsString)
        ensures
            final(self)@.platform == old(self)@.platform,
            is_base(final(self)@),
            by_key(final(self)@.env) == with_base(
                by_key(old(self)@.env),
                old(self)@.platform,
                name@,
                value@,
            ),
    {
        proof {
            use_type_invariant(&*self);
        }
        let ghost before = by_key(self.environment@.env);
        let mut environment = Environment::new(self.environment.platform());
        assert(by_key(environment@.env) =~= Map::<Seq<u8>, EnvEntryView>::empty());
        std::mem::swap(&mut environment, &mut self.environment);
        let entry = EnvEntry { is_from_base_env: true, preferred_key: name.clone(), value };
        environment.set(entry);
        assert(all_are_base(by_key(environment@.env))) by {
            assert forall|key: Seq<u8>| #[trigger]
                by_key(environment@.env).contains_key(key) implies by_key(
                environment@.env,
            )[key].is_from_base_env by {
                if key != env_key(environment@.platform, name@) {
                    assert(before.contains_key(key));
                }
            }
        }
        self.environment = environment;
    }

    /// The base environment of a process with the given variables.
    pub fn from_vars(platform: Platform, vars: &Vec<(OsString, OsString)>) -> (r: Self)
        ensures
            r@.platform == platform,
            is_base(r@),
            by_key(r@.env) == process_vars(platform, os_pairs(vars@)),
    {
        let mut base = BaseEnv::empty(platform);
        for i in 0..vars.len()
            invariant
                base@.platform == platform,
                is_base(base@),
                by_key(base@.env) == process_vars(platform, os_pairs(vars@).take(i as int)),
        {
            let pair = &vars[i];
            base.set(&pair.0, pair.1.clone());
            proof {
                let all = os_pairs(vars@);
                assert(all.take(i + 1).drop_last() =~= all.take(i as int));
                assert(all.take(i + 1).last() == all[i as int]);
            }
        }
        assert(os_pairs(vars@).take(vars@.len() as int) =~= os_pairs(vars@));
        base
    }

    /// The base environment of a Windows process with the given variables: the
    /// registry's environment for all users comes over it, and over that the
    /// one for the user.
    pub fn on_windows(
        vars: &Vec<(OsString, OsString)>,
        system: &Vec<RegistryValue>,
        user: &Vec<RegistryValue>,
    ) -> (r: Self)
        ensures
            r@.platform == Platform::Windows,
            is_base(r@),
            by_key(r@.env) == windows_vars(
                os_pairs(vars@),
                registry_views(system@),
                registry_views(user@),
            ),
    {
        let mut base = Self::from_vars(Platform::Windows, vars);
        base.add_system_values(system);
        base.add_user_values(user);
        base
    }

    /// The platform whose conventions hold.
    pub fn platform(&self) -> (r: Platform)
        ensures
            r == self@.platform,
    {
        self.environment.platform()
    }

    /// The variables.
    pub fn vars(&self) -> (r: &EnvMap)
        ensures
            r@ == self@.env,
            is_base(self@),
    {
        proof {
            use_type_invariant(self);
        }
        self.environment.vars()
    }

    /// A copy of the environment, for a command to change.
    pub(crate) fn to_environment(&self) -> (r: Environment)
        ensures
            r@.platform == self@.platform,
            r@.env == self@.env,
            is_base(self@),
    {
        proof {
            use_type_invariant(self);
        }
        self.environment.clone()
    }

    /// Whether the environment names no shell though it should.
    pub fn needs_shell(&self) -> (r: bool)
        ensures
            r == lacks_shell(self@),
    {
        match self.environment.platform() {
            Platform::Windows => false,
            Platform::Unix => self.environment.get(&OsString::from_text("SHELL")).is_none(),
        }
    }

    /// Names a shell, unless the environment does so already.
    pub fn set_shell(&mut self, shell: &str)
        ensures
            !lacks_shell(final(self)@),
            final(self)@.platform == old(self)@.platform,
            is_base(final(self)@),
            by_key(final(self)@.env) == if lacks_shell(old(self)@) {
                by_key(old(self)@.env).insert(
                    encode_utf8("SHELL"@),
                    base_entry(encode_utf8("SHELL"@), encode_utf8(shell@)),
                )
            } else {
                by_key(old(self)@.env)
            },
    {
        proof {
            use_type_invariant(&*self);
            use_type_invariant(&self.environment);
        }
        if self.needs_shell() {
            self.set(&OsString::from_text("SHELL"), OsString::from_text(shell));
        }
    }

    /// Takes over the environment that the registry holds for all users.
    pub fn add_system_values(&mut self, values: &Vec<RegistryValue>)
        ensures
            final(self)@.platform == old(self)@.platform,
            is_base(final(self)@),
            by_key(final(self)@.env) == with_system_values(
                by_key(old(self)@.env),
                old(self)@.platform,
                registry_views(values@),
            ),
    {
        proof {
            use_type_invariant(&*self);
            use_type_invariant(&self.environment);
        }
        for i in 0..values.len()
            invariant
                self@.platform == old(self)@.platform,
                is_base(self@),
                by_key(self@.env) == with_system_values(
                    by_key(old(self)@.env),
                    old(self)@.platform,
                    registry_views(values@).take(i as int),
                ),
        {
            proof {
                let all = registry_views(values@);
                assert(all.take(i + 1).drop_last() =~= all.take(i as int));
                assert(all.take(i + 1).last() == values@[i as int]@);
            }
            let item = &values[i];
            if let Some(value) = &item.value {
                if !name_is(&item.name, "username") {
                    self.set(&item.name, value.clone());
                }
            }
        }
        assert(registry_views(values@).take(values@.len() as int) =~= registry_views(values@));
    }

    /// Takes over the environment that the registry holds for the user.
    pub fn add_user_values(&mut self, values: &Vec<RegistryValue>)
        ensures
            final(self)@.platform == old(self)@.platform,
            is_base(final(self)@),
            by_key(final(self)@.env) == with_user_values(
                by_key(old(self)@.env),
                old(self)@.platform,
                registry_views(values@),
            ),
    {
        proof {
            use_type_invariant(&*self);
            use_type_invariant(&self.environment);
        }
        for i in 0..values.len()
            invariant
                self@.platform == old(self)@.platform,
                is_base(self@),
                by_key(self@.env) == with_user_values(
                    by_key(old(self)@.env),
                    old(self)@.platform,
                    registry_views(values@).take(i as int),
                ),
        {
            proof {
                let all = registry_views(values@);
                assert(all.take(i + 1).drop_last() =~= all.take(i as int));
                assert(all.take(i + 1).last() == values@[i as int]@);
            }
            let item = &values[i];
            if let Some(value) = &item.value {
                let mut given = value.clone();
                if name_is(&item.name, "path") {
                    if let Some(entry) = self.environment.get(&item.name) {
                        given = entry.value.clone();
                        given.push_byte(59);
                        given.push(value);
                    }
                }
                self.set(&item.name, given);
            }
        }
        assert(registry_views(values@).take(values@.len() as int) =~= registry_views(values@));
    }
}

} // verus!

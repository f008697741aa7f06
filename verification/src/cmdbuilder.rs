//! Preparing a command to be spawned into a pty.
use vstd::prelude::*;
use vstd::utf8::{decode_utf8, encode_utf8, valid_utf8};

use crate::base_env::{is_base, BaseEnv, BaseEnvView};
use crate::env::{by_key, env_key, has_plain_key, is_kept, EnvEntry, EnvEntryView, EnvMap, Environment, Listing,
    Platform};
use crate::error::{Error, ErrorView};
use crate::foreign::join_words;
use crate::os_string::{copy_list, lists_equal, os_views, OsString};
use crate::shell::quoted_line;
use crate::text::texts;

verus! {

/// A command to be spawned into a pty: program and arguments, environment,
/// directory, and what is set up in the child before the program runs.
#[derive(Debug)]
pub struct CommandBuilder {
    environment: Environment,
    args: Vec<OsString>,
    default_prog: bool,
    cwd: Option<OsString>,
    umask: Option<u32>,
    controlling_tty: bool,
    pre_exec_hooks: Vec<usize>,
}

/// What a [`CommandBuilder`] holds.
pub struct BuilderView {
    /// The platform whose conventions hold.
    pub platform: Platform,
    /// Program and arguments; nothing at all for the default program.
    pub argv: Seq<Seq<u8>>,
    /// Whether the builder was made for the default program.
    pub default_prog: bool,
    /// The environment in the order of its keys.
    pub env: Listing,
    /// The directory that was asked for.
    pub cwd: Option<Seq<u8>>,
    /// The file mode mask that was asked for.
    pub umask: Option<u32>,
    /// Whether the pty becomes the controlling terminal.
    pub controlling_tty: bool,
    /// What is to be called in the child, in order.
    pub hooks: Seq<usize>,
}

/// What an optional string holds.
pub open spec fn optional_view(string: Option<OsString>) -> Option<Seq<u8>> {
    match string {
        Some(string) => Some(string@),
        None => None,
    }
}

impl View for CommandBuilder {
    type V = BuilderView;

    closed spec fn view(&self) -> BuilderView {
        BuilderView {
            platform: self.environment@.platform,
            argv: os_views(self.args@),
            default_prog: self.default_prog,
            env: self.environment@.env,
            cwd: optional_view(self.cwd),
            umask: self.umask,
            controlling_tty: self.controlling_tty,
            hooks: self.pre_exec_hooks@,
        }
    }
}

/// A new builder with the given program and arguments.
pub open spec fn fresh(argv: Seq<Seq<u8>>, base: BaseEnvView) -> BuilderView {
    BuilderView {
        platform: base.platform,
        argv,
        default_prog: false,
        env: base.env,
        cwd: None,
        umask: None,
        controlling_tty: true,
        hooks: seq![],
    }
}

/// A new builder for the default program.
pub open spec fn fresh_default(base: BaseEnvView) -> BuilderView {
    BuilderView { default_prog: true, ..fresh(seq![], base) }
}

/// Whether a builder runs the default program: it was made for that, and no
/// program has been put in its place.
pub open spec fn runs_default_prog(builder: BuilderView) -> bool {
    builder.default_prog && builder.argv.len() == 0
}

/// Whether two builders are equal: the calls in the child take no part in it,
/// nor does how a builder was made.
pub open spec fn same_command(a: BuilderView, b: BuilderView) -> bool {
    a == (BuilderView { hooks: a.hooks, default_prog: a.default_prog, ..b })
}

/// A copy of a builder: it has everything but the calls in the child, which
/// cannot be copied.
pub open spec fn copy_of(builder: BuilderView) -> BuilderView {
    BuilderView { hooks: seq![], ..builder }
}

/// The value of an environment variable.
pub open spec fn env_value(builder: BuilderView, name: Seq<u8>) -> Option<Seq<u8>> {
    let key = env_key(builder.platform, name);
    if by_key(builder.env).contains_key(key) {
        Some(by_key(builder.env)[key].value)
    } else {
        None
    }
}

/// Whether a builder has come from another by setting a variable: it is the
/// command's own from then on, under the name that was given.
pub open spec fn sets_env(
    before: BuilderView,
    after: BuilderView,
    name: Seq<u8>,
    value: Seq<u8>,
) -> bool {
    &&& after == (BuilderView { env: after.env, ..before })
    &&& is_kept(after.platform, after.env)
    &&& by_key(after.env) == by_key(before.env).insert(
        env_key(before.platform, name),
        EnvEntryView { is_from_base_env: false, preferred_key: name, value },
    )
}

/// Whether a builder has come from another by taking a variable out.
pub open spec fn removes_env(before: BuilderView, after: BuilderView, name: Seq<u8>) -> bool {
    &&& after == (BuilderView { env: after.env, ..before })
    &&& is_kept(after.platform, after.env)
    &&& by_key(after.env) == by_key(before.env).remove(env_key(before.platform, name))
}

/// The value of an environment variable as text, where it is well-formed.
pub open spec fn env_text(builder: BuilderView, name: Seq<u8>) -> Option<Seq<char>> {
    match env_value(builder, name) {
        Some(value) if valid_utf8(value) => Some(decode_utf8(value)),
        _ => None,
    }
}

/// Names and values of the variables that are well-formed text, in the order
/// of the listing; with `extra_only`, only of those set on the command.
pub open spec fn env_texts(listing: Listing, extra_only: bool) -> Seq<(Seq<char>, Seq<char>)>
    decreases listing.len(),
{
    if listing.len() == 0 {
        seq![]
    } else {
        let before = env_texts(listing.drop_last(), extra_only);
        let entry = listing.last().1;
        if !(extra_only && entry.is_from_base_env) && valid_utf8(entry.preferred_key)
            && valid_utf8(entry.value) {
            before.push((decode_utf8(entry.preferred_key), decode_utf8(entry.value)))
        } else {
            before
        }
    }
}

/// The contents of pairs of strings.
pub open spec fn text_pairs(list: Seq<(String, String)>) -> Seq<(Seq<char>, Seq<char>)> {
    list.map_values(|pair: (String, String)| (pair.0@, pair.1@))
}

/// Whether every argument is well-formed text.
pub open spec fn all_text(argv: Seq<Seq<u8>>) -> bool {
    forall|i: int| 0 <= i < argv.len() ==> valid_utf8(#[trigger] argv[i])
}

/// The texts of arguments.
pub open spec fn argument_texts(argv: Seq<Seq<u8>>) -> Seq<Seq<char>> {
    argv.map_values(|arg: Seq<u8>| decode_utf8(arg))
}

impl CommandBuilder {
    /// A builder with the given arguments.
    fn with_args(args: Vec<OsString>, default_prog: bool, base: &BaseEnv) -> (r: Self)
        ensures
            r@ == (BuilderView { default_prog, ..fresh(os_views(args@), base@) }),
            is_base(base@),
    {
        let builder = CommandBuilder {
            environment: base.to_environment(),
            args,
            default_prog,
            cwd: None,
            umask: None,
            controlling_tty: true,
            pre_exec_hooks: Vec::new(),
        };
        assert(builder@.hooks =~= seq![]);
        builder
    }

    /// Creates a builder whose first argument is the given program.
    pub fn new(program: OsString, base: &BaseEnv) -> (r: Self)
        ensures
            r@ == fresh(seq![program@], base@),
            is_base(base@),
    {
        let mut args: Vec<OsString> = Vec::new();
        args.push(program);
        assert(os_views(args@) =~= seq![program@]);
        Self::with_args(args, false, base)
    }

    /// Creates a builder from a list of arguments, the program first.
    pub fn from_argv(args: Vec<OsString>, base: &BaseEnv) -> (r: Self)
        ensures
            r@ == fresh(os_views(args@), base@),
            is_base(base@),
    {
        Self::with_args(args, false, base)
    }

    /// Creates a builder that runs the default program, which is typically the
    /// user's shell.
    pub fn new_default_prog(base: &BaseEnv) -> (r: Self)
        ensures
            r@ == fresh_default(base@),
            is_base(base@),
    {
        let args: Vec<OsString> = Vec::new();
        assert(os_views(args@) =~= seq![]);
        Self::with_args(args, true, base)
    }

    /// Whether the builder was made by [`CommandBuilder::new_default_prog`], and
    /// no program has been put in the place of the default one.
    pub fn is_default_prog(&self) -> (r: bool)
        ensures
            r == runs_default_prog(self@),
    {
        self.default_prog && self.args.len() == 0
    }

    /// Whether the builder was made by [`CommandBuilder::new_default_prog`],
    /// whatever has been put in the place of the default program since.
    pub fn was_default_prog(&self) -> (r: bool)
        ensures
            r == self@.default_prog,
    {
        self.default_prog
    }

    /// The platform whose conventions hold.
    pub fn platform(&self) -> (r: Platform)
        ensures
            r == self@.platform,
    {
        self.environment.platform()
    }

    /// Sets whether the pty becomes the controlling terminal of the child.
    /// That is the default; across container boundaries it may have to be
    /// switched off.
    pub fn set_controlling_tty(&mut self, controlling_tty: bool)
        ensures
            final(self)@ == (BuilderView { controlling_tty, ..old(self)@ }),
    {
        self.controlling_tty = controlling_tty;
    }

    /// Whether the pty becomes the controlling terminal of the child.
    pub fn get_controlling_tty(&self) -> (r: bool)
        ensures
            r == self@.controlling_tty,
    {
        self.controlling_tty
    }

    /// Appends an argument.  A default program takes none.
    pub fn arg(&mut self, arg: OsString)
        requires
            !runs_default_prog(old(self)@),
        ensures
            final(self)@ == (BuilderView { argv: old(self)@.argv.push(arg@), ..old(self)@ }),
    {
        self.args.push(arg);
        assert(os_views(self.args@) =~= os_views(old(self).args@).push(arg@));
    }

    /// Appends arguments.  A default program takes none.
    pub fn args(&mut self, args: Vec<OsString>)
        requires
            !runs_default_prog(old(self)@) || args@.len() == 0,
        ensures
            final(self)@ == (BuilderView {
                argv: old(self)@.argv + os_views(args@),
                ..old(self)@
            }),
    {
        let mut more = args;
        self.args.append(&mut more);
        assert(os_views(self.args@) =~= os_views(old(self).args@) + os_views(args@));
    }

    /// Sets the program and its arguments on a builder that was made for the
    /// default program.
    pub fn replace_default_prog(&mut self, args: Vec<OsString>)
        requires
            runs_default_prog(old(self)@),
        ensures
            final(self)@ == (BuilderView { argv: os_views(args@), ..old(self)@ }),
    {
        self.args = args;
    }

    /// Program and arguments.
    pub fn get_argv(&self) -> (r: &[OsString])
        ensures
            os_views(r@) == self@.argv,
    {
        self.args.as_slice()
    }

    /// Program and arguments, to be changed in place.
    pub fn get_argv_mut(&mut self) -> (r: &mut Vec<OsString>)
        ensures
            os_views(r@) == old(self)@.argv,
            final(self)@ == (BuilderView { argv: os_views(final(r)@), ..old(self)@ }),
    {
        &mut self.args
    }

    /// The environment.
    pub fn envs(&self) -> (r: &EnvMap)
        ensures
            r@ == self@.env,
            is_kept(self@.platform, self@.env),
    {
        self.environment.vars()
    }

    /// Sets an environment variable.
    pub fn env(&mut self, key: OsString, value: OsString)
        ensures
            sets_env(old(self)@, final(self)@, key@, value@),
            has_plain_key(old(self)@.platform, key@),
    {
        self.environment.set(EnvEntry { is_from_base_env: false, preferred_key: key, value });
    }

    /// Takes an environment variable out.
    pub fn env_remove(&mut self, key: &OsString)
        ensures
            removes_env(old(self)@, final(self)@, key@),
            has_plain_key(old(self)@.platform, key@),
    {
        self.environment.unset(key);
    }

    /// Takes all environment variables out.
    pub fn env_clear(&mut self)
        ensures
            final(self)@ == (BuilderView { env: seq![], ..old(self)@ }),
    {
        self.environment = Environment::new(self.environment.platform());
        assert(self.environment@.env =~= seq![]);
    }

    /// The value of an environment variable.
    pub fn get_env(&self, key: &OsString) -> (r: Option<&OsString>)
        ensures
            match r {
                Some(value) => env_value(self@, key@) == Some(value@),
                None => env_value(self@, key@) is None,
            },
            has_plain_key(self@.platform, key@),
    {
        match self.environment.get(key) {
            Some(entry) => Some(&entry.value),
            None => None,
        }
    }

    /// The value of an environment variable as text, where it is well-formed.
    pub fn get_env_text(&self, key: &str) -> (r: Option<String>)
        ensures
            match r {
                Some(text) => env_text(self@, encode_utf8(key@)) == Some(text@),
                None => env_text(self@, encode_utf8(key@)) is None,
            },
    {
        match self.get_env(&OsString::from_text(key)) {
            Some(value) => value.to_text(),
            None => None,
        }
    }

    /// Sets the directory to start in.
    pub fn cwd(&mut self, dir: OsString)
        ensures
            final(self)@ == (BuilderView { cwd: Some(dir@), ..old(self)@ }),
    {
        self.cwd = Some(dir);
    }

    /// Leaves the directory to start in open.
    pub fn clear_cwd(&mut self)
        ensures
            final(self)@ == (BuilderView { cwd: None, ..old(self)@ }),
    {
        self.cwd = None;
    }

    /// The directory to start in, if one was set.
    pub fn get_cwd(&self) -> (r: Option<&OsString>)
        ensures
            match r {
                Some(dir) => self@.cwd == Some(dir@),
                None => self@.cwd is None,
            },
    {
        self.cwd.as_ref()
    }

    /// Names and values of the variables, as far as they are well-formed text.
    fn env_as_texts(&self, extra_only: bool) -> (r: Vec<(String, String)>)
        ensures
            is_kept(self@.platform, self@.env),
            text_pairs(r@) == env_texts(self@.env, extra_only),
    {
        let mut out: Vec<(String, String)> = Vec::new();
        assert(text_pairs(out@) =~= env_texts(self@.env.take(0), extra_only));
        let envs = self.envs();
        let size = envs.len();
        for i in 0..size
            invariant
                size == envs@.len(),
                envs@ == self@.env,
                text_pairs(out@) == env_texts(self@.env.take(i as int), extra_only),
        {
            let ghost before = out@;
            proof {
                assert(self@.env.take(i + 1).drop_last() =~= self@.env.take(i as int));
                assert(self@.env.take(i + 1).last() == self@.env[i as int]);
            }
            let entry = envs.entry(i);
            if !(extra_only && entry.is_from_base_env) {
                if let Some(key) = entry.preferred_key.to_text() {
                    if let Some(value) = entry.value.to_text() {
                        out.push((key, value));
                        assert(text_pairs(out@) =~= text_pairs(before).push((key@, value@)));
                    }
                }
            }
        }
        assert(self@.env.take(self@.env.len() as int) =~= self@.env);
        out
    }

    /// The environment variables that were set on this command, in the order
    /// of their keys, leaving out what is not well-formed text.  Variables of
    /// the base environment are not among them.
    pub fn iter_extra_env_as_str(&self) -> (r: Vec<(String, String)>)
        ensures
            is_kept(self@.platform, self@.env),
            text_pairs(r@) == env_texts(self@.env, true),
    {
        self.env_as_texts(true)
    }

    /// All environment variables in the order of their keys, leaving out what
    /// is not well-formed text.
    pub fn iter_full_env_as_str(&self) -> (r: Vec<(String, String)>)
        ensures
            is_kept(self@.platform, self@.env),
            text_pairs(r@) == env_texts(self@.env, false),
    {
        self.env_as_texts(false)
    }

    /// The command and its arguments as one line, quoted per the conventions
    /// of Unix shells.
    pub fn as_unix_command_line(&self) -> (r: Result<String, Error>)
        ensures
            match r {
                Ok(line) => all_text(self@.argv) && line@ == quoted_line(
                    argument_texts(self@.argv),
                ),
                Err(error) => !all_text(self@.argv) && error@ == ErrorView::InvalidUtf8,
            },
    {
        let mut words: Vec<String> = Vec::new();
        assert(texts(words@) =~= argument_texts(self@.argv.take(0)));
        for i in 0..self.args.len()
            invariant
                self@.argv == os_views(self.args@),
                texts(words@) == argument_texts(self@.argv.take(i as int)),
                forall|j: int| 0 <= j < i ==> valid_utf8(#[trigger] self@.argv[j]),
        {
            let ghost before = words@;
            assert(self.args@[i as int]@ == self@.argv[i as int]);
            match self.args[i].to_text() {
                Some(word) => {
                    words.push(word);
                    assert(texts(words@) =~= texts(before).push(decode_utf8(self@.argv[i as int])));
                    assert(argument_texts(self@.argv.take(i + 1)) =~= argument_texts(
                        self@.argv.take(i as int),
                    ).push(decode_utf8(self@.argv[i as int])));
                },
                None => {
                    return Err(Error::InvalidUtf8);
                },
            }
        }
        assert(self@.argv.take(self@.argv.len() as int) =~= self@.argv);
        Ok(join_words(&words))
    }

    /// Registers something to be called in the child between fork and exec,
    /// after everything else that is set up there.
    pub fn pre_exec(&mut self, hook: usize)
        ensures
            final(self)@ == (BuilderView { hooks: old(self)@.hooks.push(hook), ..old(self)@ }),
    {
        self.pre_exec_hooks.push(hook);
    }

    /// What is to be called in the child, in the order of registration.
    pub fn hooks(&self) -> (r: &Vec<usize>)
        ensures
            r@ == self@.hooks,
    {
        &self.pre_exec_hooks
    }

    /// Sets the file mode mask of the child, or leaves it alone.
    pub fn umask(&mut self, mask: Option<u32>)
        ensures
            final(self)@ == (BuilderView { umask: mask, ..old(self)@ }),
    {
        self.umask = mask;
    }

    /// The file mode mask of the child, if one was set.
    pub fn get_umask(&self) -> (r: Option<u32>)
        ensures
            r == self@.umask,
    {
        self.umask
    }

    /// The search path for programs.
    pub fn resolve_path(&self) -> (r: Option<&OsString>)
        ensures
            match r {
                Some(value) => env_value(self@, encode_utf8("PATH"@)) == Some(value@),
                None => env_value(self@, encode_utf8("PATH"@)) is None,
            },
    {
        self.get_env(&OsString::from_text("PATH"))
    }
}

/// A copy has everything but the calls in the child, which cannot be copied.
impl Clone for CommandBuilder {
    fn clone(&self) -> (r: Self)
        ensures
            r@ == copy_of(self@),
    {
        let copy = CommandBuilder {
            environment: self.environment.clone(),
            args: copy_list(self.args.as_slice()),
            default_prog: self.default_prog,
            cwd: match &self.cwd {
                Some(dir) => Some(dir.clone()),
                None => None,
            },
            umask: self.umask,
            controlling_tty: self.controlling_tty,
            pre_exec_hooks: Vec::new(),
        };
        assert(copy@.hooks =~= seq![]);
        copy
    }
}

/// Whether two optional strings are the same.
fn same_optional(a: &Option<OsString>, b: &Option<OsString>) -> (r: bool)
    ensures
        r == (optional_view(*a) == optional_view(*b)),
{
    match (a, b) {
        (Some(x), Some(y)) => *x == *y,
        (None, None) => true,
        _ => false,
    }
}

/// Builders are equal when program and arguments, environment, directory, file
/// mode mask and controlling terminal are.
impl PartialEq for CommandBuilder {
    fn eq(&self, other: &CommandBuilder) -> (r: bool) {
        let same_mask = match (self.umask, other.umask) {
            (Some(x), Some(y)) => x == y,
            (None, None) => true,
            _ => false,
        };
        self.environment == other.environment && lists_equal(
            self.args.as_slice(),
            other.args.as_slice(),
        ) && same_optional(&self.cwd, &other.cwd) && same_mask && self.controlling_tty
            == other.controlling_tty
    }
}

impl vstd::std_specs::cmp::PartialEqSpecImpl for CommandBuilder {
    open spec fn obeys_eq_spec() -> bool {
        true
    }

    open spec fn eq_spec(&self, other: &CommandBuilder) -> bool {
        same_command(self@, other@)
    }
}

} // verus!

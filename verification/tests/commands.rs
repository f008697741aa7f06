use xpty::base_env::{expanded_string, BaseEnv, RegistryValue};
use xpty::cmdbuilder::CommandBuilder;
use xpty::env::{EnvEntry, EnvMap, Platform};
use xpty::error::Error;
use xpty::os_string::OsString;
use xpty::path::is_cwd_relative_path;

fn os(text: &str) -> OsString {
    OsString::from_text(text)
}

fn pairs(list: &[(&str, &str)]) -> Vec<(OsString, OsString)> {
    list.iter().map(|(k, v)| (os(k), os(v))).collect()
}

fn base(platform: Platform) -> BaseEnv {
    BaseEnv::from_vars(
        platform,
        &pairs(&[
            ("CARGO_PKG_NAME", "xpty"),
            ("CARGO_PKG_AUTHORS", "Wez Furlong"),
            ("PATH", "/usr/bin:/bin"),
        ]),
    )
}

fn strs(list: &[(String, String)]) -> Vec<(&str, &str)> {
    list.iter().map(|(k, v)| (k.as_str(), v.as_str())).collect()
}

fn value(cmd: &CommandBuilder, name: &str) -> Option<String> {
    cmd.get_env(&os(name)).map(|v| v.display())
}

#[test]
fn test_cwd_relative() {
    assert!(is_cwd_relative_path(&os(".")));
    assert!(is_cwd_relative_path(&os("./foo")));
    assert!(is_cwd_relative_path(&os("../foo")));
    assert!(!is_cwd_relative_path(&os("foo")));
    assert!(!is_cwd_relative_path(&os("/foo")));
}

#[test]
fn cwd_relative_looks_at_whole_components() {
    assert!(is_cwd_relative_path(&os("..")));
    assert!(!is_cwd_relative_path(&os(".foo")));
    assert!(!is_cwd_relative_path(&os("...")));
    assert!(!is_cwd_relative_path(&os("")));
    assert!(!is_cwd_relative_path(&os("foo/..")));
}

#[test]
fn test_env() {
    let mut cmd = CommandBuilder::new(os("dummy"), &base(Platform::Unix));
    let package_name = cmd.get_env(&os("CARGO_PKG_NAME"));
    assert_eq!(package_name, Some(&os("xpty")));

    cmd.env(os("foo key"), os("foo value"));
    cmd.env(os("bar key"), os("bar value"));

    let iterated_envs = cmd.iter_extra_env_as_str();
    assert_eq!(
        strs(&iterated_envs),
        vec![("bar key", "bar value"), ("foo key", "foo value")]
    );

    {
        let mut cmd = cmd.clone();
        cmd.env_remove(&os("foo key"));
        let iterated_envs = cmd.iter_extra_env_as_str();
        assert_eq!(strs(&iterated_envs), vec![("bar key", "bar value")]);
    }

    {
        let mut cmd = cmd.clone();
        cmd.env_remove(&os("bar key"));
        let iterated_envs = cmd.iter_extra_env_as_str();
        assert_eq!(strs(&iterated_envs), vec![("foo key", "foo value")]);
    }

    {
        let mut cmd = cmd.clone();
        cmd.env_clear();
        let iterated_envs = cmd.iter_extra_env_as_str();
        assert!(iterated_envs.is_empty());
    }
}

#[test]
fn test_env_case_insensitive_override() {
    let mut cmd = CommandBuilder::new(os("dummy"), &base(Platform::Windows));
    cmd.env(os("Cargo_Pkg_Authors"), os("Not Wez"));
    assert!(cmd.get_env(&os("cargo_pkg_authors")) == Some(&os("Not Wez")));

    cmd.env_remove(&os("cARGO_pKG_aUTHORS"));
    assert!(cmd.get_env(&os("CARGO_PKG_AUTHORS")).is_none());
}

#[test]
fn case_counts_on_unix() {
    let mut cmd = CommandBuilder::new(os("dummy"), &base(Platform::Unix));
    cmd.env(os("Cargo_Pkg_Authors"), os("Not Wez"));
    assert_eq!(value(&cmd, "CARGO_PKG_AUTHORS").as_deref(), Some("Wez Furlong"));
    assert_eq!(value(&cmd, "Cargo_Pkg_Authors").as_deref(), Some("Not Wez"));
    assert!(cmd.get_env(&os("cargo_pkg_authors")).is_none());
}

#[test]
fn lower_case_goes_beyond_ascii() {
    let mut cmd = CommandBuilder::new(os("dummy"), &base(Platform::Windows));
    cmd.env(os("\u{c4}PFEL"), os("1"));
    assert_eq!(value(&cmd, "\u{e4}pfel").as_deref(), Some("1"));
    let bad = OsString::from_bytes(vec![0x41, 0xed, 0xa0, 0x80]);
    cmd.env(bad.clone(), os("2"));
    assert_eq!(cmd.get_env(&bad), Some(&os("2")));
    let small = OsString::from_bytes(vec![0x61, 0xed, 0xa0, 0x80]);
    assert!(cmd.get_env(&small).is_none());
}

#[test]
fn test_command_builder_env() {
    let mut cmd = CommandBuilder::new(os("test"), &base(Platform::Unix));
    cmd.env(os("MY_VAR"), os("my_value"));
    assert_eq!(cmd.get_env(&os("MY_VAR")), Some(&os("my_value")));

    cmd.env_remove(&os("MY_VAR"));
    assert_eq!(cmd.get_env(&os("MY_VAR")), None);
}

#[test]
fn test_command_builder_cwd() {
    let mut cmd = CommandBuilder::new(os("test"), &base(Platform::Unix));
    assert!(cmd.get_cwd().is_none());

    cmd.cwd(os("/tmp"));
    assert_eq!(cmd.get_cwd(), Some(&os("/tmp")));

    cmd.clear_cwd();
    assert!(cmd.get_cwd().is_none());
}

#[test]
fn new_command_has_only_base_variables() {
    let cmd = CommandBuilder::new(os("ls"), &base(Platform::Unix));
    assert!(cmd.iter_extra_env_as_str().is_empty());
    assert_eq!(
        strs(&cmd.iter_full_env_as_str()),
        vec![
            ("CARGO_PKG_AUTHORS", "Wez Furlong"),
            ("CARGO_PKG_NAME", "xpty"),
            ("PATH", "/usr/bin:/bin"),
        ]
    );
}

#[test]
fn overridden_base_variable_is_extra() {
    let mut cmd = CommandBuilder::new(os("ls"), &base(Platform::Unix));
    cmd.env(os("PATH"), os("/bin"));
    assert_eq!(strs(&cmd.iter_extra_env_as_str()), vec![("PATH", "/bin")]);
    assert_eq!(cmd.iter_full_env_as_str().len(), 3);
}

#[test]
fn extra_variables_are_listed_once_in_order() {
    let mut cmd = CommandBuilder::new(os("ls"), &base(Platform::Windows));
    cmd.env(os("zeta"), os("1"));
    cmd.env(os("Alpha"), os("2"));
    cmd.env(os("ZETA"), os("3"));
    cmd.env(os("gone"), os("4"));
    cmd.env_remove(&os("Gone"));
    cmd.env(os("path"), os("/usr/bin:/bin"));
    assert_eq!(
        strs(&cmd.iter_extra_env_as_str()),
        vec![("Alpha", "2"), ("path", "/usr/bin:/bin"), ("ZETA", "3")]
    );
    assert_eq!(
        strs(&cmd.iter_full_env_as_str()),
        vec![
            ("Alpha", "2"),
            ("CARGO_PKG_AUTHORS", "Wez Furlong"),
            ("CARGO_PKG_NAME", "xpty"),
            ("path", "/usr/bin:/bin"),
            ("ZETA", "3"),
        ]
    );
    cmd.env_clear();
    cmd.env(os("B"), os("5"));
    assert_eq!(strs(&cmd.iter_extra_env_as_str()), vec![("B", "5")]);
}

#[test]
fn what_is_no_text_is_not_listed() {
    let mut cmd = CommandBuilder::new(os("ls"), &base(Platform::Unix));
    cmd.env_clear();
    cmd.env(os("A"), OsString::from_bytes(vec![0xff]));
    cmd.env(OsString::from_bytes(vec![0xfe]), os("x"));
    cmd.env(os("B"), os("\u{e9}"));
    assert_eq!(strs(&cmd.iter_full_env_as_str()), vec![("B", "\u{e9}")]);
    assert_eq!(cmd.get_env_text("A"), None);
    assert_eq!(cmd.get_env_text("B").as_deref(), Some("\u{e9}"));
    assert_eq!(cmd.get_env(&os("A")).map(|v| v.len()), Some(1));
}

#[test]
fn default_program_takes_its_place() {
    let env = base(Platform::Unix);
    let mut cmd = CommandBuilder::new_default_prog(&env);
    assert!(cmd.is_default_prog());
    assert!(cmd.get_controlling_tty());
    cmd.replace_default_prog(vec![os("ls"), os("-l")]);
    assert!(!cmd.is_default_prog());
    cmd.arg(os("a"));
    cmd.args(vec![os("b"), os("c")]);
    let argv: Vec<String> = cmd.get_argv().iter().map(|a| a.display()).collect();
    assert_eq!(argv, vec!["ls", "-l", "a", "b", "c"]);
    cmd.get_argv_mut().pop();
    assert_eq!(cmd.get_argv().len(), 4);
    assert!(cmd.was_default_prog());
}

#[test]
fn only_a_builder_made_for_it_runs_the_default_program() {
    let env = base(Platform::Unix);
    let mut cmd = CommandBuilder::from_argv(Vec::new(), &env);
    assert!(!cmd.is_default_prog());
    cmd.arg(os("ls"));
    assert_eq!(cmd.get_argv(), &[os("ls")][..]);
    cmd.get_argv_mut().clear();
    assert!(!cmd.is_default_prog());
    let mut default = CommandBuilder::new_default_prog(&env);
    default.replace_default_prog(Vec::new());
    assert!(default.is_default_prog());
    assert!(default.clone().is_default_prog());
    assert!(default == cmd);
    let mut replaced = CommandBuilder::new_default_prog(&env);
    replaced.replace_default_prog(vec![os("x")]);
    assert!(replaced == CommandBuilder::new(os("x"), &env));
    assert!(replaced != default);
}

#[test]
fn command_line_is_quoted_for_the_shell() {
    let env = base(Platform::Unix);
    let mut cmd = CommandBuilder::new(os("echo"), &env);
    cmd.args(vec![os("hello world"), os(""), os("it's"), os("a=b"), os("a-b/c.d")]);
    assert_eq!(
        cmd.as_unix_command_line().unwrap(),
        "echo 'hello world' '' 'it'\\''s' 'a=b' a-b/c.d"
    );
    cmd.arg(OsString::from_bytes(vec![0xff]));
    assert!(matches!(cmd.as_unix_command_line(), Err(Error::InvalidUtf8)));
    assert_eq!(CommandBuilder::new_default_prog(&env).as_unix_command_line().unwrap(), "");
}

#[test]
fn copy_of_a_command_drops_the_hooks() {
    let mut cmd = CommandBuilder::new(os("ls"), &base(Platform::Unix));
    cmd.umask(Some(0o22));
    cmd.set_controlling_tty(false);
    assert!(cmd.clone() == cmd);
    cmd.pre_exec(7);
    cmd.pre_exec(3);
    assert_eq!(cmd.hooks(), &vec![7, 3]);
    let copy = cmd.clone();
    assert!(copy.hooks().is_empty());
    assert!(copy == cmd);
    let mut other = cmd.clone();
    other.set_controlling_tty(true);
    assert!(other != cmd);
    assert_eq!(copy.get_umask(), Some(0o22));
    assert!(!copy.get_controlling_tty());
}

#[test]
fn base_environment_gets_a_shell_on_unix() {
    let mut env = base(Platform::Unix);
    assert!(env.needs_shell());
    env.set_shell("/bin/zsh");
    assert!(!env.needs_shell());
    env.set_shell("/bin/sh");
    let cmd = CommandBuilder::new(os("ls"), &env);
    assert_eq!(value(&cmd, "SHELL").as_deref(), Some("/bin/zsh"));
    assert!(cmd.iter_extra_env_as_str().is_empty());
    let mut windows = base(Platform::Windows);
    assert!(!windows.needs_shell());
    windows.set_shell("/bin/sh");
    assert!(CommandBuilder::new(os("ls"), &windows).get_env(&os("SHELL")).is_none());
}

#[test]
fn registry_is_taken_over() {
    let entry = |name: &str, value: Option<&str>| RegistryValue {
        name: os(name),
        value: value.map(os),
    };
    let env = BaseEnv::on_windows(
        &pairs(&[("Path", "C:\\a"), ("X", "1")]),
        &vec![
            entry("UserName", Some("SYSTEM")),
            entry("PATH", Some("C:\\sys")),
            entry("broken", None),
        ],
        &vec![
            entry("path", Some("C:\\user")),
            entry("x", Some("2")),
            entry("USERNAME", Some("me")),
        ],
    );
    assert_eq!(env.platform(), Platform::Windows);
    let cmd = CommandBuilder::new(os("cmd"), &env);
    assert_eq!(value(&cmd, "Path").as_deref(), Some("C:\\sys;C:\\user"));
    assert_eq!(value(&cmd, "X").as_deref(), Some("2"));
    assert_eq!(value(&cmd, "username").as_deref(), Some("me"));
    assert!(cmd.get_env(&os("broken")).is_none());
    assert_eq!(
        strs(&cmd.iter_full_env_as_str()),
        vec![("path", "C:\\sys;C:\\user"), ("USERNAME", "me"), ("x", "2")]
    );

    let mut plain = BaseEnv::from_vars(Platform::Windows, &pairs(&[]));
    plain.add_user_values(&vec![entry("PATH", Some("C:\\user"))]);
    let cmd = CommandBuilder::new(os("cmd"), &plain);
    assert_eq!(value(&cmd, "path").as_deref(), Some("C:\\user"));
}

#[test]
fn buffer_from_windows_loses_its_padding() {
    assert_eq!(expanded_string(&[0x43, 0x3a, 0, 0]), os("C:"));
    assert_eq!(expanded_string(&[0, 0]), os(""));
    assert_eq!(expanded_string(&[0x43, 0, 0x3a]).as_bytes(), &[0x43u8, 0, 0x3a][..]);
}

#[test]
fn variables_stay_in_order() {
    let entry = |value: &str| EnvEntry {
        is_from_base_env: false,
        preferred_key: os("n"),
        value: os(value),
    };
    let mut map = EnvMap::new();
    map.insert(os("b"), entry("2"));
    map.insert(os("a"), entry("1"));
    map.insert(os("ab"), entry("3"));
    map.insert(os("b"), entry("4"));
    assert_eq!(map.len(), 3);
    let values: Vec<String> = (0..map.len()).map(|i| map.entry(i).value.display()).collect();
    assert_eq!(values, vec!["1", "3", "4"]);
    let copy = map.clone();
    assert!(copy == map);
    map.remove(&os("ab"));
    map.remove(&os("nothing"));
    assert_eq!(map.len(), 2);
    assert!(copy != map);
    assert!(map.get(&os("ab")).is_none());
    assert_eq!(map.get(&os("b")).map(|e| e.value.display()).as_deref(), Some("4"));
    assert_eq!(EnvEntry::map_key(Platform::Windows, &os("PATH")), os("path"));
    assert_eq!(EnvEntry::map_key(Platform::Unix, &os("PATH")), os("PATH"));
}

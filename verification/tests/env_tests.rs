use qtbridge::env::{Env, Error, ExplicitEnv};

fn var(name: &str, value: &str) -> (String, Vec<u8>) {
    (name.to_string(), value.as_bytes().to_vec())
}

fn lookup(vars: &[(String, Vec<u8>)], name: &str) -> Option<Vec<u8>> {
    vars.iter().find(|(k, _)| k == name).map(|(_, v)| v.clone())
}

fn sorted_names(env: &Env) -> Vec<String> {
    let mut names: Vec<String> = env.explicit_env().into_iter().map(|(k, _)| k).collect();
    names.sort();
    names
}

fn base_env() -> Env {
    let process = vec![var("HOME", "/home/u"), var("PATH", "/usr/bin:/bin")];
    Env::new(&process).unwrap()
}

#[test]
fn new_takes_home_and_path() {
    let env = base_env();
    assert_eq!(sorted_names(&env), vec!["HOME".to_string(), "PATH".to_string()]);
    assert_eq!(env.path(), &b"/usr/bin:/bin".to_vec());
    let vars = env.explicit_env();
    assert_eq!(lookup(&vars, "HOME"), Some(b"/home/u".to_vec()));
}

#[test]
fn new_forwards_only_the_allowlist() {
    let process = vec![
        var("EDITOR", "vi"),
        var("HOME", "/root"),
        var("TERM", "xterm"),
        var("QMAKE", "/opt/qt/ios/bin/qmake"),
        var("PATH", "/bin"),
        var("CARGO_HOME", "/c"),
        var("SSH_AUTH_SOCK", "/tmp/agent"),
    ];
    let env = Env::new(&process).unwrap();
    assert_eq!(
        sorted_names(&env),
        vec!["HOME", "PATH", "QMAKE", "SSH_AUTH_SOCK", "TERM"]
            .into_iter()
            .map(String::from)
            .collect::<Vec<_>>()
    );
    let vars = env.explicit_env();
    assert_eq!(lookup(&vars, "QMAKE"), Some(b"/opt/qt/ios/bin/qmake".to_vec()));
    assert_eq!(lookup(&vars, "TERM"), Some(b"xterm".to_vec()));
    assert_eq!(lookup(&vars, "EDITOR"), None);
}

#[test]
fn new_skips_unset_optional_vars() {
    let process = vec![var("PATH", "/bin"), var("HOME", "/h"), var("TERM", "dumb")];
    let env = Env::new(&process).unwrap();
    assert_eq!(
        sorted_names(&env),
        vec!["HOME".to_string(), "PATH".to_string(), "TERM".to_string()]
    );
}

#[test]
fn new_reads_the_first_of_a_name() {
    let process = vec![var("HOME", "/first"), var("PATH", "/bin"), var("HOME", "/second")];
    let env = Env::new(&process).unwrap();
    assert_eq!(lookup(&env.explicit_env(), "HOME"), Some(b"/first".to_vec()));
}

#[test]
fn new_keeps_non_utf8_values() {
    let process = vec![
        ("HOME".to_string(), vec![0x2f, 0xff, 0xfe]),
        ("PATH".to_string(), vec![0x2f, 0x80]),
    ];
    let env = Env::new(&process).unwrap();
    assert_eq!(env.path(), &vec![0x2f, 0x80]);
    assert_eq!(lookup(&env.explicit_env(), "HOME"), Some(vec![0x2f, 0xff, 0xfe]));
}

#[test]
fn new_without_home_fails_on_home() {
    let process = vec![var("PATH", "/bin")];
    assert!(matches!(Env::new(&process), Err(Error::NotSet("HOME"))));
}

#[test]
fn new_without_path_fails_on_path() {
    let process = vec![var("HOME", "/h"), var("TERM", "xterm")];
    assert!(matches!(Env::new(&process), Err(Error::NotSet("PATH"))));
}

#[test]
fn new_without_either_fails_on_home_first() {
    let process: Vec<(String, Vec<u8>)> = vec![var("TERM", "xterm")];
    assert!(matches!(Env::new(&process), Err(Error::NotSet("HOME"))));
}

#[test]
fn error_text_names_the_variable() {
    assert_eq!(
        Error::NotSet("HOME").to_string(),
        "The `HOME` environment variable isn't set, which is quite weird"
    );
    assert_eq!(
        Error::NotSet("PATH").to_string(),
        "The `PATH` environment variable isn't set, which is quite weird"
    );
}

#[test]
fn prepend_to_path_puts_dir_first() {
    let env = base_env().prepend_to_path(b"/opt/sdk/bin");
    assert_eq!(env.path(), &b"/opt/sdk/bin:/usr/bin:/bin".to_vec());
    let env = env.prepend_to_path(b"/x");
    assert_eq!(env.path(), &b"/x:/opt/sdk/bin:/usr/bin:/bin".to_vec());
    assert_eq!(sorted_names(&env), vec!["HOME".to_string(), "PATH".to_string()]);
}

#[test]
fn prepend_empty_dir_still_adds_separator() {
    let env = base_env().prepend_to_path(b"");
    assert_eq!(env.path(), &b":/usr/bin:/bin".to_vec());
}

#[test]
fn insert_env_var_adds_and_replaces() {
    let mut env = base_env();
    env.insert_env_var("ANDROID_HOME".to_string(), b"/sdk".to_vec());
    assert_eq!(lookup(&env.explicit_env(), "ANDROID_HOME"), Some(b"/sdk".to_vec()));
    env.insert_env_var("ANDROID_HOME".to_string(), b"/sdk2".to_vec());
    assert_eq!(lookup(&env.explicit_env(), "ANDROID_HOME"), Some(b"/sdk2".to_vec()));
    assert_eq!(env.explicit_env().len(), 3);
}

#[test]
fn insert_env_var_can_replace_path() {
    let mut env = base_env();
    env.insert_env_var("PATH".to_string(), b"/only".to_vec());
    assert_eq!(env.path(), &b"/only".to_vec());
    assert_eq!(env.explicit_env().len(), 2);
}

#[test]
fn explicit_env_vars_override_existing() {
    let env = base_env().explicit_env_vars(vec![
        var("HOME", "/other"),
        var("RUSTFLAGS", "-C opt-level=3"),
    ]);
    let vars = env.explicit_env();
    assert_eq!(vars.len(), 3);
    assert_eq!(lookup(&vars, "HOME"), Some(b"/other".to_vec()));
    assert_eq!(lookup(&vars, "RUSTFLAGS"), Some(b"-C opt-level=3".to_vec()));
    assert_eq!(env.path(), &b"/usr/bin:/bin".to_vec());
}

#[test]
fn explicit_env_vars_later_entry_wins() {
    let env = base_env().explicit_env_vars(vec![var("A", "1"), var("A", "2")]);
    assert_eq!(lookup(&env.explicit_env(), "A"), Some(b"2".to_vec()));
    assert_eq!(env.explicit_env().len(), 3);
}

#[test]
fn explicit_env_vars_with_nothing_changes_nothing() {
    let env = base_env().explicit_env_vars(Vec::new());
    assert_eq!(sorted_names(&env), vec!["HOME".to_string(), "PATH".to_string()]);
}

#[test]
fn explicit_env_round_trips() {
    let env = base_env();
    let again = base_env().explicit_env_vars(env.explicit_env());
    let mut a = env.explicit_env();
    let mut b = again.explicit_env();
    a.sort();
    b.sort();
    assert_eq!(a, b);
}

#[test]
fn clone_keeps_the_variables() {
    let mut env = base_env();
    let copy = env.clone();
    env.insert_env_var("X".to_string(), b"1".to_vec());
    let mut names = copy.explicit_env().into_iter().map(|(k, _)| k).collect::<Vec<_>>();
    names.sort();
    assert_eq!(names, vec!["HOME".to_string(), "PATH".to_string()]);
    assert_eq!(copy.path(), env.path());
}

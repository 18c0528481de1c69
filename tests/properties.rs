use systemd_directories::{
    cache_dirs, list_for, primary_for, runtime_dir, runtime_dirs, state_dir, state_dirs,
    Category, ColonSeparatedPaths, Environment, SystemdDirs,
};

fn all_categories() -> Vec<Category> {
    vec![
        Category::Runtime,
        Category::State,
        Category::Cache,
        Category::Logs,
        Category::Configuration,
    ]
}

fn split(s: &str) -> Vec<String> {
    ColonSeparatedPaths::new(s.to_string()).iter()
}

#[test]
fn split_drops_doubled_colon() {
    assert_eq!(split("a::b"), vec!["a".to_string(), "b".to_string()]);
}

#[test]
fn split_drops_leading_and_trailing_colons() {
    assert_eq!(split(":a:"), vec!["a".to_string()]);
}

#[test]
fn split_empty_and_colons_only() {
    assert!(split("").is_empty());
    assert!(split(":").is_empty());
    assert!(split(":::").is_empty());
}

#[test]
fn split_keeps_order_and_text() {
    assert_eq!(
        split("/c:/a:/b"),
        vec!["/c".to_string(), "/a".to_string(), "/b".to_string()]
    );
    assert_eq!(split("/srv/dätä dir"), vec!["/srv/dätä dir".to_string()]);
    assert_eq!(split("é:ü"), vec!["é".to_string(), "ü".to_string()]);
}

#[test]
fn variable_names_are_fixed() {
    assert_eq!(Category::Runtime.var_name(), "RUNTIME_DIRECTORY");
    assert_eq!(Category::State.var_name(), "STATE_DIRECTORY");
    assert_eq!(Category::Cache.var_name(), "CACHE_DIRECTORY");
    assert_eq!(Category::Logs.var_name(), "LOGS_DIRECTORY");
    assert_eq!(Category::Configuration.var_name(), "CONFIGURATION_DIRECTORY");
}

#[test]
fn environment_set_replace_remove() {
    let mut env = Environment::new();
    assert_eq!(env.var("X"), None);
    env.set_var("X", "1");
    env.set_var("Y", "2");
    assert_eq!(env.var("X"), Some("1".to_string()));
    env.set_var("X", "3");
    assert_eq!(env.var("X"), Some("3".to_string()));
    assert_eq!(env.var("Y"), Some("2".to_string()));
    env.remove_var("X");
    assert_eq!(env.var("X"), None);
    assert_eq!(env.var("Y"), Some("2".to_string()));
    env.remove_var("X");
    assert_eq!(env.var("Y"), Some("2".to_string()));
}

#[test]
fn from_env_key_reads_the_named_variable() {
    let mut env = Environment::new();
    env.set_var("SOME_LIST", "/x::/y");
    assert_eq!(
        ColonSeparatedPaths::from_env_key(&env, "SOME_LIST").iter(),
        vec!["/x".to_string(), "/y".to_string()]
    );
    assert!(ColonSeparatedPaths::from_env_key(&env, "OTHER").iter().is_empty());
}

#[test]
fn single_value_is_whole_list_and_primary() {
    for c in all_categories() {
        let mut env = Environment::new();
        env.set_var(c.var_name(), "/only/one");
        assert_eq!(list_for(&env, c), vec!["/only/one".to_string()]);
        assert_eq!(primary_for(&env, c), Some("/only/one".to_string()));
        let snap = SystemdDirs::new(&env);
        assert_eq!(snap.list(c), vec!["/only/one"]);
        assert_eq!(snap.primary(c), Some("/only/one"));
    }
}

#[test]
fn empty_value_gives_no_directory() {
    let mut env = Environment::new();
    env.set_var("RUNTIME_DIRECTORY", "");
    assert!(runtime_dirs(&env).is_empty());
    assert_eq!(runtime_dir(&env), None);
}

#[test]
fn unset_gives_empty_live_and_in_snapshot() {
    for c in all_categories() {
        let mut env = Environment::new();
        env.set_var(c.var_name(), "/some/where");
        env.remove_var(c.var_name());
        assert!(list_for(&env, c).is_empty());
        assert_eq!(primary_for(&env, c), None);
        let snap = SystemdDirs::new(&env);
        assert!(snap.list(c).is_empty());
        assert_eq!(snap.primary(c), None);
    }
}

#[test]
fn primary_is_first_of_list() {
    let mut env = Environment::new();
    env.set_var("LOGS_DIRECTORY", "::/log/b:/log/a");
    let all = list_for(&env, Category::Logs);
    assert_eq!(all, vec!["/log/b".to_string(), "/log/a".to_string()]);
    assert_eq!(primary_for(&env, Category::Logs), Some(all[0].clone()));
    env.set_var("LOGS_DIRECTORY", ":");
    assert!(list_for(&env, Category::Logs).is_empty());
    assert_eq!(primary_for(&env, Category::Logs), None);
}

#[test]
fn snapshot_is_isolated_from_later_changes() {
    let mut env = Environment::new();
    env.set_var("STATE_DIRECTORY", "/x");
    let snap = SystemdDirs::new(&env);
    env.set_var("STATE_DIRECTORY", "/y");
    assert_eq!(snap.state_dirs(), vec!["/x"]);
    assert_eq!(snap.state_dir(), Some("/x"));
    assert_eq!(state_dirs(&env), vec!["/y".to_string()]);
    assert_eq!(state_dir(&env), Some("/y".to_string()));
}

#[test]
fn end_to_end_runtime_scenario() {
    let mut env = Environment::new();
    env.set_var("RUNTIME_DIRECTORY", "/run/foo:/run/bar");
    assert_eq!(
        runtime_dirs(&env),
        vec!["/run/foo".to_string(), "/run/bar".to_string()]
    );
    assert_eq!(runtime_dir(&env), Some("/run/foo".to_string()));
    let first = SystemdDirs::new(&env);
    assert_eq!(first.runtime_dirs(), vec!["/run/foo", "/run/bar"]);
    assert_eq!(first.runtime_dir(), Some("/run/foo"));
    env.remove_var("RUNTIME_DIRECTORY");
    let second = SystemdDirs::new(&env);
    assert!(second.runtime_dirs().is_empty());
    assert_eq!(second.runtime_dir(), None);
    assert_eq!(first.runtime_dirs(), vec!["/run/foo", "/run/bar"]);
    assert_eq!(first.runtime_dir(), Some("/run/foo"));
}

#[test]
fn categories_are_independent() {
    let mut env = Environment::new();
    env.set_var("STATE_DIRECTORY", "/var/lib/s");
    env.set_var("CACHE_DIRECTORY", "/var/cache/c");
    assert_eq!(state_dirs(&env), vec!["/var/lib/s".to_string()]);
    assert_eq!(cache_dirs(&env), vec!["/var/cache/c".to_string()]);
    env.remove_var("CACHE_DIRECTORY");
    assert_eq!(state_dirs(&env), vec!["/var/lib/s".to_string()]);
    env.set_var("CACHE_DIRECTORY", "/elsewhere");
    env.remove_var("STATE_DIRECTORY");
    assert_eq!(cache_dirs(&env), vec!["/elsewhere".to_string()]);
    assert!(state_dirs(&env).is_empty());
}

#[test]
fn snapshot_accessors_match_categories() {
    let mut env = Environment::new();
    env.set_var("RUNTIME_DIRECTORY", "/r");
    env.set_var("STATE_DIRECTORY", "/s");
    env.set_var("CACHE_DIRECTORY", "/c");
    env.set_var("LOGS_DIRECTORY", "/l");
    env.set_var("CONFIGURATION_DIRECTORY", "/e1:/e2");
    let snap = SystemdDirs::new(&env);
    assert_eq!(snap.runtime_dir(), Some("/r"));
    assert_eq!(snap.state_dir(), Some("/s"));
    assert_eq!(snap.cache_dir(), Some("/c"));
    assert_eq!(snap.logs_dir(), Some("/l"));
    assert_eq!(snap.config_dir(), Some("/e1"));
    assert_eq!(snap.config_dirs(), vec!["/e1", "/e2"]);
    let copy = snap.clone();
    assert_eq!(copy.config_dirs(), vec!["/e1", "/e2"]);
}

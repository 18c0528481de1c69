//! Live queries: each reads its variable from the environment at the call.
use vstd::prelude::*;

use crate::environment::Environment;
use crate::paths::{lemma_segments_no_colon, path_list, primary_of, ColonSeparatedPaths};

verus! {

/// The five kinds of directory that the supervisor can allocate to a unit.
#[derive(Clone, Copy, Debug, PartialEq, Eq, Structural)]
pub enum Category {
    /// `RUNTIME_DIRECTORY`
    Runtime,
    /// `STATE_DIRECTORY`
    State,
    /// `CACHE_DIRECTORY`
    Cache,
    /// `LOGS_DIRECTORY`
    Logs,
    /// `CONFIGURATION_DIRECTORY`
    Configuration,
}

/// The name of the environment variable that holds the directories of `c`.
pub open spec fn var_name_of(c: Category) -> Seq<char> {
    match c {
        Category::Runtime => "RUNTIME_DIRECTORY"@,
        Category::State => "STATE_DIRECTORY"@,
        Category::Cache => "CACHE_DIRECTORY"@,
        Category::Logs => "LOGS_DIRECTORY"@,
        Category::Configuration => "CONFIGURATION_DIRECTORY"@,
    }
}

/// The directories of `c` in the environment `env`: none where its variable
/// is not set, else the paths of its value.
pub open spec fn list_of(env: Map<Seq<char>, Seq<char>>, c: Category) -> Seq<Seq<char>> {
    if env.contains_key(var_name_of(c)) {
        path_list(env[var_name_of(c)])
    } else {
        Seq::empty()
    }
}

impl Category {
    /// The name of the environment variable for this category.
    pub fn var_name(&self) -> (r: &'static str)
        ensures
            r@ == var_name_of(*self),
    {
        match self {
            Category::Runtime => "RUNTIME_DIRECTORY",
            Category::State => "STATE_DIRECTORY",
            Category::Cache => "CACHE_DIRECTORY",
            Category::Logs => "LOGS_DIRECTORY",
            Category::Configuration => "CONFIGURATION_DIRECTORY",
        }
    }
}

impl ColonSeparatedPaths {
    /// The list held by the variable `env_key` of `env`; an unset variable
    /// gives an empty list.
    pub fn from_env_key(env: &Environment, env_key: &str) -> (r: Self)
        ensures
            env@.contains_key(env_key@) ==> r@ == env@[env_key@],
            !env@.contains_key(env_key@) ==> r@.len() == 0,
    {
        match env.var(env_key) {
            Some(v) => ColonSeparatedPaths::new(v),
            None => ColonSeparatedPaths::new(String::new()),
        }
    }
}

/// All directories of category `c`, in order, as `env` holds them now.
pub fn list_for(env: &Environment, c: Category) -> (r: Vec<String>)
    ensures
        r@.map_values(|p: String| p@) == list_of(env@, c),
{
    let r = ColonSeparatedPaths::from_env_key(env, c.var_name()).iter();
    proof {
        let name = var_name_of(c);
        if !env@.contains_key(name) {
            crate::paths::lemma_path_list_empty();
        }
    }
    r
}

/// The first directory of category `c` as `env` holds it now, if there is one.
pub fn primary_for(env: &Environment, c: Category) -> (r: Option<String>)
    ensures
        match r {
            Some(p) => list_of(env@, c).len() > 0 && p@ == list_of(env@, c)[0],
            None => list_of(env@, c).len() == 0,
        },
{
    let all = list_for(env, c);
    if all.len() > 0 {
        assert(all@.map_values(|p: String| p@)[0] == all@[0]@);
        Some(all[0].clone())
    } else {
        None
    }
}

/// Distinct categories read distinct variables.
pub proof fn lemma_var_names_distinct(c: Category, d: Category)
    requires
        c != d,
    ensures
        var_name_of(c) != var_name_of(d),
{
    reveal_strlit("RUNTIME_DIRECTORY");
    reveal_strlit("STATE_DIRECTORY");
    reveal_strlit("CACHE_DIRECTORY");
    reveal_strlit("LOGS_DIRECTORY");
    reveal_strlit("CONFIGURATION_DIRECTORY");
    if var_name_of(c) == var_name_of(d) {
        assert(var_name_of(c).len() == var_name_of(d).len());
        assert(var_name_of(c)[0] == var_name_of(d)[0]);
    }
}

/// Setting a category's variable to one non-empty path without a colon makes
/// that path its whole list and its primary directory.
pub proof fn lemma_single_path(env: Map<Seq<char>, Seq<char>>, c: Category, v: Seq<char>)
    requires
        v.len() > 0,
        !v.contains(':'),
    ensures
        list_of(env.insert(var_name_of(c), v), c) == seq![v],
        primary_of(list_of(env.insert(var_name_of(c), v), c)) == Some(v),
{
    lemma_segments_no_colon(v);
    reveal_with_fuel(Seq::filter, 2);
    assert(path_list(v) =~= seq![v]);
}

/// Unsetting a category's variable leaves it no directories and no primary one.
pub proof fn lemma_unset_is_empty(env: Map<Seq<char>, Seq<char>>, c: Category)
    ensures
        list_of(env.remove(var_name_of(c)), c) == Seq::<Seq<char>>::empty(),
        primary_of(list_of(env.remove(var_name_of(c)), c)) == None::<Seq<char>>,
{
}

/// A list read while a category's variable holds `x` has the paths of `x`, and
/// keeps them as a value; once the variable is set to `y`, a new read has the
/// paths of `y`.
pub proof fn lemma_reads_follow_changes(
    env: Map<Seq<char>, Seq<char>>,
    c: Category,
    x: Seq<char>,
    y: Seq<char>,
)
    ensures
        list_of(env.insert(var_name_of(c), x), c) == path_list(x),
        list_of(env.insert(var_name_of(c), x).insert(var_name_of(c), y), c) == path_list(y),
{
}

/// Setting or unsetting one category's variable leaves every other
/// category's directories as they were.
pub proof fn lemma_categories_independent(
    env: Map<Seq<char>, Seq<char>>,
    c: Category,
    d: Category,
    v: Seq<char>,
)
    requires
        c != d,
    ensures
        list_of(env.insert(var_name_of(c), v), d) == list_of(env, d),
        list_of(env.remove(var_name_of(c)), d) == list_of(env, d),
{
    lemma_var_names_distinct(c, d);
}

/// All runtime directories, in order, from the variable `RUNTIME_DIRECTORY` of `env`:
/// empty where it is not set, else the paths of its colon-separated value.
pub fn runtime_dirs(env: &Environment) -> (r: Vec<String>)
    ensures
        r@.map_values(|p: String| p@) == list_of(env@, Category::Runtime),
{
    list_for(env, Category::Runtime)
}

/// The first runtime directory from the variable `RUNTIME_DIRECTORY` of `env`, or
/// `None` where it is not set or holds no path.
pub fn runtime_dir(env: &Environment) -> (r: Option<String>)
    ensures
        match r {
            Some(p) => list_of(env@, Category::Runtime).len() > 0 && p@ == list_of(
                env@,
                Category::Runtime,
            )[0],
            None => list_of(env@, Category::Runtime).len() == 0,
        },
{
    primary_for(env, Category::Runtime)
}

/// All state directories, in order, from the variable `STATE_DIRECTORY` of `env`:
/// empty where it is not set, else the paths of its colon-separated value.
pub fn state_dirs(env: &Environment) -> (r: Vec<String>)
    ensures
        r@.map_values(|p: String| p@) == list_of(env@, Category::State),
{
    list_for(env, Category::State)
}

/// The first state directory from the variable `STATE_DIRECTORY` of `env`, or
/// `None` where it is not set or holds no path.
pub fn state_dir(env: &Environment) -> (r: Option<String>)
    ensures
        match r {
            Some(p) => list_of(env@, Category::State).len() > 0 && p@ == list_of(
                env@,
                Category::State,
            )[0],
            None => list_of(env@, Category::State).len() == 0,
        },
{
    primary_for(env, Category::State)
}

/// All cache directories, in order, from the variable `CACHE_DIRECTORY` of `env`:
/// empty where it is not set, else the paths of its colon-separated value.
pub fn cache_dirs(env: &Environment) -> (r: Vec<String>)
    ensures
        r@.map_values(|p: String| p@) == list_of(env@, Category::Cache),
{
    list_for(env, Category::Cache)
}

/// The first cache directory from the variable `CACHE_DIRECTORY` of `env`, or
/// `None` where it is not set or holds no path.
pub fn cache_dir(env: &Environment) -> (r: Option<String>)
    ensures
        match r {
            Some(p) => list_of(env@, Category::Cache).len() > 0 && p@ == list_of(
                env@,
                Category::Cache,
            )[0],
            None => list_of(env@, Category::Cache).len() == 0,
        },
{
    primary_for(env, Category::Cache)
}

/// All logs directories, in order, from the variable `LOGS_DIRECTORY` of `env`:
/// empty where it is not set, else the paths of its colon-separated value.
pub fn logs_dirs(env: &Environment) -> (r: Vec<String>)
    ensures
        r@.map_values(|p: String| p@) == list_of(env@, Category::Logs),
{
    list_for(env, Category::Logs)
}

/// The first logs directory from the variable `LOGS_DIRECTORY` of `env`, or
/// `None` where it is not set or holds no path.
pub fn logs_dir(env: &Environment) -> (r: Option<String>)
    ensures
        match r {
            Some(p) => list_of(env@, Category::Logs).len() > 0 && p@ == list_of(
                env@,
                Category::Logs,
            )[0],
            None => list_of(env@, Category::Logs).len() == 0,
        },
{
    primary_for(env, Category::Logs)
}

/// All configuration directories, in order, from the variable `CONFIGURATION_DIRECTORY` of `env`:
/// empty where it is not set, else the paths of its colon-separated value.
pub fn config_dirs(env: &Environment) -> (r: Vec<String>)
    ensures
        r@.map_values(|p: String| p@) == list_of(env@, Category::Configuration),
{
    list_for(env, Category::Configuration)
}

/// The first configuration directory from the variable `CONFIGURATION_DIRECTORY` of `env`, or
/// `None` where it is not set or holds no path.
pub fn config_dir(env: &Environment) -> (r: Option<String>)
    ensures
        match r {
            Some(p) => list_of(env@, Category::Configuration).len() > 0 && p@ == list_of(
                env@,
                Category::Configuration,
            )[0],
            None => list_of(env@, Category::Configuration).len() == 0,
        },
{
    primary_for(env, Category::Configuration)
}

} // verus!

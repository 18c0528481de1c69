//! A snapshot of the directory lists of all categories, taken at one moment.
use vstd::prelude::*;

use crate::environment::Environment;
use crate::standalone::{
    cache_dirs, config_dirs, list_of, logs_dirs, runtime_dirs, state_dirs, Category,
};

verus! {

/// The directory lists of all five categories as they were when the snapshot
/// was taken. Later changes to the environment do not reach it.
#[derive(Debug, Clone)]
pub struct SystemdDirs {
    runtime_dirs: Vec<String>,
    state_dirs: Vec<String>,
    cache_dirs: Vec<String>,
    logs_dirs: Vec<String>,
    config_dirs: Vec<String>,
}

impl SystemdDirs {
    /// The list held for category `c`.
    pub closed spec fn captured(&self, c: Category) -> Seq<Seq<char>> {
        self.held(c)@.map_values(|p: String| p@)
    }

    spec fn held(&self, c: Category) -> Vec<String> {
        match c {
            Category::Runtime => self.runtime_dirs,
            Category::State => self.state_dirs,
            Category::Cache => self.cache_dirs,
            Category::Logs => self.logs_dirs,
            Category::Configuration => self.config_dirs,
        }
    }

    /// Takes a snapshot of `env`: reads each category's variable once and
    /// keeps its list.
    pub fn new(env: &Environment) -> (r: Self)
        ensures
            forall|c: Category| #[trigger] r.captured(c) == list_of(env@, c),
    {
        let r = SystemdDirs {
            runtime_dirs: runtime_dirs(env),
            state_dirs: state_dirs(env),
            cache_dirs: cache_dirs(env),
            logs_dirs: logs_dirs(env),
            config_dirs: config_dirs(env),
        };
        assert forall|c: Category| #[trigger] r.captured(c) == list_of(env@, c) by {
            match c {
                Category::Runtime => {},
                Category::State => {},
                Category::Cache => {},
                Category::Logs => {},
                Category::Configuration => {},
            }
        }
        r
    }

    /// The vector that holds the list of category `c`.
    fn dirs_of(&self, c: Category) -> (r: &Vec<String>)
        ensures
            r == self.held(c),
    {
        match c {
            Category::Runtime => &self.runtime_dirs,
            Category::State => &self.state_dirs,
            Category::Cache => &self.cache_dirs,
            Category::Logs => &self.logs_dirs,
            Category::Configuration => &self.config_dirs,
        }
    }

    /// Borrows each path of `dirs` as text.
    fn as_paths(dirs: &Vec<String>) -> (r: Vec<&str>)
        ensures
            r@.map_values(|p: &str| p@) == dirs@.map_values(|p: String| p@),
    {
        let mut r: Vec<&str> = Vec::new();
        let mut i: usize = 0;
        while i < dirs.len()
            invariant
                i <= dirs@.len(),
                r@.len() == i,
                r@.map_values(|p: &str| p@) == dirs@.take(i as int).map_values(|p: String| p@),
            decreases dirs@.len() - i,
        {
            let ghost before = r@;
            let p = dirs[i].as_str();
            r.push(p);
            proof {
                assert forall|j: int| 0 <= j < i implies #[trigger] r@[j]@ == dirs@[j]@ by {
                    assert(r@[j] == before[j]);
                    assert(before.map_values(|p: &str| p@)[j] == dirs@.take(i as int).map_values(
                        |p: String| p@,
                    )[j]);
                }
            }
            i = i + 1;
            assert(r@.map_values(|p: &str| p@) =~= dirs@.take(i as int).map_values(
                |p: String| p@,
            ));
        }
        assert(dirs@.take(i as int) =~= dirs@);
        r
    }

    /// The directories of category `c` in the snapshot, in order.
    pub fn list(&self, c: Category) -> (r: Vec<&str>)
        ensures
            r@.map_values(|p: &str| p@) == self.captured(c),
    {
        Self::as_paths(self.dirs_of(c))
    }

    /// The first directory of category `c` in the snapshot, if there is one.
    pub fn primary(&self, c: Category) -> (r: Option<&str>)
        ensures
            match r {
                Some(p) => self.captured(c).len() > 0 && p@ == self.captured(c)[0],
                None => self.captured(c).len() == 0,
            },
    {
        let dirs = self.dirs_of(c);
        if dirs.len() > 0 {
            Some(dirs[0].as_str())
        } else {
            None
        }
    }

    /// All runtime directories that `RUNTIME_DIRECTORY` held when the snapshot was taken.
    pub fn runtime_dirs(&self) -> (r: Vec<&str>)
        ensures
            r@.map_values(|p: &str| p@) == self.captured(Category::Runtime),
    {
        self.list(Category::Runtime)
    }

    /// The first runtime directory that `RUNTIME_DIRECTORY` held when the snapshot was
    /// taken, if there was one.
    pub fn runtime_dir(&self) -> (r: Option<&str>)
        ensures
            match r {
                Some(p) => self.captured(Category::Runtime).len() > 0 && p@ == self.captured(
                    Category::Runtime,
                )[0],
                None => self.captured(Category::Runtime).len() == 0,
            },
    {
        self.primary(Category::Runtime)
    }

    /// All state directories that `STATE_DIRECTORY` held when the snapshot was taken.
    pub fn state_dirs(&self) -> (r: Vec<&str>)
        ensures
            r@.map_values(|p: &str| p@) == self.captured(Category::State),
    {
        self.list(Category::State)
    }

    /// The first state directory that `STATE_DIRECTORY` held when the snapshot was
    /// taken, if there was one.
    pub fn state_dir(&self) -> (r: Option<&str>)
        ensures
            match r {
                Some(p) => self.captured(Category::State).len() > 0 && p@ == self.captured(
                    Category::State,
                )[0],
                None => self.captured(Category::State).len() == 0,
            },
    {
        self.primary(Category::State)
    }

    /// All cache directories that `CACHE_DIRECTORY` held when the snapshot was taken.
    pub fn cache_dirs(&self) -> (r: Vec<&str>)
        ensures
            r@.map_values(|p: &str| p@) == self.captured(Category::Cache),
    {
        self.list(Category::Cache)
    }

    /// The first cache directory that `CACHE_DIRECTORY` held when the snapshot was
    /// taken, if there was one.
    pub fn cache_dir(&self) -> (r: Option<&str>)
        ensures
            match r {
                Some(p) => self.captured(Category::Cache).len() > 0 && p@ == self.captured(
                    Category::Cache,
                )[0],
                None => self.captured(Category::Cache).len() == 0,
            },
    {
        self.primary(Category::Cache)
    }

    /// All logs directories that `LOGS_DIRECTORY` held when the snapshot was taken.
    pub fn logs_dirs(&self) -> (r: Vec<&str>)
        ensures
            r@.map_values(|p: &str| p@) == self.captured(Category::Logs),
    {
        self.list(Category::Logs)
    }

    /// The first logs directory that `LOGS_DIRECTORY` held when the snapshot was
    /// taken, if there was one.
    pub fn logs_dir(&self) -> (r: Option<&str>)
        ensures
            match r {
                Some(p) => self.captured(Category::Logs).len() > 0 && p@ == self.captured(
                    Category::Logs,
                )[0],
                None => self.captured(Category::Logs).len() == 0,
            },
    {
        self.primary(Category::Logs)
    }

    /// All configuration directories that `CONFIGURATION_DIRECTORY` held when the snapshot was taken.
    pub fn config_dirs(&self) -> (r: Vec<&str>)
        ensures
            r@.map_values(|p: &str| p@) == self.captured(Category::Configuration),
    {
        self.list(Category::Configuration)
    }

    /// The first configuration directory that `CONFIGURATION_DIRECTORY` held when the snapshot was
    /// taken, if there was one.
    pub fn config_dir(&self) -> (r: Option<&str>)
        ensures
            match r {
                Some(p) => self.captured(Category::Configuration).len() > 0 && p@ == self.captured(
                    Category::Configuration,
                )[0],
                None => self.captured(Category::Configuration).len() == 0,
            },
    {
        self.primary(Category::Configuration)
    }
}

} // verus!

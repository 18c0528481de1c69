//! A table of environment variables: the source that directory lists are
//! read from.
use vstd::prelude::*;

verus! {

/// Whether no two entries of `vars` share a name.
pub open spec fn names_unique(vars: Seq<(String, String)>) -> bool {
    forall|i: int, j: int|
        0 <= i < j < vars.len() ==> #[trigger] vars[i].0@ != #[trigger] vars[j].0@
}

/// Whether some entry of `vars` is named `name`.
pub open spec fn has_entry(vars: Seq<(String, String)>, name: Seq<char>) -> bool {
    exists|i: int| 0 <= i < vars.len() && #[trigger] vars[i].0@ == name
}

/// The variables of a table of entries, as a map from name to value.
pub open spec fn table_view(vars: Seq<(String, String)>) -> Map<Seq<char>, Seq<char>> {
    Map::new(
        |name: Seq<char>| has_entry(vars, name),
        |name: Seq<char>| vars[choose|i: int| 0 <= i < vars.len() && #[trigger] vars[i].0@ == name].1@,
    )
}

/// In a table without repeated names, the entry at `i` gives the value of its name.
proof fn lemma_entry_value(vars: Seq<(String, String)>, i: int)
    requires
        names_unique(vars),
        0 <= i < vars.len(),
    ensures
        table_view(vars).contains_key(vars[i].0@),
        table_view(vars)[vars[i].0@] == vars[i].1@,
{
    let name = vars[i].0@;
    assert(has_entry(vars, name));
    let j = choose|j: int| 0 <= j < vars.len() && #[trigger] vars[j].0@ == name;
    if j < i {
        assert(vars[j].0@ != vars[i].0@);
    } else if i < j {
        assert(vars[i].0@ != vars[j].0@);
    }
}

/// A set of named variables with text values, each name at most once.
///
/// It stands for the process environment: a program fills it from there, and
/// a caller that wants a fixed set of variables builds one by hand.
pub struct Environment {
    vars: Vec<(String, String)>,
}

impl View for Environment {
    type V = Map<Seq<char>, Seq<char>>;

    closed spec fn view(&self) -> Map<Seq<char>, Seq<char>> {
        table_view(self.vars@)
    }
}

impl Environment {
    #[verifier::type_invariant]
    spec fn wf(&self) -> bool {
        names_unique(self.vars@)
    }

    /// An environment with no variables.
    pub fn new() -> (r: Self)
        ensures
            r@ == Map::<Seq<char>, Seq<char>>::empty(),
    {
        let r = Environment { vars: Vec::new() };
        assert(r@ =~= Map::<Seq<char>, Seq<char>>::empty());
        r
    }

    /// The index of the entry named `name`, if there is one.
    fn position(vars: &Vec<(String, String)>, name: &str) -> (r: Option<usize>)
        ensures
            match r {
                Some(i) => i < vars@.len() && vars@[i as int].0@ == name@,
                None => !has_entry(vars@, name@),
            },
    {
        let key = name.to_owned();
        let mut i: usize = 0;
        while i < vars.len()
            invariant
                i <= vars@.len(),
                key@ == name@,
                forall|j: int| 0 <= j < i ==> #[trigger] vars@[j].0@ != name@,
            decreases vars@.len() - i,
        {
            if vars[i].0 == key {
                return Some(i);
            }
            i = i + 1;
        }
        None
    }

    /// The value of the variable `name`, if it is set.
    pub fn var(&self, name: &str) -> (r: Option<String>)
        ensures
            match r {
                Some(v) => self@.contains_key(name@) && v@ == self@[name@],
                None => !self@.contains_key(name@),
            },
    {
        proof {
            use_type_invariant(self);
        }
        match Self::position(&self.vars, name) {
            Some(i) => {
                proof {
                    lemma_entry_value(self.vars@, i as int);
                }
                Some(self.vars[i].1.clone())
            },
            None => None,
        }
    }

    /// Sets the variable `name` to `value`, replacing any value it had.
    pub fn set_var(&mut self, name: &str, value: &str)
        ensures
            final(self)@ == old(self)@.insert(name@, value@),
    {
        proof {
            use_type_invariant(&*self);
        }
        let mut vars: Vec<(String, String)> = Vec::new();
        std::mem::swap(&mut vars, &mut self.vars);
        let ghost before = vars@;
        let entry = (name.to_owned(), value.to_owned());
        let found = Self::position(&vars, name);
        match found {
            Some(i) => {
                vars.set(i, entry);
                proof {
                    assert(names_unique(vars@)) by {
                        assert forall|a: int, b: int| 0 <= a < b < vars@.len() implies
                            #[trigger] vars@[a].0@ != #[trigger] vars@[b].0@ by {
                            assert(before[a].0@ != before[b].0@);
                        }
                    }
                    assert forall|k: Seq<char>| #[trigger] table_view(vars@).contains_key(k) == table_view(before).insert(name@, value@).contains_key(k) by {
                        if k != name@ && has_entry(before, k) {
                            let j = choose|j: int| 0 <= j < before.len() && #[trigger] before[j].0@ == k;
                            assert(vars@[j].0@ == k);
                        }
                        if k != name@ && has_entry(vars@, k) {
                            let j = choose|j: int| 0 <= j < vars@.len() && #[trigger] vars@[j].0@ == k;
                            assert(before[j].0@ == k);
                        }
                        if k == name@ {
                            assert(vars@[i as int].0@ == k);
                        }
                    }
                    assert forall|k: Seq<char>| #[trigger] table_view(vars@).contains_key(k) implies
                        table_view(vars@)[k] == table_view(before).insert(name@, value@)[k] by {
                        let j = choose|j: int| 0 <= j < vars@.len() && #[trigger] vars@[j].0@ == k;
                        lemma_entry_value(vars@, j);
                        if j != i as int {
                            lemma_entry_value(before, j);
                        }
                    }
                    assert(table_view(vars@) =~= table_view(before).insert(name@, value@));
                }
            },
            None => {
                vars.push(entry);
                proof {
                    assert(names_unique(vars@)) by {
                        assert forall|a: int, b: int| 0 <= a < b < vars@.len() implies
                            #[trigger] vars@[a].0@ != #[trigger] vars@[b].0@ by {
                            if b < before.len() {
                                assert(before[a].0@ != before[b].0@);
                            } else {
                                assert(vars@[a] == before[a]);
                            }
                        }
                    }
                    assert forall|k: Seq<char>| #[trigger] table_view(vars@).contains_key(k) == table_view(before).insert(name@, value@).contains_key(k) by {
                        if has_entry(before, k) {
                            let j = choose|j: int| 0 <= j < before.len() && #[trigger] before[j].0@ == k;
                            assert(vars@[j].0@ == k);
                        }
                        if has_entry(vars@, k) && k != name@ {
                            let j = choose|j: int| 0 <= j < vars@.len() && #[trigger] vars@[j].0@ == k;
                            assert(before[j].0@ == k);
                        }
                        if k == name@ {
                            assert(vars@[before.len() as int].0@ == k);
                        }
                    }
                    assert forall|k: Seq<char>| #[trigger] table_view(vars@).contains_key(k) implies
                        table_view(vars@)[k] == table_view(before).insert(name@, value@)[k] by {
                        let j = choose|j: int| 0 <= j < vars@.len() && #[trigger] vars@[j].0@ == k;
                        lemma_entry_value(vars@, j);
                        if j != before.len() as int {
                            lemma_entry_value(before, j);
                        }
                    }
                    assert(table_view(vars@) =~= table_view(before).insert(name@, value@));
                }
            },
        }
        self.vars = vars;
    }

    /// Removes the variable `name`, if it is set.
    pub fn remove_var(&mut self, name: &str)
        ensures
            final(self)@ == old(self)@.remove(name@),
    {
        proof {
            use_type_invariant(&*self);
        }
        let mut vars: Vec<(String, String)> = Vec::new();
        std::mem::swap(&mut vars, &mut self.vars);
        let ghost before = vars@;
        if let Some(i) = Self::position(&vars, name) {
            vars.remove(i);
            proof {
                // entry `j` of the new table is entry `old_index(j)` of the old one
                let old_index = |j: int| if j < i { j } else { j + 1 };
                assert forall|j: int| 0 <= j < vars@.len() implies #[trigger] vars@[j]
                    == before[old_index(j)] by {}
                assert(names_unique(vars@)) by {
                    assert forall|a: int, b: int| 0 <= a < b < vars@.len() implies
                        #[trigger] vars@[a].0@ != #[trigger] vars@[b].0@ by {
                        assert(vars@[a] == before[old_index(a)]);
                        assert(vars@[b] == before[old_index(b)]);
                        assert(before[old_index(a)].0@ != before[old_index(b)].0@);
                    }
                }
                assert forall|k: Seq<char>| #[trigger] table_view(vars@).contains_key(k)
                    == table_view(before).remove(name@).contains_key(k) by {
                    if k != name@ && has_entry(before, k) {
                        let j = choose|j: int| 0 <= j < before.len() && #[trigger] before[j].0@ == k;
                        if j < i {
                            assert(vars@[j].0@ == k);
                        } else {
                            assert(j != i as int);
                            assert(vars@[j - 1].0@ == k);
                        }
                    }
                    if has_entry(vars@, k) {
                        let j = choose|j: int| 0 <= j < vars@.len() && #[trigger] vars@[j].0@ == k;
                        assert(before[old_index(j)].0@ == k);
                        assert(old_index(j) != i as int);
                        assert(before[old_index(j)].0@ != before[i as int].0@);
                    }
                }
                assert forall|k: Seq<char>| #[trigger] table_view(vars@).contains_key(k) implies
                    table_view(vars@)[k] == table_view(before).remove(name@)[k] by {
                    let j = choose|j: int| 0 <= j < vars@.len() && #[trigger] vars@[j].0@ == k;
                    lemma_entry_value(vars@, j);
                    lemma_entry_value(before, old_index(j));
                }
                assert(table_view(vars@) =~= table_view(before).remove(name@));
            }
        } else {
            assert(table_view(vars@) =~= table_view(before).remove(name@));
        }
        self.vars = vars;
    }
}

} // verus!

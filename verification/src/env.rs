//! Environment variables of a child process.
use vstd::prelude::*;
use vstd::string::*;

use crate::text;

verus! {

/// The variables that a list of assignments leaves: the last one of a name
/// counts.
pub open spec fn assigned(list: Seq<(Seq<char>, Seq<char>)>) -> Map<Seq<char>, Seq<char>>
    decreases list.len(),
{
    if list.len() == 0 {
        Map::empty()
    } else {
        assigned(list.drop_last()).insert(list.last().0, list.last().1)
    }
}

/// The texts of a list of assignments.
pub open spec fn assignment_texts(list: Seq<(String, String)>) -> Seq<(Seq<char>, Seq<char>)> {
    list.map_values(|e: (String, String)| (e.0@, e.1@))
}

/// A table of environment variables.
#[derive(Debug)]
pub struct EnvTable {
    entries: Vec<(String, String)>,
}

impl View for EnvTable {
    type V = Map<Seq<char>, Seq<char>>;

    closed spec fn view(&self) -> Map<Seq<char>, Seq<char>> {
        assigned(assignment_texts(self.entries@))
    }
}

proof fn lemma_assigned_update(
    list: Seq<(Seq<char>, Seq<char>)>,
    i: int,
    name: Seq<char>,
    value: Seq<char>,
)
    requires
        0 <= i < list.len(),
        list[i].0 == name,
        forall|j: int| i < j < list.len() ==> (#[trigger] list[j]).0 != name,
    ensures
        assigned(list.update(i, (name, value))) == assigned(list).insert(name, value),
    decreases list.len(),
{
    let next = list.update(i, (name, value));
    if i == list.len() - 1 {
        assert(next.drop_last() =~= list.drop_last());
        assert(assigned(next) =~= assigned(list).insert(name, value));
    } else {
        assert(next.drop_last() =~= list.drop_last().update(i, (name, value)));
        lemma_assigned_update(list.drop_last(), i, name, value);
        assert(list.last().0 != name);
        assert(assigned(next) =~= assigned(list).insert(name, value));
    }
}

proof fn lemma_assigned_has(list: Seq<(Seq<char>, Seq<char>)>, i: int, name: Seq<char>)
    requires
        0 <= i < list.len(),
        list[i].0 == name,
        forall|j: int| i < j < list.len() ==> (#[trigger] list[j]).0 != name,
    ensures
        assigned(list).contains_key(name),
        assigned(list)[name] == list[i].1,
    decreases list.len(),
{
    if i < list.len() - 1 {
        lemma_assigned_has(list.drop_last(), i, name);
        assert(list.last().0 != name);
    }
}

proof fn lemma_assigned_lacks(list: Seq<(Seq<char>, Seq<char>)>, name: Seq<char>)
    requires
        forall|j: int| 0 <= j < list.len() ==> (#[trigger] list[j]).0 != name,
    ensures
        !assigned(list).contains_key(name),
    decreases list.len(),
{
    if list.len() > 0 {
        lemma_assigned_lacks(list.drop_last(), name);
        assert(list.last().0 != name);
    }
}

impl EnvTable {
    pub fn new() -> (r: Self)
        ensures
            r@ == Map::<Seq<char>, Seq<char>>::empty(),
    {
        let r = EnvTable { entries: Vec::new() };
        assert(assignment_texts(r.entries@).len() == 0);
        r
    }

    /// The place of the last assignment to `name`.
    fn find(&self, name: &str) -> (r: Option<usize>)
        ensures
            match r {
                Some(i) => {
                    &&& i < self.entries@.len()
                    &&& assignment_texts(self.entries@)[i as int].0 == name@
                    &&& forall|j: int|
                        i < j < self.entries@.len() ==> (#[trigger] assignment_texts(
                            self.entries@,
                        )[j]).0 != name@
                    &&& self@.contains_key(name@)
                    &&& self@[name@] == self.entries@[i as int].1@
                },
                None => !self@.contains_key(name@),
            },
    {
        let ghost list = assignment_texts(self.entries@);
        let mut n: usize = self.entries.len();
        while n > 0
            invariant
                n <= self.entries@.len(),
                list == assignment_texts(self.entries@),
                forall|j: int| n <= j < list.len() ==> (#[trigger] list[j]).0 != name@,
            decreases n,
        {
            n = n - 1;
            assert(list[n as int].0 == self.entries@[n as int].0@);
            if text::same_str(self.entries[n].0.as_str(), name) {
                proof {
                    lemma_assigned_has(list, n as int, name@);
                }
                return Some(n);
            }
        }
        proof {
            lemma_assigned_lacks(list, name@);
        }
        None
    }

    /// Sets a variable.
    pub fn set(&mut self, name: &str, value: &str)
        ensures
            final(self)@ == old(self)@.insert(name@, value@),
    {
        let ghost list = assignment_texts(self.entries@);
        match self.find(name) {
            Some(i) => {
                proof {
                    lemma_assigned_update(list, i as int, name@, value@);
                }
                self.entries.set(i, (String::from_str(name), String::from_str(value)));
                assert(assignment_texts(self.entries@) =~= list.update(
                    i as int,
                    (name@, value@),
                ));
            },
            None => {
                self.entries.push((String::from_str(name), String::from_str(value)));
                assert(assignment_texts(self.entries@).drop_last() =~= list);
            },
        }
    }

    /// Sets a variable that is not set yet.
    pub fn set_default(&mut self, name: &str, value: &str)
        ensures
            final(self)@ == (if old(self)@.contains_key(name@) {
                old(self)@
            } else {
                old(self)@.insert(name@, value@)
            }),
    {
        if self.find(name).is_none() {
            self.set(name, value);
        }
    }

    pub fn get(&self, name: &str) -> (r: Option<&str>)
        ensures
            match r {
                Some(value) => self@.contains_key(name@) && self@[name@] == value@,
                None => !self@.contains_key(name@),
            },
    {
        match self.find(name) {
            Some(i) => Some(self.entries[i].1.as_str()),
            None => None,
        }
    }

    /// The variables, as assignments to be made in order.
    pub fn entries(&self) -> (r: &Vec<(String, String)>)
        ensures
            assigned(assignment_texts(r@)) == self@,
    {
        &self.entries
    }
}

/// A variable reads back what was set last; the others keep their values, and a
/// default changes no variable that has one.
pub proof fn law_variables_read_back(
    before: &EnvTable,
    table: &mut EnvTable,
    defaulted: &mut EnvTable,
    name: &str,
    value: &str,
    other: &str,
    was: Option<&str>,
    set: &EnvTable,
    got: Option<&str>,
    fallback: &EnvTable,
    default: Option<&str>,
)
    requires
        old(table)@ == before@,
        old(defaulted)@ == before@,
        call_ensures(EnvTable::get, (before, other), was),
        call_ensures(EnvTable::set, (table, name, value), ()),
        set@ == final(table)@,
        call_ensures(EnvTable::get, (set, other), got),
        call_ensures(EnvTable::set_default, (defaulted, name, value), ()),
        fallback@ == final(defaulted)@,
        call_ensures(EnvTable::get, (fallback, other), default),
    ensures
        other@ == name@ ==> got is Some && got->0@ == value@,
        other@ != name@ ==> got is Some == was is Some && (was is Some ==> got->0@ == was->0@),
        was is Some ==> default is Some && default->0@ == was->0@,
        was is None && other@ == name@ ==> default is Some && default->0@ == value@,
        was is None && other@ != name@ ==> default is None,
{
}

/// A new table sets no variable.
pub proof fn law_new_table_is_empty(table: EnvTable, name: &str, got: Option<&str>)
    requires
        call_ensures(EnvTable::new, (), table),
        call_ensures(EnvTable::get, (&table, name), got),
    ensures
        got is None,
{
}

} // verus!

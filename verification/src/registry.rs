//! The dataset registry: an ordered mapping from dataset name to table,
//! owned by the session loop.  Names are unique, and insertion order is
//! preserved so that previews iterate deterministically.  The registry only
//! grows for the lifetime of a session.

use vstd::prelude::*;

use crate::strutil::views_of;
use crate::table::Table;

verus! {

/// The session's collection of named datasets, in insertion order.
#[derive(Debug)]
pub struct Datasets {
    pub names: Vec<String>,
    pub tables: Vec<Table>,
}

impl Datasets {
    /// The dataset names, in insertion order.
    pub open spec fn spec_names(self) -> Seq<Seq<char>> {
        views_of(self.names@)
    }

    /// The tables, in insertion order.
    pub open spec fn spec_tables(self) -> Seq<Table> {
        self.tables@
    }

    /// The number of datasets held.
    pub open spec fn spec_len(self) -> nat {
        self.names@.len()
    }

    /// Names and tables pair up, names are unique, tables are well formed.
    pub open spec fn well_formed(self) -> bool {
        &&& self.names@.len() == self.tables@.len()
        &&& forall|i: int, j: int|
            0 <= i < j < self.names@.len() ==> self.spec_names()[i] != self.spec_names()[j]
        &&& forall|i: int|
            0 <= i < self.tables@.len() ==> (#[trigger] self.tables@[i]).well_formed()
    }

    /// Some dataset is registered under this name.
    pub open spec fn has_name(self, name: Seq<char>) -> bool {
        exists|i: int| 0 <= i < self.spec_len() && self.spec_names()[i] == name
    }

    /// An empty registry, as each session starts with.
    pub fn new() -> (d: Datasets)
        ensures
            d.well_formed(),
            d.spec_len() == 0,
    {
        Datasets { names: Vec::new(), tables: Vec::new() }
    }

    /// Whether any dataset has been loaded yet.
    pub fn is_empty(&self) -> (r: bool)
        ensures
            r == (self.spec_len() == 0),
    {
        self.names.len() == 0
    }

    /// The number of datasets held.
    pub fn len(&self) -> (n: usize)
        ensures
            n == self.spec_len(),
    {
        self.names.len()
    }

    /// Whether a dataset of this name is already registered.
    pub fn contains_key(&self, name: &str) -> (r: bool)
        ensures
            r == self.has_name(name@),
    {
        let n = self.names.len();
        let mut i: usize = 0;
        while i < n
            invariant
                n == self.names@.len(),
                i <= n,
                forall|j: int| 0 <= j < i ==> self.spec_names()[j] != name@,
            decreases n - i,
        {
            if crate::strutil::str_eq(self.names[i].as_str(), name) {
                assert(self.spec_names()[i as int] == name@);
                return true;
            }
            i = i + 1;
        }
        false
    }

    /// Registers a new dataset under a name that is not yet taken.  Callers
    /// make the collision check first; a collision is rejected there, never
    /// silently renamed here.
    pub fn insert(&mut self, name: String, table: Table)
        requires
            old(self).well_formed(),
            !old(self).has_name(name@),
            table.well_formed(),
        ensures
            final(self).well_formed(),
            final(self).spec_names() == old(self).spec_names().push(name@),
            final(self).spec_tables() == old(self).spec_tables().push(table),
    {
        proof {
            assert(views_of(self.names@.push(name)) =~= views_of(self.names@).push(name@));
        }
        self.names.push(name);
        self.tables.push(table);
        proof {
            assert forall|i: int, j: int|
                0 <= i < j < self.names@.len() implies self.spec_names()[i]
                != self.spec_names()[j] by {
                assert(self.spec_names()[i] == old(self).spec_names()[i]);
                if j == self.names@.len() - 1 {
                    if self.spec_names()[i] == name@ {
                        assert(old(self).spec_names()[i] == name@);
                        assert(old(self).has_name(name@));
                    }
                } else {
                    assert(self.spec_names()[j] == old(self).spec_names()[j]);
                }
            }
        }
    }

    /// The name of the dataset at one position of the insertion order.
    pub fn name_at(&self, i: usize) -> (name: &String)
        requires
            i < self.spec_len(),
        ensures
            name@ == self.spec_names()[i as int],
    {
        &self.names[i]
    }

    /// The table of the dataset at one position of the insertion order.
    pub fn table_at(&self, i: usize) -> (t: &Table)
        requires
            i < self.spec_len(),
            self.well_formed(),
        ensures
            *t == self.spec_tables()[i as int],
    {
        &self.tables[i]
    }
}

} // verus!

//! What introspection found in the store: which tables exist and which
//! columns each has.
//!
//! A probe that failed counts as "absent". Under-detection sends the store
//! down an upgrade path it may not need, which is safer than refusing to
//! start on a catalog that could not be read; the cost is that such a
//! failure can hide drift, so callers report it.

use vstd::prelude::*;

use crate::schema::Table;

verus! {

/// One table that exists, with the names of its columns.
#[derive(Debug, Clone)]
pub struct TableInfo {
    pub name: String,
    pub columns: Vec<String>,
}

/// The tables found in the store.
#[derive(Debug, Clone)]
pub struct Catalog {
    pub tables: Vec<TableInfo>,
}

/// The governed tables that exist, each with the set of its column names.
pub type SchemaModel = Map<Table, Set<Seq<char>>>;

/// A table probe's count reports the table present when it was answered
/// and is positive.
pub open spec fn reports_present(count: Option<i64>) -> bool {
    count matches Some(n) && n > 0
}

impl Catalog {
    pub open spec fn has_table_named(&self, name: Seq<char>) -> bool {
        exists|i: int| 0 <= i < self.tables@.len() && (#[trigger] self.tables@[i]).name@ == name
    }

    pub open spec fn has_column_named(&self, table: Seq<char>, column: Seq<char>) -> bool {
        exists|i: int, j: int|
            0 <= i < self.tables@.len() && (#[trigger] self.tables@[i]).name@ == table && 0 <= j
                < self.tables@[i].columns@.len() && (#[trigger] self.tables@[i].columns@[j])@
                == column
    }

    /// The governed part of the catalog.
    pub open spec fn model(&self) -> SchemaModel {
        Map::new(
            |t: Table| self.has_table_named(t.spec_name()),
            |t: Table| Set::new(|c: Seq<char>| self.has_column_named(t.spec_name(), c)),
        )
    }

    /// A catalog of a store with no tables.
    pub fn new() -> (r: Catalog)
        ensures
            r.tables@.len() == 0,
    {
        Catalog { tables: Vec::new() }
    }

    /// Records the answers of the probes for one table: `count` is the number
    /// of catalog entries found under its name and `columns` its column list,
    /// each `None` where the probe failed. A failed or zero count records the
    /// table as absent; a failed column probe records it with no columns.
    pub fn record_table(&mut self, name: String, count: Option<i64>, columns: Option<Vec<String>>)
        ensures
            reports_present(count) ==> {
                &&& final(self).tables@.len() == old(self).tables@.len() + 1
                &&& final(self).tables@.drop_last() == old(self).tables@
                &&& final(self).tables@.last().name == name
                &&& final(self).tables@.last().columns@ == match columns {
                    Some(c) => c@,
                    None => Seq::empty(),
                }
            },
            !reports_present(count) ==> final(self).tables@ == old(self).tables@,
    {
        let present = match count {
            Some(n) => n > 0,
            None => false,
        };
        if present {
            let columns = match columns {
                Some(c) => c,
                None => Vec::new(),
            };
            self.tables.push(TableInfo { name, columns });
            assert(self.tables@.drop_last() =~= old(self).tables@);
        }
    }

    /// Whether a table of this name exists.
    pub fn has_table(&self, name: &str) -> (r: bool)
        ensures
            r == self.has_table_named(name@),
    {
        let wanted = name.to_owned();
        let mut i: usize = 0;
        while i < self.tables.len()
            invariant
                i <= self.tables@.len(),
                wanted@ == name@,
                forall|k: int| 0 <= k < i ==> (#[trigger] self.tables@[k]).name@ != name@,
            decreases self.tables@.len() - i,
        {
            if self.tables[i].name == wanted {
                return true;
            }
            i += 1;
        }
        false
    }

    /// Whether the table of this name exists and has a column of this name.
    pub fn has_column(&self, table: &str, column: &str) -> (r: bool)
        ensures
            r == self.has_column_named(table@, column@),
    {
        let wanted_table = table.to_owned();
        let wanted_column = column.to_owned();
        let mut i: usize = 0;
        while i < self.tables.len()
            invariant
                i <= self.tables@.len(),
                wanted_table@ == table@,
                wanted_column@ == column@,
                forall|k: int, l: int|
                    0 <= k < i && (#[trigger] self.tables@[k]).name@ == table@ && 0 <= l
                        < self.tables@[k].columns@.len() ==> (#[trigger] self.tables@[k].columns@[l])@
                        != column@,
            decreases self.tables@.len() - i,
        {
            if self.tables[i].name == wanted_table {
                let cols = &self.tables[i].columns;
                let mut j: usize = 0;
                while j < cols.len()
                    invariant
                        i < self.tables@.len(),
                        cols == self.tables@[i as int].columns,
                        self.tables@[i as int].name@ == table@,
                        j <= cols@.len(),
                        wanted_column@ == column@,
                        forall|l: int| 0 <= l < j ==> (#[trigger] cols@[l])@ != column@,
                    decreases cols@.len() - j,
                {
                    if cols[j] == wanted_column {
                        assert(self.tables@[i as int].name@ == table@);
                        assert(self.tables@[i as int].columns@[j as int]@ == column@);
                        return true;
                    }
                    j += 1;
                }
            }
            i += 1;
        }
        false
    }
}

} // verus!

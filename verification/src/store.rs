//! The committed state: the catalog of tables and their rows.

use vstd::prelude::*;
use crate::error::AncError;
use crate::model::{is_scan, StoreModel, WriteModel};
use crate::table::{entries_view, value_view, Table};

verus! {

/// A write as a transaction stages it.
pub enum WriteOp {
    CreateTable { table_id: u32, name: String },
    Put { table_id: u32, key: i64, value: Vec<u8> },
}

impl View for WriteOp {
    type V = WriteModel;

    open spec fn view(&self) -> WriteModel {
        match self {
            WriteOp::CreateTable { table_id, name } => WriteModel::CreateTable {
                table_id: *table_id,
                name: name@,
            },
            WriteOp::Put { table_id, key, value } => WriteModel::Put {
                table_id: *table_id,
                key: *key,
                value: value@,
            },
        }
    }
}

/// The writes of a list, each as a mathematical value.
pub open spec fn writes_view(writes: Seq<WriteOp>) -> Seq<WriteModel> {
    writes.map_values(|w: WriteOp| w@)
}

/// Whether some table of the list has the id.
spec fn lists_table(tables: Seq<Table>, id: u32) -> bool {
    exists|i: int| 0 <= i < tables.len() && #[trigger] tables[i].spec_id() == id
}

/// The place of a table with the id.
spec fn table_place(tables: Seq<Table>, id: u32) -> int {
    choose|i: int| 0 <= i < tables.len() && #[trigger] tables[i].spec_id() == id
}

/// Whether no id occurs twice in the list.
spec fn distinct_ids(tables: Seq<Table>) -> bool {
    forall|i: int, j: int|
        0 <= i < j < tables.len() ==> tables[i].spec_id() != tables[j].spec_id()
}

/// Where ids are distinct, the place of a table's id is the table's place.
proof fn lemma_table_place(tables: Seq<Table>, i: int)
    requires
        distinct_ids(tables),
        0 <= i < tables.len(),
    ensures
        lists_table(tables, tables[i].spec_id()),
        table_place(tables, tables[i].spec_id()) == i,
{
    let id = tables[i].spec_id();
    assert(lists_table(tables, id));
    let p = table_place(tables, id);
    assert(0 <= p < tables.len() && tables[p].spec_id() == id);
    if p < i {
        assert(tables[p].spec_id() != tables[i].spec_id());
    } else if i < p {
        assert(tables[i].spec_id() != tables[p].spec_id());
    }
}

/// The committed tables.
pub struct Store {
    tables: Vec<Table>,
}

impl View for Store {
    type V = StoreModel;

    closed spec fn view(&self) -> StoreModel {
        StoreModel {
            tables: Map::new(
                |id: u32| lists_table(self.tables@, id),
                |id: u32| self.tables@[table_place(self.tables@, id)].model(),
            ),
        }
    }
}

impl Store {
    /// The store's invariant: every table is well formed and no id is taken
    /// twice.
    pub closed spec fn wf(&self) -> bool {
        &&& distinct_ids(self.tables@)
        &&& forall|i: int| 0 <= i < self.tables@.len() ==> (#[trigger] self.tables@[i]).wf()
    }

    /// A store without tables.
    pub fn new() -> (store: Store)
        ensures
            store.wf(),
            store@ == StoreModel::empty(),
    {
        let store = Store { tables: Vec::new() };
        assert(store@.tables =~= Map::empty());
        store
    }

    /// The place of table `id` in the catalog.
    fn find(&self, id: u32) -> (found: Option<usize>)
        requires
            self.wf(),
        ensures
            found is Some <==> self@.has_table(id),
            found is Some ==> {
                &&& found->0 < self.tables@.len()
                &&& self.tables@[found->0 as int].spec_id() == id
                &&& self.tables@[found->0 as int].model() == self@.tables[id]
            },
    {
        let mut i: usize = 0;
        while i < self.tables.len()
            invariant
                self.wf(),
                i <= self.tables@.len(),
                forall|k: int| 0 <= k < i ==> self.tables@[k].spec_id() != id,
            decreases self.tables@.len() - i,
        {
            if self.tables[i].id() == id {
                proof {
                    lemma_table_place(self.tables@, i as int);
                }
                return Some(i);
            }
            i = i + 1;
        }
        proof {
            if lists_table(self.tables@, id) {
                let p = table_place(self.tables@, id);
                assert(self.tables@[p].spec_id() == id);
            }
        }
        None
    }

    /// Whether `id` names a table.
    pub fn has_table(&self, id: u32) -> (known: bool)
        requires
            self.wf(),
        ensures
            known == self@.has_table(id),
    {
        self.find(id).is_some()
    }

    /// The value under `key` in table `id`, if there is one.
    pub fn get(&self, id: u32, key: i64) -> (value: Option<Vec<u8>>)
        requires
            self.wf(),
        ensures
            value_view(value) == self@.value(id, key),
    {
        match self.find(id) {
            Some(at) => self.tables[at].get(key),
            None => None,
        }
    }

    /// The entries of table `id` with a key in `[start, end]`, ascending by
    /// key or descending where `desc` is set, at most `limit` of them. An
    /// unknown table has no entries.
    pub fn scan(&self, id: u32, start: i64, end: i64, desc: bool, limit: usize) -> (out: Vec<
        (i64, Vec<u8>),
    >)
        requires
            self.wf(),
        ensures
            is_scan(self@.rows(id), start, end, desc, limit as nat, entries_view(out@)),
    {
        match self.find(id) {
            Some(at) => self.tables[at].scan(start, end, desc, limit),
            None => {
                let out: Vec<(i64, Vec<u8>)> = Vec::new();
                assert(entries_view(out@).len() == 0);
                out
            },
        }
    }

    /// Adds an empty table. Fails, and changes nothing, where the id is
    /// taken.
    pub fn create_table(&mut self, id: u32, name: String) -> (done: Result<(), AncError>)
        requires
            old(self).wf(),
        ensures
            final(self).wf(),
            done == (if old(self)@.has_table(id) {
                Err::<(), AncError>(AncError::TableAlreadyExists)
            } else {
                Ok(())
            }),
            final(self)@ == old(self)@.create_table(id, name@),
    {
        if self.has_table(id) {
            return Err(AncError::TableAlreadyExists);
        }
        let ghost before = self.tables@;
        let table = Table::new(id, name);
        self.tables.push(table);
        proof {
            let after = self.tables@;
            assert forall|k: u32| lists_table(after, k) <==> (k == id || lists_table(
                before,
                k,
            )) by {
                if lists_table(after, k) && k != id {
                    assert(before[table_place(after, k)].spec_id() == k);
                }
                if k == id {
                    assert(after[after.len() - 1].spec_id() == id);
                } else if lists_table(before, k) {
                    assert(after[table_place(before, k)].spec_id() == k);
                }
            }
            assert(distinct_ids(after)) by {
                assert forall|i: int, j: int| 0 <= i < j < after.len() implies after[i].spec_id()
                    != after[j].spec_id() by {
                    if j == after.len() - 1 {
                        assert(before[i].spec_id() == after[i].spec_id());
                        if before[i].spec_id() == id {
                            assert(lists_table(before, id));
                        }
                    } else {
                        assert(before[i].spec_id() != before[j].spec_id());
                    }
                }
            }
            assert forall|k: u32| lists_table(after, k) implies #[trigger] self@.tables[k] == old(
                self,
            )@.create_table(id, name@).tables[k] by {
                let p = table_place(after, k);
                lemma_table_place(after, p);
                if k == id {
                    lemma_table_place(after, after.len() - 1);
                } else {
                    let q = table_place(before, k);
                    lemma_table_place(before, q);
                    lemma_table_place(after, q);
                }
            }
            assert(self@.tables =~= old(self)@.create_table(id, name@).tables);
        }
        Ok(())
    }

    /// Stores `value` under `key` in table `id`. Fails, and changes nothing,
    /// where the table is unknown.
    pub fn put(&mut self, id: u32, key: i64, value: Vec<u8>) -> (done: Result<(), AncError>)
        requires
            old(self).wf(),
        ensures
            final(self).wf(),
            done == (if old(self)@.has_table(id) {
                Ok(())
            } else {
                Err::<(), AncError>(AncError::TableNotFound)
            }),
            final(self)@ == old(self)@.put(id, key, value@),
    {
        match self.find(id) {
            None => Err(AncError::TableNotFound),
            Some(at) => {
                let ghost before = self.tables@;
                self.tables[at].put(key, value);
                proof {
                    let after = self.tables@;
                    assert(after.len() == before.len());
                    assert forall|i: int| 0 <= i < after.len() implies after[i].spec_id()
                        == before[i].spec_id() by {}
                    assert forall|k: u32| lists_table(after, k) <==> lists_table(before, k) by {
                        if lists_table(after, k) {
                            assert(before[table_place(after, k)].spec_id() == k);
                        }
                        if lists_table(before, k) {
                            assert(after[table_place(before, k)].spec_id() == k);
                        }
                    }
                    assert(distinct_ids(after)) by {
                        assert forall|i: int, j: int| 0 <= i < j < after.len() implies after[i].spec_id()
                            != after[j].spec_id() by {
                            assert(before[i].spec_id() != before[j].spec_id());
                        }
                    }
                    assert forall|k: u32| lists_table(after, k) implies #[trigger] self@.tables[k]
                        == old(self)@.put(id, key, value@).tables[k] by {
                        let p = table_place(after, k);
                        lemma_table_place(after, p);
                        lemma_table_place(before, p);
                    }
                    assert(self@.tables =~= old(self)@.put(id, key, value@).tables);
                }
                Ok(())
            },
        }
    }
    /// Carries out one staged write. A table that exists is not created
    /// again, and a row for an unknown table is dropped.
    pub fn apply(&mut self, write: &WriteOp)
        requires
            old(self).wf(),
        ensures
            final(self).wf(),
            final(self)@ == old(self)@.apply(write@),
    {
        match write {
            WriteOp::CreateTable { table_id, name } => {
                let _ = self.create_table(*table_id, name.clone());
            },
            WriteOp::Put { table_id, key, value } => {
                let _ = self.put(*table_id, *key, value.clone());
            },
        }
    }

    /// Carries out the staged writes, first to last.
    pub fn apply_all(&mut self, writes: &Vec<WriteOp>)
        requires
            old(self).wf(),
        ensures
            final(self).wf(),
            final(self)@ == old(self)@.apply_all(writes_view(writes@)),
    {
        let ghost all = writes_view(writes@);
        let mut i: usize = 0;
        while i < writes.len()
            invariant
                self.wf(),
                i <= writes@.len(),
                all == writes_view(writes@),
                self@ == old(self)@.apply_all(all.take(i as int)),
            decreases writes@.len() - i,
        {
            self.apply(&writes[i]);
            proof {
                assert(all.take(i + 1).drop_last() =~= all.take(i as int));
                assert(all.take(i + 1).last() == writes@[i as int]@);
            }
            i = i + 1;
        }
        proof {
            assert(all.take(i as int) =~= all);
        }
    }

    /// A copy of the store as it stands.
    pub fn snapshot(&self) -> (copy: Store)
        requires
            self.wf(),
        ensures
            copy.wf(),
            copy@ == self@,
    {
        let mut tables: Vec<Table> = Vec::new();
        let mut i: usize = 0;
        while i < self.tables.len()
            invariant
                self.wf(),
                i <= self.tables@.len(),
                tables@.len() == i,
                forall|k: int|
                    0 <= k < i ==> {
                        &&& (#[trigger] tables@[k]).wf()
                        &&& tables@[k].spec_id() == self.tables@[k].spec_id()
                        &&& tables@[k].model() == self.tables@[k].model()
                    },
            decreases self.tables@.len() - i,
        {
            tables.push(self.tables[i].duplicate());
            i = i + 1;
        }
        let copy = Store { tables };
        proof {
            let a = self.tables@;
            let b = copy.tables@;
            assert forall|i: int, j: int| 0 <= i < j < b.len() implies b[i].spec_id()
                != b[j].spec_id() by {
                assert(a[i].spec_id() != a[j].spec_id());
            }
            assert forall|k: u32| lists_table(a, k) <==> lists_table(b, k) by {
                if lists_table(a, k) {
                    assert(b[table_place(a, k)].spec_id() == k);
                }
                if lists_table(b, k) {
                    assert(a[table_place(b, k)].spec_id() == k);
                }
            }
            assert forall|k: u32| lists_table(a, k) implies #[trigger] copy@.tables[k]
                == self@.tables[k] by {
                let p = table_place(a, k);
                lemma_table_place(a, p);
                lemma_table_place(b, p);
            }
            assert(copy@.tables =~= self@.tables);
        }
        copy
    }
}

} // verus!

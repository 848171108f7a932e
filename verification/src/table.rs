//! One table: rows kept in ascending key order.

use vstd::prelude::*;
use crate::model::{is_scan, past, TableModel};

verus! {

/// A key with the bytes stored under it.
struct Row {
    key: i64,
    value: Vec<u8>,
}

/// Whether the rows stand in strictly ascending key order.
spec fn ascending(rows: Seq<Row>) -> bool {
    forall|i: int, j: int| 0 <= i < j < rows.len() ==> rows[i].key < rows[j].key
}

/// Whether some row holds `key`.
spec fn holds_key(rows: Seq<Row>, key: i64) -> bool {
    exists|i: int| 0 <= i < rows.len() && #[trigger] rows[i].key == key
}

/// The place of a row that holds `key`.
spec fn place_of(rows: Seq<Row>, key: i64) -> int {
    choose|i: int| 0 <= i < rows.len() && #[trigger] rows[i].key == key
}

/// The rows as a map from key to value.
spec fn rows_map(rows: Seq<Row>) -> Map<i64, Seq<u8>> {
    Map::new(|key: i64| holds_key(rows, key), |key: i64| rows[place_of(rows, key)].value@)
}

/// Entries as they leave a scan, each value by its bytes.
pub open spec fn entries_view(entries: Seq<(i64, Vec<u8>)>) -> Seq<(i64, Seq<u8>)> {
    entries.map_values(|e: (i64, Vec<u8>)| (e.0, e.1@))
}

/// A value as it leaves a read, by its bytes.
pub open spec fn value_view(value: Option<Vec<u8>>) -> Option<Seq<u8>> {
    match value {
        Some(bytes) => Some(bytes@),
        None => None,
    }
}

/// In ascending rows each row is the one that the map shows under its key.
proof fn lemma_rows_map_at(rows: Seq<Row>, i: int)
    requires
        ascending(rows),
        0 <= i < rows.len(),
    ensures
        rows_map(rows).contains_key(rows[i].key),
        rows_map(rows)[rows[i].key] == rows[i].value@,
        place_of(rows, rows[i].key) == i,
{
    let key = rows[i].key;
    assert(holds_key(rows, key));
    let p = place_of(rows, key);
    assert(0 <= p < rows.len() && rows[p].key == key);
    if p < i {
        assert(rows[p].key < rows[i].key);
    } else if i < p {
        assert(rows[i].key < rows[p].key);
    }
}

/// Rows that agree place by place on key and bytes show the same map.
proof fn lemma_rows_map_same(a: Seq<Row>, b: Seq<Row>)
    requires
        ascending(a),
        a.len() == b.len(),
        forall|i: int| 0 <= i < a.len() ==> a[i].key == b[i].key && a[i].value@ == b[i].value@,
    ensures
        ascending(b),
        rows_map(a) == rows_map(b),
{
    assert forall|i: int, j: int| 0 <= i < j < b.len() implies b[i].key < b[j].key by {
        assert(a[i].key < a[j].key);
    }
    assert forall|key: i64| holds_key(a, key) <==> holds_key(b, key) by {
        if holds_key(a, key) {
            assert(b[place_of(a, key)].key == key);
        }
        if holds_key(b, key) {
            assert(a[place_of(b, key)].key == key);
        }
    }
    assert forall|key: i64| holds_key(a, key) implies rows_map(a)[key] == rows_map(b)[key] by {
        let p = place_of(a, key);
        lemma_rows_map_at(a, p);
        lemma_rows_map_at(b, p);
    }
    assert(rows_map(a) =~= rows_map(b));
}

/// The place that the entry numbered `k` of a scan is taken from, in a
/// window of rows from `lo` up to `hi`.
spec fn scan_place(desc: bool, lo: int, hi: int, k: int) -> int {
    if desc {
        hi - 1 - k
    } else {
        lo + k
    }
}

/// Entries taken in scan order from the window of rows whose keys lie in
/// `[start, end]`, as many as the limit allows, are the range scan.
proof fn lemma_window_is_scan(
    rows: Seq<Row>,
    start: i64,
    end: i64,
    desc: bool,
    limit: nat,
    lo: int,
    hi: int,
    out: Seq<(i64, Seq<u8>)>,
)
    requires
        ascending(rows),
        0 <= lo <= rows.len(),
        0 <= hi <= rows.len(),
        forall|i: int| 0 <= i < lo ==> rows[i].key < start,
        forall|i: int| lo <= i < rows.len() ==> rows[i].key >= start,
        forall|i: int| 0 <= i < hi ==> rows[i].key <= end,
        forall|i: int| hi <= i < rows.len() ==> rows[i].key > end,
        out.len() <= limit,
        out.len() <= hi - lo || out.len() == 0,
        out.len() == limit || out.len() >= hi - lo,
        forall|k: int|
            0 <= k < out.len() ==> #[trigger] out[k] == (
                rows[scan_place(desc, lo, hi, k)].key,
                rows[scan_place(desc, lo, hi, k)].value@,
            ),
    ensures
        is_scan(rows_map(rows), start, end, desc, limit, out),
{
    let map = rows_map(rows);
    assert forall|i: int| 0 <= i < out.len() implies {
        &&& start <= (#[trigger] out[i]).0 <= end
        &&& map.contains_key(out[i].0)
        &&& map[out[i].0] == out[i].1
    } by {
        lemma_rows_map_at(rows, scan_place(desc, lo, hi, i));
    }
    assert forall|i: int, j: int| 0 <= i < j < out.len() implies past(
        desc,
        (#[trigger] out[i]).0,
        (#[trigger] out[j]).0,
    ) by {
        let p = scan_place(desc, lo, hi, i);
        let q = scan_place(desc, lo, hi, j);
        if desc {
            assert(rows[q].key < rows[p].key);
        } else {
            assert(rows[p].key < rows[q].key);
        }
    }
    assert forall|key: i64| #[trigger] map.contains_key(key) && start <= key <= end implies {
        ||| exists|i: int| 0 <= i < out.len() && (#[trigger] out[i]).0 == key
        ||| out.len() == limit && (limit == 0 || past(desc, out.last().0, key))
    } by {
        let m = place_of(rows, key);
        assert(rows[m].key == key);
        assert(lo <= m < hi);
        let k = if desc {
            hi - 1 - m
        } else {
            m - lo
        };
        if k < out.len() {
            assert(scan_place(desc, lo, hi, k) == m);
            assert(out[k].0 == key);
        } else {
            assert(out.len() == limit);
            if limit > 0 {
                let last = scan_place(desc, lo, hi, out.len() - 1);
                assert(out[out.len() - 1].0 == rows[last].key);
                if desc {
                    assert(rows[m].key < rows[last].key);
                } else {
                    assert(rows[last].key < rows[m].key);
                }
            }
        }
    }
}

/// A table with its rows.
pub struct Table {
    id: u32,
    name: String,
    rows: Vec<Row>,
}

impl Table {
    /// The table's invariant: its rows ascend strictly by key.
    pub closed spec fn wf(&self) -> bool {
        ascending(self.rows@)
    }

    /// The table's id.
    pub closed spec fn spec_id(&self) -> u32 {
        self.id
    }

    /// The table as a mathematical value.
    pub closed spec fn model(&self) -> TableModel {
        TableModel { name: self.name@, rows: rows_map(self.rows@) }
    }

    /// An empty table.
    pub fn new(id: u32, name: String) -> (table: Table)
        ensures
            table.wf(),
            table.spec_id() == id,
            table.model() == (TableModel { name: name@, rows: Map::empty() }),
    {
        let table = Table { id, name, rows: Vec::new() };
        assert(rows_map(table.rows@) =~= Map::empty());
        table
    }

    /// The table's id.
    pub fn id(&self) -> (id: u32)
        ensures
            id == self.spec_id(),
    {
        self.id
    }

    /// The table's name.
    pub fn name(&self) -> (name: &String)
        ensures
            name@ == self.model().name,
    {
        &self.name
    }

    /// The first place whose key is at least `key`, or above it where
    /// `above` is set; the number of rows where there is none.
    fn first_from(&self, key: i64, above: bool) -> (at: usize)
        requires
            self.wf(),
        ensures
            at <= self.rows@.len(),
            forall|i: int|
                0 <= i < at ==> if above {
                    self.rows@[i].key <= key
                } else {
                    self.rows@[i].key < key
                },
            forall|i: int|
                at <= i < self.rows@.len() ==> if above {
                    self.rows@[i].key > key
                } else {
                    self.rows@[i].key >= key
                },
    {
        let mut lo: usize = 0;
        let mut hi: usize = self.rows.len();
        while lo < hi
            invariant
                self.wf(),
                lo <= hi <= self.rows@.len(),
                forall|i: int|
                    0 <= i < lo ==> if above {
                        self.rows@[i].key <= key
                    } else {
                        self.rows@[i].key < key
                    },
                forall|i: int|
                    hi <= i < self.rows@.len() ==> if above {
                        self.rows@[i].key > key
                    } else {
                        self.rows@[i].key >= key
                    },
            decreases hi - lo,
        {
            let mid: usize = lo + (hi - lo) / 2;
            let here: i64 = self.rows[mid].key;
            let before: bool = if above {
                here <= key
            } else {
                here < key
            };
            if before {
                assert forall|i: int| 0 <= i < mid + 1 implies if above {
                    self.rows@[i].key <= key
                } else {
                    self.rows@[i].key < key
                } by {
                    if i < mid {
                        assert(self.rows@[i].key < self.rows@[mid as int].key);
                    }
                }
                lo = mid + 1;
            } else {
                assert forall|i: int| mid <= i < self.rows@.len() implies if above {
                    self.rows@[i].key > key
                } else {
                    self.rows@[i].key >= key
                } by {
                    if mid < i {
                        assert(self.rows@[mid as int].key < self.rows@[i].key);
                    }
                }
                hi = mid;
            }
        }
        lo
    }

    /// The value under `key`, if there is one.
    pub fn get(&self, key: i64) -> (value: Option<Vec<u8>>)
        requires
            self.wf(),
        ensures
            value_view(value) == (if self.model().rows.contains_key(key) {
                Some(self.model().rows[key])
            } else {
                None
            }),
    {
        let at: usize = self.first_from(key, false);
        if at < self.rows.len() && self.rows[at].key == key {
            proof {
                lemma_rows_map_at(self.rows@, at as int);
            }
            Some(self.rows[at].value.clone())
        } else {
            proof {
                if holds_key(self.rows@, key) {
                    let p = place_of(self.rows@, key);
                    assert(self.rows@[p].key == key);
                }
            }
            None
        }
    }

    /// Stores `value` under `key`, in place of what was there.
    pub fn put(&mut self, key: i64, value: Vec<u8>)
        requires
            old(self).wf(),
        ensures
            final(self).wf(),
            final(self).spec_id() == old(self).spec_id(),
            final(self).model() == (TableModel {
                name: old(self).model().name,
                rows: old(self).model().rows.insert(key, value@),
            }),
    {
        let at: usize = self.first_from(key, false);
        let ghost before = self.rows@;
        let row = Row { key, value };
        if at < self.rows.len() && self.rows[at].key == key {
            self.rows.set(at, row);
        } else {
            self.rows.insert(at, row);
        }
        proof {
            let after = self.rows@;
            assert(ascending(after));
            assert forall|k: i64| holds_key(after, k) <==> (k == key || holds_key(before, k)) by {
                if holds_key(after, k) {
                    let p = place_of(after, k);
                    if k != key {
                        if before.len() == after.len() {
                            assert(before[p].key == k);
                        } else if p < at {
                            assert(before[p].key == k);
                        } else {
                            assert(before[p - 1].key == k);
                        }
                    }
                }
                if k == key {
                    assert(after[at as int].key == key);
                } else if holds_key(before, k) {
                    let p = place_of(before, k);
                    if before.len() == after.len() {
                        assert(after[p].key == k);
                    } else if p < at {
                        assert(after[p].key == k);
                    } else {
                        assert(after[p + 1].key == k);
                    }
                }
            }
            assert forall|k: i64| holds_key(after, k) implies rows_map(after)[k] == rows_map(
                before,
            ).insert(key, value@)[k] by {
                let p = place_of(after, k);
                lemma_rows_map_at(after, p);
                if k == key {
                    lemma_rows_map_at(after, at as int);
                } else {
                    let q = place_of(before, k);
                    lemma_rows_map_at(before, q);
                    if before.len() == after.len() {
                        lemma_rows_map_at(after, q);
                    } else if q < at {
                        lemma_rows_map_at(after, q);
                    } else {
                        lemma_rows_map_at(after, q + 1);
                    }
                }
            }
            assert(rows_map(after) =~= rows_map(before).insert(key, value@));
        }
    }
    /// The entries with a key in `[start, end]`, ascending by key or
    /// descending where `desc` is set, at most `limit` of them.
    pub fn scan(&self, start: i64, end: i64, desc: bool, limit: usize) -> (out: Vec<
        (i64, Vec<u8>),
    >)
        requires
            self.wf(),
        ensures
            is_scan(self.model().rows, start, end, desc, limit as nat, entries_view(out@)),
    {
        let lo: usize = self.first_from(start, false);
        let hi: usize = self.first_from(end, true);
        let mut out: Vec<(i64, Vec<u8>)> = Vec::new();
        let mut taken: usize = 0;
        while taken < limit && lo < hi && taken < hi - lo
            invariant
                self.wf(),
                lo <= self.rows@.len(),
                hi <= self.rows@.len(),
                taken == out@.len(),
                taken <= limit,
                taken <= hi - lo || taken == 0,
                forall|k: int|
                    0 <= k < out@.len() ==> #[trigger] entries_view(out@)[k] == (
                        self.rows@[scan_place(desc, lo as int, hi as int, k)].key,
                        self.rows@[scan_place(desc, lo as int, hi as int, k)].value@,
                    ),
            decreases limit - taken,
        {
            let at: usize = if desc {
                hi - 1 - taken
            } else {
                lo + taken
            };
            let ghost before = out@;
            out.push((self.rows[at].key, self.rows[at].value.clone()));
            proof {
                assert forall|k: int| 0 <= k < out@.len() implies #[trigger] entries_view(out@)[k]
                    == (
                    self.rows@[scan_place(desc, lo as int, hi as int, k)].key,
                    self.rows@[scan_place(desc, lo as int, hi as int, k)].value@,
                ) by {
                    if k < before.len() {
                        assert(entries_view(out@)[k] == entries_view(before)[k]);
                    }
                }
            }
            taken = taken + 1;
        }
        proof {
            lemma_window_is_scan(
                self.rows@,
                start,
                end,
                desc,
                limit as nat,
                lo as int,
                hi as int,
                entries_view(out@),
            );
        }
        out
    }

    /// A copy of the table.
    pub fn duplicate(&self) -> (copy: Table)
        requires
            self.wf(),
        ensures
            copy.wf(),
            copy.spec_id() == self.spec_id(),
            copy.model() == self.model(),
    {
        let mut rows: Vec<Row> = Vec::new();
        let mut i: usize = 0;
        while i < self.rows.len()
            invariant
                i <= self.rows@.len(),
                rows@.len() == i,
                forall|k: int|
                    0 <= k < i ==> rows@[k].key == self.rows@[k].key && rows@[k].value@
                        == self.rows@[k].value@,
            decreases self.rows@.len() - i,
        {
            rows.push(Row { key: self.rows[i].key, value: self.rows[i].value.clone() });
            i = i + 1;
        }
        proof {
            lemma_rows_map_same(self.rows@, rows@);
        }
        Table { id: self.id, name: self.name.clone(), rows }
    }
}

} // verus!

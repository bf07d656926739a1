//! An in-memory model of the `users` table with the semantics the SQL
//! statements have: `INSERT` appends a row under a fresh serial ID, `SELECT`
//! by ID finds the unique matching row, `UPDATE` rewrites the matching row's
//! name and email together, `DELETE` removes it and reports the affected
//! row count. IDs are unique, positive, and never reused.
use vstd::prelude::*;
use vstd::pervasive::VecAdditionalExecFns;

verus! {

/// A stored user row; its ID is always assigned.
pub struct Row {
    pub id: i32,
    pub name: Vec<u8>,
    pub email: Vec<u8>,
}

pub ghost struct RowV {
    pub id: int,
    pub name: Seq<u8>,
    pub email: Seq<u8>,
}

impl View for Row {
    type V = RowV;

    open spec fn view(&self) -> RowV {
        RowV { id: self.id as int, name: self.name@, email: self.email@ }
    }
}

pub open spec fn rows_v(rows: Seq<Row>) -> Seq<RowV> {
    rows.map(|i: int, r: Row| r@)
}

pub struct Store {
    pub rows: Vec<Row>,
    pub next_id: i32,
}

pub ghost struct StoreV {
    pub rows: Seq<RowV>,
    pub next: int,
}

impl View for Store {
    type V = StoreV;

    open spec fn view(&self) -> StoreV {
        StoreV { rows: rows_v(self.rows@), next: self.next_id as int }
    }
}

/// Well-formedness: the serial counter is positive, every row ID is positive
/// and below it, and no two rows share an ID.
pub open spec fn wf_rows(rows: Seq<RowV>, next: int) -> bool {
    &&& 1 <= next
    &&& forall|i: int| 0 <= i < rows.len() ==> 1 <= (#[trigger] rows[i].id) < next
    &&& forall|i: int, j: int|
        0 <= i < rows.len() && 0 <= j < rows.len() && i != j ==> (#[trigger] rows[i].id) != (
        #[trigger] rows[j].id)
}

pub open spec fn wf(s: StoreV) -> bool {
    wf_rows(s.rows, s.next)
}

pub open spec fn contains_id(rows: Seq<RowV>, id: int) -> bool {
    exists|i: int| 0 <= i < rows.len() && (#[trigger] rows[i].id) == id
}

/// The row holding `id`; meaningful only when `contains_id` holds.
pub open spec fn sp_lookup(rows: Seq<RowV>, id: int) -> RowV {
    let i = choose|i: int| 0 <= i < rows.len() && (#[trigger] rows[i].id) == id;
    rows[i]
}

/// What `UPDATE .. WHERE id = $3` leaves behind: matching rows carry the new
/// name and email, all others are untouched.
pub open spec fn sp_update(rows: Seq<RowV>, id: int, name: Seq<u8>, email: Seq<u8>) -> Seq<RowV> {
    rows.map(
        |i: int, r: RowV|
            if r.id == id {
                RowV { id: r.id, name: name, email: email }
            } else {
                r
            },
    )
}

/// What `DELETE .. WHERE id = $1` leaves behind.
pub open spec fn sp_delete(rows: Seq<RowV>, id: int) -> Seq<RowV>
    decreases rows.len(),
{
    if rows.len() == 0 {
        Seq::empty()
    } else if rows.last().id == id {
        sp_delete(rows.drop_last(), id)
    } else {
        sp_delete(rows.drop_last(), id).push(rows.last())
    }
}

/// Deletion only removes rows: every ID left afterwards was there before,
/// and the deleted ID is gone.
pub proof fn lemma_delete_keeps(rows: Seq<RowV>, id: int)
    ensures
        forall|x: int| contains_id(sp_delete(rows, id), x) ==> contains_id(rows, x) && x != id,
    decreases rows.len(),
{
    if rows.len() > 0 {
        let dl = rows.drop_last();
        let dd = sp_delete(dl, id);
        let d = sp_delete(rows, id);
        lemma_delete_keeps(dl, id);
        assert forall|x: int| contains_id(d, x) implies contains_id(rows, x) && x != id by {
            let i = choose|i: int| 0 <= i < d.len() && (#[trigger] d[i].id) == x;
            if rows.last().id == id {
                assert(d[i] == dd[i]);
                assert(contains_id(dd, x));
                assert(contains_id(dl, x));
                let j = choose|j: int| 0 <= j < dl.len() && (#[trigger] dl[j].id) == x;
                assert(rows[j].id == x);
            } else if i == d.len() - 1 {
                assert(d[i] == rows.last());
                assert(rows[rows.len() - 1].id == x);
            } else {
                assert(d[i] == dd[i]);
                assert(contains_id(dd, x));
                assert(contains_id(dl, x));
                let j = choose|j: int| 0 <= j < dl.len() && (#[trigger] dl[j].id) == x;
                assert(rows[j].id == x);
            }
        }
    }
}

/// Deleting an ID that no row holds changes nothing.
pub proof fn lemma_delete_absent(rows: Seq<RowV>, id: int)
    requires
        !contains_id(rows, id),
    ensures
        sp_delete(rows, id) == rows,
    decreases rows.len(),
{
    if rows.len() > 0 {
        let dl = rows.drop_last();
        assert(rows[rows.len() - 1].id != id);
        assert forall|x: int| 0 <= x < dl.len() implies (#[trigger] dl[x].id) != id by {
            assert(dl[x] == rows[x]);
            assert(rows[x].id != id);
        }
        lemma_delete_absent(dl, id);
        assert(sp_delete(rows, id) =~= rows);
    } else {
        assert(sp_delete(rows, id) =~= rows);
    }
}

/// Dropping the last row keeps the table well formed.
proof fn lemma_drop_last_wf(rows: Seq<RowV>, next: int)
    requires
        wf_rows(rows, next),
        rows.len() > 0,
    ensures
        wf_rows(rows.drop_last(), next),
{
    let dl = rows.drop_last();
    assert forall|i: int| 0 <= i < dl.len() implies 1 <= (#[trigger] dl[i].id) < next by {
        assert(dl[i] == rows[i]);
        assert(1 <= rows[i].id < next);
    }
    assert forall|i: int, j: int|
        0 <= i < dl.len() && 0 <= j < dl.len() && i != j implies (#[trigger] dl[i].id) != (
    #[trigger] dl[j].id) by {
        assert(dl[i] == rows[i]);
        assert(dl[j] == rows[j]);
        assert(rows[i].id != rows[j].id);
    }
}

/// Deletion keeps the table well formed, and afterwards the ID is absent.
pub proof fn lemma_delete_preserves_wf(rows: Seq<RowV>, id: int, next: int)
    requires
        wf_rows(rows, next),
    ensures
        wf_rows(sp_delete(rows, id), next),
        !contains_id(sp_delete(rows, id), id),
    decreases rows.len(),
{
    let d = sp_delete(rows, id);
    if rows.len() > 0 {
        let dl = rows.drop_last();
        let dd = sp_delete(dl, id);
        lemma_drop_last_wf(rows, next);
        lemma_delete_preserves_wf(dl, id, next);
        lemma_delete_keeps(dl, id);
        if rows.last().id != id {
            assert(d == dd.push(rows.last()));
            if contains_id(d, id) {
                let w = choose|i: int| 0 <= i < d.len() && (#[trigger] d[i].id) == id;
                if w < dd.len() {
                    assert(d[w] == dd[w]);
                    assert(contains_id(dd, id));
                } else {
                    assert(d[w] == rows.last());
                }
            }
            assert forall|i: int| 0 <= i < d.len() implies 1 <= (#[trigger] d[i].id) < next by {
                if i < dd.len() {
                    assert(d[i] == dd[i]);
                    assert(1 <= dd[i].id < next);
                } else {
                    assert(d[i] == rows.last());
                    assert(1 <= rows[rows.len() - 1].id < next);
                }
            }
            assert forall|i: int, j: int|
                0 <= i < d.len() && 0 <= j < d.len() && i != j implies (#[trigger] d[i].id) != (
            #[trigger] d[j].id) by {
                if i < dd.len() && j < dd.len() {
                    assert(d[i] == dd[i] && d[j] == dd[j]);
                    assert(dd[i].id != dd[j].id);
                } else if i < dd.len() {
                    assert(d[i] == dd[i]);
                    assert(d[j] == rows.last());
                    assert(contains_id(dd, dd[i].id));
                    lemma_front_id_differs(rows, id, dd[i].id);
                } else {
                    assert(d[j] == dd[j]);
                    assert(d[i] == rows.last());
                    assert(contains_id(dd, dd[j].id));
                    lemma_front_id_differs(rows, id, dd[j].id);
                }
            }
        }
    }
}

/// An ID surviving deletion from the front rows differs from the last
/// row's ID, because IDs are pairwise distinct.
proof fn lemma_front_id_differs(rows: Seq<RowV>, id: int, x: int)
    requires
        rows.len() > 0,
        forall|i: int, j: int|
            0 <= i < rows.len() && 0 <= j < rows.len() && i != j ==> (#[trigger] rows[i].id) != (
            #[trigger] rows[j].id),
        contains_id(sp_delete(rows.drop_last(), id), x),
    ensures
        x != rows.last().id,
{
    let dl = rows.drop_last();
    lemma_delete_keeps(dl, id);
    assert(contains_id(dl, x));
    let i = choose|i: int| 0 <= i < dl.len() && (#[trigger] dl[i].id) == x;
    assert(dl[i] == rows[i]);
    assert(rows[i].id == x);
    assert(rows[i].id != rows[rows.len() - 1].id);
}

impl Store {
    /// An empty table with the serial counter at its start.
    pub fn new() -> (s: Store)
        ensures
            s@.rows.len() == 0,
            s@.next == 1,
            wf(s@),
    {
        let s = Store { rows: Vec::new(), next_id: 1 };
        proof {
            assert(s@.rows =~= Seq::<RowV>::empty());
        }
        s
    }

    /// `INSERT INTO users (name, email) VALUES ($1,$2)`: appends a row under
    /// the current serial value and advances the counter.
    pub fn insert(&mut self, name: Vec<u8>, email: Vec<u8>) -> (id: i32)
        requires
            wf(old(self)@),
            old(self)@.next < 2147483647,
        ensures
            id as int == old(self)@.next,
            final(self)@.rows == old(self)@.rows.push(
                (RowV { id: old(self)@.next, name: name@, email: email@ }),
            ),
            final(self)@.next == old(self)@.next + 1,
            wf(final(self)@),
    {
        let id = self.next_id;
        let ghost nv = name@;
        let ghost ev = email@;
        let row = Row { id, name, email };
        let ghost before = self@.rows;
        self.rows.push(row);
        self.next_id = self.next_id + 1;
        proof {
            assert(self@.rows =~= before.push(RowV { id: id as int, name: nv, email: ev }));
            let now = self@.rows;
            assert forall|i: int| 0 <= i < now.len() implies 1 <= (#[trigger] now[i].id)
                < self@.next by {
                if i < before.len() {
                    assert(now[i] == before[i]);
                    assert(1 <= before[i].id < id as int);
                }
            }
            assert forall|i: int, j: int|
                0 <= i < now.len() && 0 <= j < now.len() && i != j implies (#[trigger] now[i].id)
                != (#[trigger] now[j].id) by {
                if i < before.len() && j < before.len() {
                    assert(before[i].id != before[j].id);
                } else if i < before.len() {
                    assert(before[i].id < id as int);
                } else if j < before.len() {
                    assert(before[j].id < id as int);
                }
            }
        }
        id
    }

    /// `SELECT * FROM users WHERE id = $1`: the unique row with this ID.
    pub fn query_one(&self, id: i32) -> (r: Option<&Row>)
        requires
            wf(self@),
        ensures
            match r {
                Some(row) => contains_id(self@.rows, id as int) && row@ == sp_lookup(
                    self@.rows,
                    id as int,
                ),
                None => !contains_id(self@.rows, id as int),
            },
    {
        let n = self.rows.len();
        let mut k: usize = 0;
        while k < n
            invariant
                0 <= k <= n,
                n == self.rows.len(),
                wf(self@),
                forall|t: int| 0 <= t < k ==> (#[trigger] self@.rows[t].id) != id as int,
            decreases n - k,
        {
            if self.rows[k].id == id {
                proof {
                    assert(self@.rows[k as int].id == id as int);
                    let w = choose|i: int|
                        0 <= i < self@.rows.len() && (#[trigger] self@.rows[i].id) == id as int;
                    assert(self@.rows[w].id == id as int);
                    assert(w == k as int);
                }
                return Some(&self.rows[k]);
            }
            k = k + 1;
        }
        proof {
            if contains_id(self@.rows, id as int) {
                let w = choose|i: int|
                    0 <= i < self@.rows.len() && (#[trigger] self@.rows[i].id) == id as int;
                assert(self@.rows[w].id != id as int);
            }
        }
        None
    }

    /// `SELECT * FROM users`: every row, in insertion order.
    pub fn query_all(&self) -> (r: &Vec<Row>)
        ensures
            rows_v(r@) == self@.rows,
    {
        &self.rows
    }

    /// `UPDATE users SET name = $1, email = $2 WHERE id = $3`: rewrites the
    /// matching row; reports how many rows matched. Zero matches still count
    /// as successful execution.
    pub fn update(&mut self, id: i32, name: Vec<u8>, email: Vec<u8>) -> (n: u64)
        requires
            wf(old(self)@),
        ensures
            final(self)@.rows == sp_update(old(self)@.rows, id as int, name@, email@),
            final(self)@.next == old(self)@.next,
            wf(final(self)@),
            n == if contains_id(old(self)@.rows, id as int) {
                1u64
            } else {
                0u64
            },
    {
        let ghost before = self@.rows;
        let ghost nv = name@;
        let ghost ev = email@;
        let len = self.rows.len();
        let mut k: usize = 0;
        while k < len
            invariant
                0 <= k <= len,
                len == self.rows.len(),
                before.len() == len,
                self@.rows == before,
                before == old(self)@.rows,
                self.next_id == old(self).next_id,
                wf(old(self)@),
                nv == name@,
                ev == email@,
                forall|t: int| 0 <= t < k ==> (#[trigger] before[t].id) != id as int,
            decreases len - k,
        {
            if self.rows[k].id == id {
                let ghost found = k as int;
                proof {
                    assert(before[found].id == id as int);
                }
                let row = Row { id, name, email };
                let ghost rv = row@;
                let ghost vb = self.rows@;
                proof {
                    assert(rv == RowV { id: id as int, name: nv, email: ev });
                }
                self.rows.set(k, row);
                proof {
                    assert(self.rows@[found]@ == rv);
                    assert forall|t: int| 0 <= t < before.len() implies #[trigger] self@.rows[t]
                        == sp_update(before, id as int, nv, ev)[t] by {
                        assert(self@.rows[t] == self.rows@[t]@);
                        if t != found {
                            assert(self.rows@[t] == vb[t]);
                            assert(before[t] == vb[t]@);
                            assert(before[t].id != before[found].id);
                        } else {
                            assert(self@.rows[t] == rv);
                        }
                    }
                    assert(self@.rows =~= sp_update(before, id as int, nv, ev));
                    let now = self@.rows;
                    assert forall|t: int| 0 <= t < now.len() implies 1 <= (#[trigger] now[t].id)
                        < self@.next by {
                        assert(now[t].id == before[t].id);
                        assert(1 <= before[t].id < self@.next);
                    }
                    assert forall|i: int, j: int|
                        0 <= i < now.len() && 0 <= j < now.len() && i != j implies (
                    #[trigger] now[i].id) != (#[trigger] now[j].id) by {
                        assert(now[i].id == before[i].id);
                        assert(now[j].id == before[j].id);
                        assert(before[i].id != before[j].id);
                    }
                }
                return 1;
            }
            k = k + 1;
        }
        proof {
            if contains_id(before, id as int) {
                let w = choose|i: int|
                    0 <= i < before.len() && (#[trigger] before[i].id) == id as int;
                assert(before[w].id != id as int);
            }
            assert forall|t: int| 0 <= t < before.len() implies #[trigger] self@.rows[t]
                == sp_update(before, id as int, nv, ev)[t] by {
                assert(before[t].id != id as int);
            }
            assert(self@.rows =~= sp_update(before, id as int, nv, ev));
        }
        0
    }

    /// `DELETE FROM users WHERE id = $1`: removes the matching row and
    /// reports the affected row count.
    pub fn delete(&mut self, id: i32) -> (n: u64)
        requires
            wf(old(self)@),
        ensures
            final(self)@.rows == sp_delete(old(self)@.rows, id as int),
            final(self)@.next == old(self)@.next,
            wf(final(self)@),
            !contains_id(final(self)@.rows, id as int),
            n == if contains_id(old(self)@.rows, id as int) {
                1u64
            } else {
                0u64
            },
    {
        let ghost before = self@.rows;
        let mut src: Vec<Row> = Vec::new();
        core::mem::swap(&mut src, &mut self.rows);
        let len = src.len();
        let mut out: Vec<Row> = Vec::new();
        let mut found = false;
        let mut k: usize = 0;
        proof {
            assert(rows_v(src@) =~= before);
            assert(before.subrange(0, 0) =~= Seq::<RowV>::empty());
            assert(rows_v(out@) =~= sp_delete(before.subrange(0, 0), id as int));
        }
        while k < len
            invariant
                0 <= k <= len,
                len == before.len(),
                src.len() == len - k,
                rows_v(src@) == before.subrange(k as int, len as int),
                rows_v(out@) == sp_delete(before.subrange(0, k as int), id as int),
                found == contains_id(before.subrange(0, k as int), id as int),
                self.next_id == old(self).next_id,
            decreases len - k,
        {
            let ghost pre = before.subrange(0, k as int);
            let ghost post = before.subrange(0, k as int + 1);
            proof {
                assert(post.drop_last() =~= pre);
                assert(post.last() == before[k as int]);
                assert(rows_v(src@)[0] == src@[0]@);
                assert(before.subrange(k as int, len as int)[0] == before[k as int]);
            }
            let ghost src_before = src@;
            let row = src.remove(0);
            proof {
                assert(row@ == before[k as int]);
                assert forall|t: int| 0 <= t < src@.len() implies (#[trigger] rows_v(src@)[t])
                    == before.subrange(k as int + 1, len as int)[t] by {
                    assert(src@[t] == src_before[t + 1]);
                    assert(rows_v(src_before)[t + 1] == src_before[t + 1]@);
                }
                assert(rows_v(src@) =~= before.subrange(k as int + 1, len as int));
            }
            if row.id == id {
                found = true;
                proof {
                    assert(post[k as int].id == id as int);
                    assert(contains_id(post, id as int));
                }
            } else {
                let ghost prev_out = rows_v(out@);
                out.push(row);
                proof {
                    assert(rows_v(out@) =~= prev_out.push(before[k as int]));
                    if !found {
                        assert forall|t: int| 0 <= t < post.len() implies (#[trigger] post[t].id)
                            != id as int by {
                            if t < k as int {
                                assert(pre[t].id == post[t].id);
                                if post[t].id == id as int {
                                    assert(contains_id(pre, id as int));
                                }
                            }
                        }
                        if contains_id(post, id as int) {
                            let w = choose|i: int|
                                0 <= i < post.len() && (#[trigger] post[i].id) == id as int;
                            assert(post[w].id != id as int);
                        }
                    }
                }
            }
            k = k + 1;
        }
        proof {
            assert(before.subrange(0, len as int) =~= before);
        }
        let count: u64 = if found {
            1
        } else {
            0
        };
        self.rows = out;
        proof {
            lemma_delete_preserves_wf(before, id as int, self.next_id as int);
        }
        count
    }
}

} // verus!

//! The task table: an in-memory store of task records keyed by an
//! auto-assigned id, with create, lookup, filtered and ordered listing,
//! update, completion and deletion. The listing order is priority
//! descending, then creation time ascending.

use vstd::prelude::*;
use vstd::pervasive::VecAdditionalExecFns;
use vstd::seq_lib::{to_multiset_build, to_multiset_contains, to_multiset_insert};

use crate::errors::TaskError;
use crate::models::Task;

verus! {

/// Whether some row of `rows` carries the id `id`.
pub open spec fn contains_id(rows: Seq<Task>, id: i32) -> bool {
    exists|i: int| 0 <= i < rows.len() && (#[trigger] rows[i]).id == Some(id)
}

/// The task as the store records it at creation: the caller's fields under a
/// newly assigned id.
pub open spec fn with_id(t: Task, id: i32) -> Task {
    Task { id: Some(id), ..t }
}

/// The row after a completion: completed, `updated_at` refreshed, every
/// other field untouched.
pub open spec fn completed_row(orig: Task, now: i64) -> Task {
    Task { completed: true, updated_at: now, ..orig }
}

/// The row after an update: the mutable fields overwritten from `t`,
/// `updated_at` refreshed by the store itself, id and creation time kept.
pub open spec fn updated_row(orig: Task, t: Task, now: i64) -> Task {
    Task {
        id: orig.id,
        title: t.title,
        description: t.description,
        due_date: t.due_date,
        priority: t.priority,
        completed: t.completed,
        created_at: orig.created_at,
        updated_at: now,
    }
}

/// Whether a row passes the listing filter: completed rows only when asked
/// for, and exactly the requested priority when a filter is set.
pub open spec fn row_matches(t: Task, include_completed: bool, priority_filter: Option<i32>) -> bool {
    &&& include_completed || !t.completed
    &&& match priority_filter {
        Some(p) => t.priority == p,
        None => true,
    }
}

/// The listing filter as a predicate on rows.
pub open spec fn match_pred(include_completed: bool, priority_filter: Option<i32>) -> spec_fn(
    Task,
) -> bool {
    |t: Task| row_matches(t, include_completed, priority_filter)
}

/// The listing order: priority descending first, creation time ascending
/// within equal priority. Total and transitive; ties in both fields leave
/// the relative order open.
pub open spec fn order_le(a: Task, b: Task) -> bool {
    ||| a.priority > b.priority
    ||| (a.priority == b.priority && a.created_at <= b.created_at)
}

/// Whether a listing is ordered: every earlier row comes no later than every
/// later row under the listing order.
pub open spec fn list_sorted(s: Seq<Task>) -> bool {
    forall|i: int, j: int| 0 <= i < j < s.len() ==> order_le(#[trigger] s[i], #[trigger] s[j])
}

/// Whether a stored row may enter a rebuilt store: it carries an assigned
/// id, at least 1, below the largest assignable id.
pub open spec fn row_acceptable(t: Task) -> bool {
    t.id matches Some(v) && 1 <= v < i32::MAX
}

/// The rows a rebuilt store keeps, in order: each acceptable row whose id no
/// earlier kept row carries.
pub open spec fn ingest(rows: Seq<Task>) -> Seq<Task>
    decreases rows.len(),
{
    if rows.len() == 0 {
        rows
    } else {
        let prefix = ingest(rows.drop_last());
        let last = rows.last();
        if row_acceptable(last) && !contains_id(prefix, last.id->Some_0) {
            prefix.push(last)
        } else {
            prefix
        }
    }
}

/// The task table. Rows are kept in creation order; listings are ordered on
/// the way out.
pub struct Database {
    tasks: Vec<Task>,
    next_id: i32,
}

impl View for Database {
    type V = Seq<Task>;

    closed spec fn view(&self) -> Seq<Task> {
        self.tasks@
    }
}

impl Database {
    /// The id the store will assign next.
    pub closed spec fn next_id_spec(&self) -> i32 {
        self.next_id
    }

    /// The store's invariant: every row carries an assigned id below the
    /// next free one, and no two rows share an id.
    pub open spec fn wf(&self) -> bool {
        &&& 1 <= self.next_id_spec()
        &&& forall|i: int|
            0 <= i < self@.len() ==> ((#[trigger] self@[i]).id matches Some(v) && 1 <= v
                < self.next_id_spec())
        &&& forall|i: int, j: int|
            0 <= i < j < self@.len() ==> (#[trigger] self@[i]).id != (#[trigger] self@[j]).id
    }

    /// An empty store.
    pub fn new() -> (db: Database)
        ensures
            db@ == Seq::<Task>::empty(),
            db.next_id_spec() == 1,
            db.wf(),
    {
        let db = Database { tasks: Vec::new(), next_id: 1 };
        proof {
            assert(db@ =~= Seq::<Task>::empty());
        }
        db
    }

    /// Ensure the table exists. The in-memory table always does, so this is
    /// a no-op kept for callers that initialize on every startup.
    pub fn init(&self) {
    }

    /// Persist a task under a fresh id and return that id. The caller's
    /// `id` field is ignored; every other field is stored as given. Fails
    /// only when the id space is exhausted.
    pub fn add_task(&mut self, task: &Task) -> (r: Result<i32, TaskError>)
        requires
            old(self).wf(),
        ensures
            final(self).wf(),
            old(self).next_id_spec() == i32::MAX ==> r == Err::<i32, TaskError>(
                TaskError::StoreFull,
            ) && final(self)@ == old(self)@ && final(self).next_id_spec() == old(
                self,
            ).next_id_spec(),
            old(self).next_id_spec() < i32::MAX ==> {
                &&& r == Ok::<i32, TaskError>(old(self).next_id_spec())
                &&& !contains_id(old(self)@, old(self).next_id_spec())
                &&& final(self)@ == old(self)@.push(with_id(*task, old(self).next_id_spec()))
                &&& final(self).next_id_spec() == old(self).next_id_spec() + 1
            },
    {
        if self.next_id == i32::MAX {
            return Err(TaskError::StoreFull);
        }
        let id = self.next_id;
        let mut t = task.clone();
        t.id = Some(id);
        self.tasks.push(t);
        self.next_id = id + 1;
        Ok(id)
    }

    /// Rebuild a store from rows read back from persistent storage. A row
    /// is kept only under an assigned id in range that no earlier row
    /// carries; other rows are dropped rather than rejected, so a corrupt
    /// file degrades instead of failing. Field values are kept as read.
    pub fn from_rows(rows: Vec<Task>) -> (db: Database)
        ensures
            db.wf(),
            db@ == ingest(rows@),
    {
        let mut db = Database { tasks: Vec::new(), next_id: 1 };
        let mut i: usize = 0;
        proof {
            assert(rows@.take(0) =~= Seq::<Task>::empty());
            assert(db@ =~= ingest(rows@.take(0)));
        }
        while i < rows.len()
            invariant
                i <= rows.len(),
                db.wf(),
                db@ == ingest(rows@.take(i as int)),
            decreases rows.len() - i,
        {
            let ghost pre = db;
            proof {
                assert(rows@.take(i as int + 1).drop_last() =~= rows@.take(i as int));
                assert(rows@.take(i as int + 1).last() == rows@[i as int]);
            }
            match rows[i].id {
                Some(v) => {
                    if 1 <= v && v < i32::MAX && !db.task_exists(v) {
                        if v >= db.next_id {
                            db.next_id = v + 1;
                        }
                        let t = rows[i].clone();
                        db.tasks.push(t);
                        proof {
                            assert forall|k: int|
                                0 <= k < db@.len() implies ((#[trigger] db@[k]).id matches Some(w)
                                && 1 <= w < db.next_id_spec()) by {
                                if k < pre@.len() {
                                    assert(db@[k] == pre@[k]);
                                    assert(pre@[k].id matches Some(w) && 1 <= w
                                        < pre.next_id_spec());
                                }
                            }
                            assert forall|k1: int, k2: int|
                                0 <= k1 < k2 < db@.len() implies (#[trigger] db@[k1]).id != (
                            #[trigger] db@[k2]).id by {
                                if k2 < pre@.len() {
                                    assert(pre@[k1].id != pre@[k2].id);
                                } else {
                                    assert(db@[k2].id == Some(v));
                                    assert(!contains_id(pre@, v));
                                    assert(db@[k1] == pre@[k1]);
                                }
                            }
                        }
                    }
                },
                None => {},
            }
            i += 1;
        }
        proof {
            assert(rows@.take(rows@.len() as int) =~= rows@);
        }
        db
    }

    /// Whether a task with this id is in the store.
    pub fn task_exists(&self, id: i32) -> (r: bool)
        ensures
            r == contains_id(self@, id),
    {
        let mut i: usize = 0;
        while i < self.tasks.len()
            invariant
                i <= self.tasks.len(),
                forall|k: int| 0 <= k < i ==> (#[trigger] self.tasks@[k]).id != Some(id),
            decreases self.tasks.len() - i,
        {
            let found = match self.tasks[i].id {
                Some(v) => v == id,
                None => false,
            };
            if found {
                return true;
            }
            i += 1;
        }
        false
    }

    /// The task with this id, if any; absence is not an error.
    pub fn get_task_by_id(&self, id: i32) -> (r: Option<Task>)
        ensures
            r is Some <==> contains_id(self@, id),
            r matches Some(t) ==> t.id == Some(id) && self@.contains(t),
    {
        let mut i: usize = 0;
        while i < self.tasks.len()
            invariant
                i <= self.tasks.len(),
                forall|k: int| 0 <= k < i ==> (#[trigger] self.tasks@[k]).id != Some(id),
            decreases self.tasks.len() - i,
        {
            let found = match self.tasks[i].id {
                Some(v) => v == id,
                None => false,
            };
            if found {
                let t = self.tasks[i].clone();
                return Some(t);
            }
            i += 1;
        }
        None
    }

    /// Overwrite the mutable fields of the row at `id` with those of `task`,
    /// refreshing `updated_at` to `now` regardless of what the caller
    /// passed; the id and the creation time are kept. Fails with a not-found
    /// error when no row carries the id, and then changes nothing.
    pub fn update_task(&mut self, id: i32, task: &Task, now: i64) -> (r: Result<(), TaskError>)
        requires
            old(self).wf(),
        ensures
            final(self).wf(),
            final(self).next_id_spec() == old(self).next_id_spec(),
            !contains_id(old(self)@, id) ==> r == Err::<(), TaskError>(TaskError::NotFound(id))
                && final(self)@ == old(self)@,
            contains_id(old(self)@, id) ==> r == Ok::<(), TaskError>(()) && exists|i: int|
                0 <= i < old(self)@.len() && (#[trigger] old(self)@[i]).id == Some(id)
                && final(self)@ == old(self)@.update(i, updated_row(old(self)@[i], *task, now)),
            final(self)@.len() == old(self)@.len(),
            forall|k: int|
                0 <= k < old(self)@.len() ==> (#[trigger] final(self)@[k]).id == old(self)@[k].id,
    {
        let mut i: usize = 0;
        while i < self.tasks.len()
            invariant
                old(self).wf(),
                *self == *old(self),
                i <= self.tasks.len(),
                forall|k: int| 0 <= k < i ==> (#[trigger] self.tasks@[k]).id != Some(id),
            decreases self.tasks.len() - i,
        {
            let found = match self.tasks[i].id {
                Some(v) => v == id,
                None => false,
            };
            if found {
                let ghost idx = i as int;
                let row = Task {
                    id: self.tasks[i].id,
                    title: task.title.clone(),
                    description: task.description.clone(),
                    due_date: task.due_date,
                    priority: task.priority,
                    completed: task.completed,
                    created_at: self.tasks[i].created_at,
                    updated_at: now,
                };
                proof {
                    assert(row == updated_row(old(self)@[idx], *task, now));
                }
                self.tasks.set(i, row);
                proof {
                    self.lemma_row_replaced(*old(self), idx, id);
                }
                return Ok(());
            }
            i += 1;
        }
        Err(TaskError::NotFound(id))
    }

    /// Mark the row at `id` completed and refresh `updated_at` to `now`;
    /// every other field is left untouched. Fails with a not-found error
    /// when no row carries the id, and then changes nothing.
    pub fn complete_task(&mut self, id: i32, now: i64) -> (r: Result<(), TaskError>)
        requires
            old(self).wf(),
        ensures
            final(self).wf(),
            final(self).next_id_spec() == old(self).next_id_spec(),
            !contains_id(old(self)@, id) ==> r == Err::<(), TaskError>(TaskError::NotFound(id))
                && final(self)@ == old(self)@,
            contains_id(old(self)@, id) ==> r == Ok::<(), TaskError>(()) && exists|i: int|
                0 <= i < old(self)@.len() && (#[trigger] old(self)@[i]).id == Some(id)
                && final(self)@ == old(self)@.update(i, completed_row(old(self)@[i], now)),
            final(self)@.len() == old(self)@.len(),
            forall|k: int|
                0 <= k < old(self)@.len() ==> (#[trigger] final(self)@[k]).id == old(self)@[k].id,
    {
        let mut i: usize = 0;
        while i < self.tasks.len()
            invariant
                old(self).wf(),
                *self == *old(self),
                i <= self.tasks.len(),
                forall|k: int| 0 <= k < i ==> (#[trigger] self.tasks@[k]).id != Some(id),
            decreases self.tasks.len() - i,
        {
            let found = match self.tasks[i].id {
                Some(v) => v == id,
                None => false,
            };
            if found {
                let ghost idx = i as int;
                let mut row = self.tasks[i].clone();
                row.completed = true;
                row.updated_at = now;
                proof {
                    assert(row == completed_row(old(self)@[idx], now));
                }
                self.tasks.set(i, row);
                proof {
                    self.lemma_row_replaced(*old(self), idx, id);
                }
                return Ok(());
            }
            i += 1;
        }
        Err(TaskError::NotFound(id))
    }

    /// Remove the row at `id` permanently. Removing an id that is not there
    /// is a no-op counted as success; afterwards no row carries the id
    /// either way.
    pub fn delete_task(&mut self, id: i32)
        requires
            old(self).wf(),
        ensures
            final(self).wf(),
            final(self).next_id_spec() == old(self).next_id_spec(),
            contains_id(old(self)@, id) ==> exists|i: int|
                0 <= i < old(self)@.len() && (#[trigger] old(self)@[i]).id == Some(id)
                && final(self)@ == old(self)@.remove(i),
            !contains_id(old(self)@, id) ==> final(self)@ == old(self)@,
            !contains_id(final(self)@, id),
    {
        let mut i: usize = 0;
        while i < self.tasks.len()
            invariant
                old(self).wf(),
                *self == *old(self),
                i <= self.tasks.len(),
                forall|k: int| 0 <= k < i ==> (#[trigger] self.tasks@[k]).id != Some(id),
            decreases self.tasks.len() - i,
        {
            let found = match self.tasks[i].id {
                Some(v) => v == id,
                None => false,
            };
            if found {
                let ghost idx = i as int;
                self.tasks.remove(i);
                proof {
                    self.lemma_row_removed(*old(self), idx, id);
                }
                return ;
            }
            i += 1;
        }
    }

    /// All rows that pass the listing filter, ordered by priority
    /// descending and, within equal priority, by creation time ascending:
    /// exactly the matching rows, each exactly as stored. With
    /// `include_completed` false no completed row is returned; with a
    /// priority filter set, only rows of exactly that priority are.
    pub fn get_all_tasks(&self, include_completed: bool, priority_filter: Option<i32>) -> (r: Vec<
        Task,
    >)
        ensures
            r@.to_multiset() == self@.filter(match_pred(include_completed, priority_filter)).to_multiset(),
            list_sorted(r@),
            forall|k: int|
                0 <= k < r@.len() ==> row_matches(
                    #[trigger] r@[k],
                    include_completed,
                    priority_filter,
                ),
    {
        let ghost pred = match_pred(include_completed, priority_filter);
        let mut matching: Vec<Task> = Vec::new();
        let mut i: usize = 0;
        proof {
            reveal(Seq::filter);
            assert(self@.take(0) =~= Seq::<Task>::empty());
            assert(matching@ =~= self@.take(0).filter(pred));
        }
        while i < self.tasks.len()
            invariant
                i <= self.tasks.len(),
                pred == match_pred(include_completed, priority_filter),
                matching@ == self.tasks@.take(i as int).filter(pred),
            decreases self.tasks.len() - i,
        {
            let keep = (include_completed || !self.tasks[i].completed) && (match priority_filter {
                Some(p) => self.tasks[i].priority == p,
                None => true,
            });
            proof {
                broadcast use vstd::prelude::Seq::lemma_filter_push;

                assert(self.tasks@.take(i as int + 1) =~= self.tasks@.take(i as int).push(
                    self.tasks@[i as int],
                ));
                assert(keep == pred(self.tasks@[i as int]));
            }
            if keep {
                let t = self.tasks[i].clone();
                matching.push(t);
            }
            i += 1;
        }
        proof {
            assert(self.tasks@.take(self.tasks@.len() as int) =~= self.tasks@);
        }
        let r = sort_tasks(matching);
        proof {
            let fseq = self@.filter(pred);
            assert forall|k: int|
                0 <= k < r@.len() implies row_matches(
                #[trigger] r@[k],
                include_completed,
                priority_filter,
            ) by {
                let t = r@[k];
                assert(r@.contains(t));
                to_multiset_contains(r@, t);
                to_multiset_contains(fseq, t);
                let m = choose|m: int| 0 <= m < fseq.len() && fseq[m] == t;
                vstd::prelude::Seq::lemma_filter_pred(self@, pred, m);
            }
        }
        r
    }

    /// After replacing the row at `idx` with one carrying the same id, the
    /// store is still well formed and every row keeps its id.
    proof fn lemma_row_replaced(self, pre: Database, idx: int, id: i32)
        requires
            pre.wf(),
            0 <= idx < pre@.len(),
            pre@[idx].id == Some(id),
            self@.len() == pre@.len(),
            self@[idx].id == pre@[idx].id,
            forall|k: int| 0 <= k < pre@.len() && k != idx ==> self@[k] == pre@[k],
            self.next_id_spec() == pre.next_id_spec(),
        ensures
            self.wf(),
            forall|k: int| 0 <= k < pre@.len() ==> (#[trigger] self@[k]).id == pre@[k].id,
    {
        assert forall|k: int| 0 <= k < pre@.len() implies (#[trigger] self@[k]).id == pre@[k].id by {
            if k != idx {
                assert(self@[k] == pre@[k]);
            }
        }
        assert forall|k: int|
            0 <= k < self@.len() implies ((#[trigger] self@[k]).id matches Some(v) && 1 <= v
            < self.next_id_spec()) by {
            assert(pre@[k].id matches Some(v) && 1 <= v < pre.next_id_spec());
        }
        assert forall|k1: int, k2: int|
            0 <= k1 < k2 < self@.len() implies (#[trigger] self@[k1]).id != (#[trigger] self@[k2]).id by {
            assert(pre@[k1].id != pre@[k2].id);
        }
    }

    /// After removing the row at `idx`, whose id no other row carried, the
    /// store is still well formed and no row carries that id.
    proof fn lemma_row_removed(self, pre: Database, idx: int, id: i32)
        requires
            pre.wf(),
            0 <= idx < pre@.len(),
            pre@[idx].id == Some(id),
            self@ == pre@.remove(idx),
            self.next_id_spec() == pre.next_id_spec(),
        ensures
            self.wf(),
            !contains_id(self@, id),
    {
        assert forall|k: int|
            0 <= k < self@.len() implies ((#[trigger] self@[k]).id matches Some(v) && 1 <= v
            < self.next_id_spec()) by {
            let m = if k < idx { k } else { k + 1 };
            assert(self@[k] == pre@[m]);
            assert(pre@[m].id matches Some(v) && 1 <= v < pre.next_id_spec());
        }
        assert forall|k1: int, k2: int|
            0 <= k1 < k2 < self@.len() implies (#[trigger] self@[k1]).id != (#[trigger] self@[k2]).id by {
            let m1 = if k1 < idx { k1 } else { k1 + 1 };
            let m2 = if k2 < idx { k2 } else { k2 + 1 };
            assert(self@[k1] == pre@[m1]);
            assert(self@[k2] == pre@[m2]);
            assert(pre@[m1].id != pre@[m2].id);
        }
        assert forall|k: int| 0 <= k < self@.len() implies (#[trigger] self@[k]).id != Some(id) by {
            let m = if k < idx { k } else { k + 1 };
            assert(self@[k] == pre@[m]);
            if m < idx {
                assert(pre@[m].id != pre@[idx].id);
            } else {
                assert(pre@[idx].id != pre@[m].id);
            }
        }
    }
}

/// No two rows of a well-formed store share an id: an id returned by
/// creation names one task for as long as that task lives.
pub proof fn lemma_ids_unique(db: Database)
    requires
        db.wf(),
    ensures
        forall|i: int, j: int|
            0 <= i < j < db@.len() ==> (#[trigger] db@[i]).id != (#[trigger] db@[j]).id,
{
}

/// Completion changes exactly the completion flag and the update time: the
/// id, title, description, due date, priority and creation time are kept,
/// and the update time strictly increases whenever the given instant lies
/// after the row's.
pub proof fn lemma_complete_preserves_fields(orig: Task, now: i64)
    ensures
        completed_row(orig, now).completed == true,
        completed_row(orig, now).id == orig.id,
        completed_row(orig, now).title == orig.title,
        completed_row(orig, now).description == orig.description,
        completed_row(orig, now).due_date == orig.due_date,
        completed_row(orig, now).priority == orig.priority,
        completed_row(orig, now).created_at == orig.created_at,
        completed_row(orig, now).updated_at == now,
        now > orig.updated_at ==> completed_row(orig, now).updated_at > orig.updated_at,
{
}

/// The listing comparison as executable code.
fn task_le(a: &Task, b: &Task) -> (r: bool)
    ensures
        r == order_le(*a, *b),
{
    a.priority > b.priority || (a.priority == b.priority && a.created_at <= b.created_at)
}

/// Sort rows under the listing order by insertion, keeping exactly the given
/// rows.
fn sort_tasks(input: Vec<Task>) -> (r: Vec<Task>)
    ensures
        r@.to_multiset() == input@.to_multiset(),
        list_sorted(r@),
{
    let mut r: Vec<Task> = Vec::new();
    let mut i: usize = 0;
    proof {
        assert(input@.take(0) =~= Seq::<Task>::empty());
        assert(r@ =~= input@.take(0));
    }
    while i < input.len()
        invariant
            i <= input.len(),
            r@.to_multiset() == input@.take(i as int).to_multiset(),
            list_sorted(r@),
        decreases input.len() - i,
    {
        let t = input[i].clone();
        let ghost telt = input@[i as int];
        let ghost pre = r@;
        let mut j: usize = 0;
        while j < r.len() && task_le(&r[j], &t)
            invariant
                j <= r.len(),
                r@ == pre,
                t == telt,
                forall|k: int| 0 <= k < j ==> order_le(#[trigger] r@[k], telt),
            decreases r.len() - j,
        {
            j += 1;
        }
        let ghost jj = j as int;
        r.insert(j, t);
        proof {
            pre.insert_ensures(jj, telt);
            assert(r@ == pre.insert(jj, telt));
            to_multiset_insert(pre, jj, telt);
            to_multiset_build(input@.take(i as int), telt);
            assert(input@.take(i as int + 1) =~= input@.take(i as int).push(telt));
            assert forall|a: int, b: int| 0 <= a < b < r@.len() implies order_le(
                #[trigger] r@[a],
                #[trigger] r@[b],
            ) by {
                if a < jj {
                    assert(r@[a] == pre[a]);
                } else if a > jj {
                    assert(r@[a] == pre[a - 1]);
                }
                if b < jj {
                    assert(r@[b] == pre[b]);
                } else if b > jj {
                    assert(r@[b] == pre[b - 1]);
                }
                if a == jj && b > jj {
                    // telt goes before every row the scan did not pass
                    assert(order_le(telt, pre[jj]));
                    assert(order_le(pre[jj], pre[b - 1]) || jj == b - 1);
                }
            }
        }
        i += 1;
    }
    proof {
        assert(input@.take(input@.len() as int) =~= input@);
    }
    r
}

} // verus!

use vstd::prelude::*;
use crate::error::Error;
use crate::todo::{CreateTodo, Todo, TodoView, UpdateTodo};

verus! {

/// The table of todos, with the next id to assign and the last timestamp
/// handed out. Ids are never reused; timestamps never go backwards.
pub struct TodoStore {
    rows: Vec<Todo>,
    next_id: i64,
    clock: i64,
}

/// The mathematical value of a [`TodoStore`]: its rows in order of creation,
/// the id the next todo will get, and the last timestamp issued.
pub struct TableView {
    pub rows: Seq<TodoView>,
    pub next_id: i64,
    pub clock: i64,
}

impl TableView {
    /// Ids are positive, below `next_id` and increasing along the rows, so
    /// each id names at most one row; no row was touched after `clock`.
    pub open spec fn wf(self) -> bool {
        &&& self.next_id >= 1
        &&& forall|i: int|
            0 <= i < self.rows.len() ==> 1 <= #[trigger] self.rows[i].id < self.next_id
        &&& forall|i: int, j: int|
            0 <= i < j < self.rows.len() ==> #[trigger] self.rows[i].id < #[trigger] self.rows[j].id
        &&& forall|i: int|
            0 <= i < self.rows.len() ==> #[trigger] self.rows[i].created_at
                <= self.rows[i].updated_at && self.rows[i].updated_at <= self.clock
    }

    pub open spec fn has(self, id: i64) -> bool {
        exists|i: int| 0 <= i < self.rows.len() && #[trigger] self.rows[i].id == id
    }

    /// The position of the row with id `id`, where there is one.
    pub open spec fn index_of(self, id: i64) -> int {
        choose|i: int| 0 <= i < self.rows.len() && #[trigger] self.rows[i].id == id
    }
}

/// The timestamp of a change made at time `now` after the last one at
/// `clock`: `now` itself, unless that would not come after `clock`.
pub open spec fn stamp(clock: i64, now: i64) -> int {
    if now > clock {
        now as int
    } else {
        clock + 1
    }
}

pub open spec fn can_stamp(clock: i64, now: i64) -> bool {
    stamp(clock, now) <= i64::MAX
}

/// Every todo, in order of creation.
pub open spec fn list_spec(s: TableView) -> Seq<TodoView> {
    s.rows
}

/// The todo with id `id`, or `NotFound`.
pub open spec fn read_spec(s: TableView, id: i64) -> Result<TodoView, Error> {
    if s.has(id) {
        Ok(s.rows[s.index_of(id)])
    } else {
        Err(Error::NotFound)
    }
}

/// A new todo with the given body, not completed, stamped at `now`, under the
/// next id; `StoreFailure` once ids or timestamps are spent.
pub open spec fn create_spec(s: TableView, body: Seq<char>, now: i64) -> (
    Result<TodoView, Error>,
    TableView,
) {
    if s.next_id == i64::MAX || !can_stamp(s.clock, now) {
        (Err(Error::StoreFailure), s)
    } else {
        let ts = stamp(s.clock, now) as i64;
        let t = TodoView { id: s.next_id, body, completed: false, created_at: ts, updated_at: ts };
        (Ok(t), TableView { rows: s.rows.push(t), next_id: (s.next_id + 1) as i64, clock: ts })
    }
}

/// The todo with id `id` given a new body and state and stamped at `now`;
/// `NotFound` where there is no such todo, `StoreFailure` once timestamps are
/// spent.
pub open spec fn update_spec(s: TableView, id: i64, body: Seq<char>, completed: bool, now: i64) -> (
    Result<TodoView, Error>,
    TableView,
) {
    if !s.has(id) {
        (Err(Error::NotFound), s)
    } else if !can_stamp(s.clock, now) {
        (Err(Error::StoreFailure), s)
    } else {
        let i = s.index_of(id);
        let ts = stamp(s.clock, now) as i64;
        let t = TodoView { body, completed, updated_at: ts, ..s.rows[i] };
        (Ok(t), TableView { rows: s.rows.update(i, t), clock: ts, ..s })
    }
}

/// The store without the todo with id `id`; unchanged where there is none.
pub open spec fn delete_spec(s: TableView, id: i64) -> TableView {
    if s.has(id) {
        TableView { rows: s.rows.remove(s.index_of(id)), ..s }
    } else {
        s
    }
}

pub open spec fn result_view(r: Result<Todo, Error>) -> Result<TodoView, Error> {
    match r {
        Ok(t) => Ok(t@),
        Err(e) => Err(e),
    }
}

impl View for TodoStore {
    type V = TableView;

    closed spec fn view(&self) -> TableView {
        TableView {
            rows: self.rows@.map_values(|t: Todo| t@),
            next_id: self.next_id,
            clock: self.clock,
        }
    }
}

/// Where ids are unique, the row found by search is the one `index_of` names.
pub proof fn lemma_index_of(s: TableView, i: int)
    requires
        s.wf(),
        0 <= i < s.rows.len(),
    ensures
        s.has(s.rows[i].id),
        s.index_of(s.rows[i].id) == i,
{
    let id = s.rows[i].id;
    assert(s.rows[i].id == id);
    let k = s.index_of(id);
    if k < i {
        assert(s.rows[k].id < s.rows[i].id);
    } else if k > i {
        assert(s.rows[i].id < s.rows[k].id);
    }
}

impl TodoStore {
    /// An empty store: the first todo gets id 1.
    pub fn new() -> (r: TodoStore)
        ensures
            r@.wf(),
            r@.rows.len() == 0,
            r@.next_id == 1,
            r@.clock == i64::MIN,
    {
        let r = TodoStore { rows: Vec::new(), next_id: 1, clock: i64::MIN };
        assert(r@.rows =~= Seq::<TodoView>::empty());
        r
    }

    /// The position of the row with id `id`, searching from the front.
    fn find(&self, id: i64) -> (r: Option<usize>)
        requires
            self@.wf(),
        ensures
            match r {
                Some(i) => self@.has(id) && i == self@.index_of(id) && i < self@.rows.len(),
                None => !self@.has(id),
            },
    {
        let ghost s = self@;
        let mut i: usize = 0;
        while i < self.rows.len()
            invariant
                s == self@,
                s.wf(),
                i <= self.rows.len(),
                forall|k: int| 0 <= k < i ==> s.rows[k].id != id,
            decreases self.rows.len() - i,
        {
            assert(s.rows[i as int] == self.rows@[i as int]@);
            if self.rows[i].id == id {
                proof {
                    lemma_index_of(s, i as int);
                }
                return Some(i);
            }
            i = i + 1;
        }
        assert forall|k: int| 0 <= k < s.rows.len() implies s.rows[k].id != id by {}
        None
    }
}

/// Sets the clock for a change at time `now` and returns the change's
/// timestamp, or `None` once timestamps are spent.
fn next_stamp(clock: i64, now: i64) -> (r: Option<i64>)
    ensures
        r is Some <==> can_stamp(clock, now),
        r is Some ==> r->Some_0 == stamp(clock, now),
{
    if now > clock {
        Some(now)
    } else if clock < i64::MAX {
        Some(clock + 1)
    } else {
        None
    }
}

impl Todo {
    /// Every todo in the store, in order of creation.
    pub fn list(store: &TodoStore) -> (r: Vec<Todo>)
        requires
            store@.wf(),
        ensures
            r@.map_values(|t: Todo| t@) == list_spec(store@),
    {
        let mut out: Vec<Todo> = Vec::new();
        let mut i: usize = 0;
        while i < store.rows.len()
            invariant
                i <= store.rows.len(),
                out@.len() == i,
                out@.map_values(|t: Todo| t@) == store@.rows.take(i as int),
            decreases store.rows.len() - i,
        {
            let ghost prev = out@;
            let t = store.rows[i].duplicate();
            assert(store@.rows[i as int] == t@);
            out.push(t);
            assert(out@ == prev.push(t));
            assert forall|k: int| 0 <= k < i implies #[trigger] out@[k]@ == store@.rows[k] by {
                assert(prev.map_values(|t: Todo| t@)[k] == store@.rows.take(i as int)[k]);
            }
            i = i + 1;
            assert(out@.map_values(|t: Todo| t@) =~= store@.rows.take(i as int));
        }
        assert(store@.rows.take(i as int) =~= store@.rows);
        out
    }

    /// The todo with id `id`.
    pub fn read(store: &TodoStore, id: i64) -> (r: Result<Todo, Error>)
        requires
            store@.wf(),
        ensures
            result_view(r) == read_spec(store@, id),
    {
        match store.find(id) {
            Some(i) => Ok(store.rows[i].duplicate()),
            None => Err(Error::NotFound),
        }
    }

    /// Adds a todo with the body of `new_todo`, not completed, created and
    /// updated at `now` (or just after the last change, if `now` is not
    /// later), under the next id.
    pub fn create(store: &mut TodoStore, new_todo: CreateTodo, now: i64) -> (r: Result<Todo, Error>)
        requires
            old(store)@.wf(),
        ensures
            final(store)@.wf(),
            (result_view(r), final(store)@) == create_spec(old(store)@, new_todo.spec_body(), now),
    {
        if store.next_id == i64::MAX {
            return Err(Error::StoreFailure);
        }
        let ts = match next_stamp(store.clock, now) {
            Some(ts) => ts,
            None => return Err(Error::StoreFailure),
        };
        let ghost s = store@;
        let body = new_todo.body().to_string();
        let t = Todo { id: store.next_id, body, completed: false, created_at: ts, updated_at: ts };
        let out = t.duplicate();
        store.rows.push(t);
        store.next_id = store.next_id + 1;
        store.clock = ts;
        assert(store@.rows =~= s.rows.push(out@));
        Ok(out)
    }

    /// Gives the todo with id `id` the body and state of `updated_todo`, and
    /// stamps it at `now` (or just after the last change, if `now` is not
    /// later).
    pub fn update(store: &mut TodoStore, id: i64, updated_todo: UpdateTodo, now: i64) -> (r: Result<Todo, Error>)
        requires
            old(store)@.wf(),
        ensures
            final(store)@.wf(),
            (result_view(r), final(store)@) == update_spec(
                old(store)@,
                id,
                updated_todo.spec_body(),
                updated_todo.spec_completed(),
                now,
            ),
    {
        let i = match store.find(id) {
            Some(i) => i,
            None => return Err(Error::NotFound),
        };
        let ts = match next_stamp(store.clock, now) {
            Some(ts) => ts,
            None => return Err(Error::StoreFailure),
        };
        let ghost s = store@;
        let old_row = store.rows.remove(i);
        assert(old_row@ == s.rows[i as int]);
        let t = Todo {
            id: old_row.id,
            body: updated_todo.body().to_string(),
            completed: updated_todo.completed(),
            created_at: old_row.created_at,
            updated_at: ts,
        };
        let out = t.duplicate();
        store.rows.insert(i, t);
        store.clock = ts;
        assert(store@.rows =~= s.rows.update(i as int, out@));
        assert forall|k: int| 0 <= k < store@.rows.len() implies #[trigger] store@.rows[k].created_at
            <= store@.rows[k].updated_at <= store@.clock by {
            assert(0 <= k < s.rows.len());
            assert(s.rows[k].created_at <= s.rows[k].updated_at);
            if k != i {
                assert(store@.rows[k] == s.rows[k]);
            }
        }
        Ok(out)
    }

    /// Removes the todo with id `id`. Removing one that is not there is no
    /// error.
    pub fn delete(store: &mut TodoStore, id: i64) -> (r: Result<(), Error>)
        requires
            old(store)@.wf(),
        ensures
            final(store)@.wf(),
            r is Ok,
            final(store)@ == delete_spec(old(store)@, id),
    {
        let ghost s = store@;
        match store.find(id) {
            Some(i) => {
                store.rows.remove(i);
                assert(store@.rows =~= s.rows.remove(i as int));
                assert forall|a: int, b: int| 0 <= a < b < store@.rows.len() implies
                    #[trigger] store@.rows[a].id < #[trigger] store@.rows[b].id by {
                    let a2 = if a < i { a } else { a + 1 };
                    let b2 = if b < i { b } else { b + 1 };
                    assert(store@.rows[a] == s.rows[a2]);
                    assert(store@.rows[b] == s.rows[b2]);
                }
                assert forall|k: int| 0 <= k < store@.rows.len() implies {
                    &&& 1 <= #[trigger] store@.rows[k].id < store@.next_id
                    &&& store@.rows[k].created_at <= store@.rows[k].updated_at
                    &&& store@.rows[k].updated_at <= store@.clock
                } by {
                    let k2 = if k < i { k } else { k + 1 };
                    assert(store@.rows[k] == s.rows[k2]);
                    assert(s.rows[k2].created_at <= s.rows[k2].updated_at);
                }
            },
            None => {},
        }
        Ok(())
    }
}

} // verus!

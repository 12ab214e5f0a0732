use vstd::prelude::*;
use crate::error::Error;
use crate::todo::TodoView;
use crate::store::{
    TableView, create_spec, delete_spec, list_spec, read_spec, update_spec,
    lemma_index_of,
};

verus! {

/// Creating keeps the store well formed, and a created todo is not completed,
/// was created and updated at the same instant, and gets the store's next id:
/// one that no todo in the store has and that is below every id handed out
/// later (no operation lowers the next id).
pub proof fn lemma_create_fresh(s: TableView, body: Seq<char>, now: i64)
    requires
        s.wf(),
    ensures
        create_spec(s, body, now).1.wf(),
        create_spec(s, body, now).0 matches Ok(t) ==> {
            &&& !t.completed
            &&& t.body == body
            &&& t.created_at == t.updated_at
            &&& t.id == s.next_id
            &&& !s.has(t.id)
            &&& forall|i: int| 0 <= i < s.rows.len() ==> #[trigger] s.rows[i].id < t.id
            &&& t.id < create_spec(s, body, now).1.next_id
        },
{
    let (r, s2) = create_spec(s, body, now);
    if let Ok(t) = r {
        assert(s2.rows.last() == t);
        assert forall|i: int, j: int| 0 <= i < j < s2.rows.len() implies
            #[trigger] s2.rows[i].id < #[trigger] s2.rows[j].id by {
            assert(s2.rows[i] == s.rows[i]);
            if j < s.rows.len() {
                assert(s2.rows[j] == s.rows[j]);
            }
        }
        assert forall|i: int| 0 <= i < s2.rows.len() implies {
            &&& 1 <= #[trigger] s2.rows[i].id < s2.next_id
            &&& s2.rows[i].created_at <= s2.rows[i].updated_at
            &&& s2.rows[i].updated_at <= s2.clock
        } by {
            if i < s.rows.len() {
                assert(s2.rows[i] == s.rows[i]);
                assert(s.rows[i].created_at <= s.rows[i].updated_at);
            }
        }
        if s.has(t.id) {
            let k = choose|k: int| 0 <= k < s.rows.len() && #[trigger] s.rows[k].id == t.id;
            assert(s.rows[k].id < s.next_id);
        }
    }
}

/// Reading the id of a todo just created gives that todo back, with the body
/// it was created with and not completed.
pub proof fn lemma_read_after_create(s: TableView, body: Seq<char>, now: i64)
    requires
        s.wf(),
    ensures
        create_spec(s, body, now).0 matches Ok(t) ==> {
            &&& read_spec(create_spec(s, body, now).1, t.id) == Ok::<_, Error>(t)
            &&& t.body == body
            &&& !t.completed
        },
{
    lemma_create_fresh(s, body, now);
    let (r, s2) = create_spec(s, body, now);
    if let Ok(t) = r {
        lemma_index_of(s2, s.rows.len() as int);
    }
}

/// An update keeps the id and creation time, leaves the todo updated no
/// earlier than it was created, and strictly later than it was last updated.
pub proof fn lemma_update_refreshes(
    s: TableView,
    id: i64,
    body: Seq<char>,
    completed: bool,
    now: i64,
)
    requires
        s.wf(),
    ensures
        update_spec(s, id, body, completed, now).0 matches Ok(t) ==> {
            &&& read_spec(s, id) matches Ok(before)
            &&& t.id == id == before.id
            &&& t.body == body
            &&& t.completed == completed
            &&& t.created_at == before.created_at
            &&& t.updated_at >= t.created_at
            &&& t.updated_at > before.updated_at
            &&& t.updated_at >= now
        },
{
    if s.has(id) {
        let i = s.index_of(id);
        assert(s.rows[i].created_at <= s.rows[i].updated_at);
    }
}

/// On an id that names no todo, reading and updating fail with `NotFound`
/// and leave the store as it was, and deleting leaves it as it was.
pub proof fn lemma_missing_id(s: TableView, id: i64, body: Seq<char>, completed: bool, now: i64)
    requires
        s.wf(),
        !s.has(id),
    ensures
        read_spec(s, id) == Err::<TodoView, _>(Error::NotFound),
        update_spec(s, id, body, completed, now) == (Err::<TodoView, _>(Error::NotFound), s),
        delete_spec(s, id) == s,
{
}

/// After a todo is deleted, reading its id fails with `NotFound`.
pub proof fn lemma_read_after_delete(s: TableView, id: i64)
    requires
        s.wf(),
    ensures
        delete_spec(s, id).wf(),
        read_spec(delete_spec(s, id), id) == Err::<TodoView, _>(Error::NotFound),
{
    let s2 = delete_spec(s, id);
    if s.has(id) {
        let i = s.index_of(id);
        assert forall|a: int, b: int| 0 <= a < b < s2.rows.len() implies
            #[trigger] s2.rows[a].id < #[trigger] s2.rows[b].id by {
            let a2 = if a < i { a } else { a + 1 };
            let b2 = if b < i { b } else { b + 1 };
            assert(s2.rows[a] == s.rows[a2]);
            assert(s2.rows[b] == s.rows[b2]);
        }
        assert forall|k: int| 0 <= k < s2.rows.len() implies {
            &&& 1 <= #[trigger] s2.rows[k].id < s2.next_id
            &&& s2.rows[k].created_at <= s2.rows[k].updated_at
            &&& s2.rows[k].updated_at <= s2.clock
        } by {
            let k2 = if k < i { k } else { k + 1 };
            assert(s2.rows[k] == s.rows[k2]);
            assert(s.rows[k2].created_at <= s.rows[k2].updated_at);
        }
        if s2.has(id) {
            let k = choose|k: int| 0 <= k < s2.rows.len() && #[trigger] s2.rows[k].id == id;
            let k2 = if k < i { k } else { k + 1 };
            assert(s2.rows[k] == s.rows[k2]);
            if k2 < i {
                assert(s.rows[k2].id < s.rows[i].id);
            } else {
                assert(s.rows[i].id < s.rows[k2].id);
            }
        }
    }
}

/// Three creates on an empty store, all successful, leave exactly three todos
/// to list, with the three bodies in the order they were created.
pub proof fn lemma_list_after_three_creates(
    s: TableView,
    b1: Seq<char>,
    b2: Seq<char>,
    b3: Seq<char>,
    n1: i64,
    n2: i64,
    n3: i64,
)
    requires
        s.wf(),
        s.rows.len() == 0,
        create_spec(s, b1, n1).0 is Ok,
        create_spec(create_spec(s, b1, n1).1, b2, n2).0 is Ok,
        create_spec(create_spec(create_spec(s, b1, n1).1, b2, n2).1, b3, n3).0 is Ok,
    ensures
        ({
            let l = list_spec(create_spec(create_spec(create_spec(s, b1, n1).1, b2, n2).1, b3, n3).1);
            &&& l.len() == 3
            &&& l[0].body == b1
            &&& l[1].body == b2
            &&& l[2].body == b3
        }),
{
}

} // verus!

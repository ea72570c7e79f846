//! The guarantees of the store, stated and proved over its mathematical
//! state [`StoreView`], which the contracts of every operation speak of.

use vstd::prelude::*;

use crate::store::StoreView;

verus! {

/// Creation keeps the store invariant: in particular, after any number of
/// `create` calls the identifiers in the collection stay pairwise distinct.
pub proof fn lemma_create_preserves_wf(m: StoreView, text: Seq<char>)
    requires
        m.wf(),
    ensures
        m.created(text).wf(),
{
    let m1 = m.created(text);
    assert forall|i: int, j: int|
        0 <= i < m1.todos.len() && 0 <= j < m1.todos.len() && i != j implies m1.todos[i].id
        != m1.todos[j].id by {
        if i < m.todos.len() && j < m.todos.len() {
            assert(m.todos[i].id != m.todos[j].id);
        }
    }
}

/// Updating a completion flag keeps the store invariant: no identifier
/// changes.
pub proof fn lemma_update_preserves_wf(m: StoreView, id: int, completed: bool)
    requires
        m.wf(),
    ensures
        m.updated(id, completed).wf(),
{
    let m1 = m.updated(id, completed);
    if m.contains_id(id) {
        assert forall|k: int| 0 <= k < m1.todos.len() implies m1.todos[k].id
            == m.todos[k].id by {}
    }
}

/// Deleting a record keeps the store invariant: what remains is a
/// subsequence of what was there.
pub proof fn lemma_delete_preserves_wf(m: StoreView, id: int)
    requires
        m.wf(),
    ensures
        m.deleted(id).wf(),
{
    let m1 = m.deleted(id);
    if m.contains_id(id) {
        let i0 = m.index_of(id);
        m.todos.remove_ensures(i0);
        assert forall|k: int| 0 <= k < m1.todos.len() implies (k < i0 ==> m1.todos[k]
            == m.todos[k]) && (k >= i0 ==> m1.todos[k] == m.todos[k + 1]) by {}
        assert(m1.ids_unique());
        assert(m1.ids_assigned());
    }
}

/// The state after a whole sequence of `create` calls, applied oldest
/// first.
pub open spec fn created_all(m: StoreView, texts: Seq<Seq<char>>) -> StoreView
    decreases texts.len(),
{
    if texts.len() == 0 {
        m
    } else {
        created_all(m.created(texts[0]), texts.drop_first())
    }
}

/// A run of creates grows the collection by exactly one record per call
/// and advances the counter by the same amount.
pub proof fn lemma_created_all_counts(m: StoreView, texts: Seq<Seq<char>>)
    ensures
        created_all(m, texts).todos.len() == m.todos.len() + texts.len(),
        created_all(m, texts).next_id == m.next_id + texts.len(),
    decreases texts.len(),
{
    if texts.len() != 0 {
        lemma_created_all_counts(m.created(texts[0]), texts.drop_first());
    }
}

/// After any sequence of `create` calls the store invariant still holds;
/// in particular all identifiers in the collection are pairwise distinct.
pub proof fn lemma_created_all_wf(m: StoreView, texts: Seq<Seq<char>>)
    requires
        m.wf(),
    ensures
        created_all(m, texts).wf(),
    decreases texts.len(),
{
    if texts.len() != 0 {
        lemma_create_preserves_wf(m, texts[0]);
        lemma_created_all_wf(m.created(texts[0]), texts.drop_first());
    }
}

/// Creation is monotonic: of two records created in sequence — any number
/// of further creates in between — the later carries the strictly greater
/// identifier.
pub proof fn lemma_creation_monotonic(
    m: StoreView,
    first: Seq<char>,
    between: Seq<Seq<char>>,
    second: Seq<char>,
)
    ensures
        created_all(m.created(first), between).new_todo(second).id > m.new_todo(first).id,
{
    lemma_created_all_counts(m.created(first), between);
}

/// Round trip: the record `create(text)` returns is found again under its
/// identifier, carrying that text and `completed == false`.
pub proof fn lemma_create_round_trip(m: StoreView, text: Seq<char>)
    requires
        m.wf(),
    ensures
        ({
            let t = m.new_todo(text);
            let m1 = m.created(text);
            &&& m1.contains_id(t.id)
            &&& m1.todo_with_id(t.id) == t
            &&& t.text == text
            &&& !t.completed
        }),
{
    let t = m.new_todo(text);
    let m1 = m.created(text);
    let n = m.todos.len() as int;
    assert(m1.todos[n] == t);
    assert(m1.contains_id(t.id));
    lemma_create_preserves_wf(m, text);
    m1.lemma_index_of(n);
}

/// Setting a completion flag is idempotent: doing it twice leaves the
/// same state as doing it once.
pub proof fn lemma_update_idempotent(m: StoreView, id: int, completed: bool)
    requires
        m.wf(),
    ensures
        m.updated(id, completed).updated(id, completed) == m.updated(id, completed),
{
    if m.contains_id(id) {
        let i0 = m.index_of(id);
        assert(0 <= i0 < m.todos.len() && m.todos[i0].id == id);
        let m1 = m.updated(id, completed);
        lemma_update_preserves_wf(m, id, completed);
        assert(m1.todos[i0].id == id);
        assert(m1.contains_id(id));
        m1.lemma_index_of(i0);
        assert(m1.updated(id, completed).todos =~= m1.todos);
        assert(m1.updated(id, completed) =~= m1);
    }
}

/// Deletion removes exactly the record with the given identifier: one
/// record fewer, that identifier gone, every other identifier still
/// present, and the remaining records in their original relative order.
pub proof fn lemma_delete_removes_id(m: StoreView, id: int)
    requires
        m.wf(),
        m.contains_id(id),
    ensures
        m.deleted(id).wf(),
        !m.deleted(id).contains_id(id),
        m.deleted(id).todos.len() == m.todos.len() - 1,
        forall|x: int| x != id ==> m.deleted(id).contains_id(x) == m.contains_id(x),
        forall|k: int|
            0 <= k < m.index_of(id) ==> m.deleted(id).todos[k] == m.todos[k],
        forall|k: int|
            m.index_of(id) <= k < m.todos.len() - 1 ==> m.deleted(id).todos[k] == m.todos[k + 1],
{
    lemma_delete_preserves_wf(m, id);
    let i0 = m.index_of(id);
    assert(0 <= i0 < m.todos.len() && m.todos[i0].id == id);
    let m1 = m.deleted(id);
    m.todos.remove_ensures(i0);
    assert forall|k: int| 0 <= k < m1.todos.len() implies m1.todos[k].id != id by {
        if k < i0 {
            assert(m1.todos[k] == m.todos[k]);
        } else {
            assert(m1.todos[k] == m.todos[k + 1]);
        }
    }
    assert forall|x: int| x != id implies m1.contains_id(x) == m.contains_id(x) by {
        if m.contains_id(x) {
            let j = choose|j: int| 0 <= j < m.todos.len() && m.todos[j].id == x;
            if j < i0 {
                assert(m1.todos[j] == m.todos[j]);
            } else {
                assert(j != i0);
                assert(m1.todos[j - 1] == m.todos[j]);
            }
            assert(m1.contains_id(x));
        }
        if m1.contains_id(x) {
            let k = choose|k: int| 0 <= k < m1.todos.len() && m1.todos[k].id == x;
            if k < i0 {
                assert(m.todos[k].id == x);
            } else {
                assert(m.todos[k + 1].id == x);
            }
            assert(m.contains_id(x));
        }
    }
}

/// An identifier the counter never issued is absent, and looking it up,
/// updating it or deleting it leaves the collection exactly as it was.
pub proof fn lemma_unissued_id(m: StoreView, id: int, completed: bool)
    requires
        m.wf(),
        id >= m.next_id,
    ensures
        !m.contains_id(id),
        m.updated(id, completed) == m,
        m.deleted(id) == m,
{
    assert forall|k: int| 0 <= k < m.todos.len() implies m.todos[k].id != id by {
        assert(m.todos[k].id < m.next_id);
    }
    assert(!m.contains_id(id));
}

} // verus!

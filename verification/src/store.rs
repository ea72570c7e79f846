use vstd::prelude::*;

use crate::todo::{Todo, TodoView};

verus! {

/// The identifier the store assigns to the first record it creates.
pub const FIRST_ID: u64 = 1;

/// Failure classifications of the store operations.
///
/// `NotFound`: the requested identifier is absent from the collection at
/// the time of the call. `Unavailable`: exclusive access to the shared
/// collection could not be obtained (a poisoned lock); only the layer that
/// holds the lock produces it, the store itself never does.
#[derive(Debug, PartialEq, Eq)]
pub enum StoreError {
    NotFound,
    Unavailable,
}

/// The mathematical state of a [`TodoStore`]: the records in insertion
/// order, the next identifier to assign, and the display name.
#[verifier::ext_equal]
pub ghost struct StoreView {
    pub todos: Seq<TodoView>,
    pub next_id: int,
    pub app_name: Seq<char>,
}

impl StoreView {
    /// All identifiers in the collection are pairwise distinct.
    pub open spec fn ids_unique(self) -> bool {
        forall|i: int, j: int|
            0 <= i < self.todos.len() && 0 <= j < self.todos.len() && i != j
                ==> self.todos[i].id != self.todos[j].id
    }

    /// Every stored identifier came from the counter, so lies below `next_id`.
    pub open spec fn ids_assigned(self) -> bool {
        forall|i: int| 0 <= i < self.todos.len() ==> self.todos[i].id < self.next_id
    }

    /// The store invariant: distinct identifiers, all issued by the counter.
    pub open spec fn wf(self) -> bool {
        self.ids_unique() && self.ids_assigned()
    }

    /// Whether some record carries the identifier `id`.
    pub open spec fn contains_id(self, id: int) -> bool {
        exists|i: int| 0 <= i < self.todos.len() && self.todos[i].id == id
    }

    /// The position of the record with identifier `id`; meaningful only when
    /// `contains_id(id)` holds (and then unique, under `wf`).
    pub open spec fn index_of(self, id: int) -> int {
        choose|i: int| 0 <= i < self.todos.len() && self.todos[i].id == id
    }

    /// The record carrying identifier `id`, when `contains_id(id)` holds.
    pub open spec fn todo_with_id(self, id: int) -> TodoView {
        self.todos[self.index_of(id)]
    }

    /// The store as created at process start: empty, counting from `FIRST_ID`.
    pub open spec fn init(app_name: Seq<char>) -> StoreView {
        StoreView { todos: Seq::empty(), next_id: FIRST_ID as int, app_name }
    }

    /// The record that `create(text)` assigns in state `self`.
    pub open spec fn new_todo(self, text: Seq<char>) -> TodoView {
        TodoView { id: self.next_id, text, completed: false }
    }

    /// The state after `create(text)`.
    pub open spec fn created(self, text: Seq<char>) -> StoreView {
        StoreView {
            todos: self.todos.push(self.new_todo(text)),
            next_id: self.next_id + 1,
            app_name: self.app_name,
        }
    }

    /// The state after `update_completed(id, completed)`.
    pub open spec fn updated(self, id: int, completed: bool) -> StoreView {
        if self.contains_id(id) {
            let i = self.index_of(id);
            StoreView {
                todos: self.todos.update(
                    i,
                    TodoView { id: self.todos[i].id, text: self.todos[i].text, completed },
                ),
                next_id: self.next_id,
                app_name: self.app_name,
            }
        } else {
            self
        }
    }

    /// Under the store invariant, a record's position is the one position
    /// `index_of` names for its identifier.
    pub proof fn lemma_index_of(self, i: int)
        requires
            self.wf(),
            0 <= i < self.todos.len(),
        ensures
            self.contains_id(self.todos[i].id),
            self.index_of(self.todos[i].id) == i,
    {
        let id = self.todos[i].id;
        assert(self.contains_id(id));
        let j = self.index_of(id);
        assert(0 <= j < self.todos.len() && self.todos[j].id == id);
        if j != i {
            assert(self.todos[i].id != self.todos[j].id);
        }
    }

    /// The state after `delete(id)`.
    pub open spec fn deleted(self, id: int) -> StoreView {
        if self.contains_id(id) {
            StoreView {
                todos: self.todos.remove(self.index_of(id)),
                next_id: self.next_id,
                app_name: self.app_name,
            }
        } else {
            self
        }
    }
}

/// The authoritative todo collection: insertion-ordered, identifiers
/// assigned by a running counter, at most one record per identifier.
///
/// The store itself is a sequential value; the caller that shares it among
/// concurrent request handlers wraps it in one exclusive lock and performs
/// every operation below under that lock, mapping a poisoned lock to
/// [`StoreError::Unavailable`].
pub struct TodoStore {
    todos: Vec<Todo>,
    next_id: u64,
    app_name: String,
}

/// The sequence of record values carried by a sequence of records.
pub open spec fn views_of(todos: Seq<Todo>) -> Seq<TodoView> {
    Seq::new(todos.len(), |i: int| todos[i]@)
}

impl View for TodoStore {
    type V = StoreView;

    closed spec fn view(&self) -> StoreView {
        StoreView {
            todos: views_of(self.todos@),
            next_id: self.next_id as int,
            app_name: self.app_name@,
        }
    }
}

impl TodoStore {
    #[verifier::type_invariant]
    spec fn inv(self) -> bool {
        self@.wf()
    }

    /// An empty store with the given display name.
    pub fn new(app_name: String) -> (s: TodoStore)
        ensures
            s@ == StoreView::init(app_name@),
    {
        let s = TodoStore { todos: Vec::new(), next_id: FIRST_ID, app_name };
        proof {
            assert(s@ =~= StoreView::init(s.app_name@));
        }
        s
    }

    /// The display name, served by the greeting route.
    pub fn app_name(&self) -> (r: String)
        ensures
            r@ == self@.app_name,
    {
        self.app_name.clone()
    }

    /// Whether the counter can still assign an identifier. An unverified
    /// caller tests this before `create`.
    pub fn can_create(&self) -> (r: bool)
        ensures
            r == (self@.next_id < u64::MAX as int),
    {
        self.next_id < u64::MAX
    }

    /// Assigns the next identifier, appends a record with the given text
    /// and `completed == false`, and returns a copy of the created record.
    pub fn create(&mut self, text: String) -> (r: Todo)
        requires
            old(self)@.next_id < u64::MAX as int,
        ensures
            final(self)@ == old(self)@.created(text@),
            r@ == old(self)@.new_todo(text@),
    {
        proof {
            use_type_invariant(&*self);
        }
        let ghost text0 = text@;
        let ghost m0 = self@;
        let id = self.next_id;
        proof {
            // advancing the counter alone keeps the invariant
            assert((StoreView { todos: m0.todos, next_id: m0.next_id + 1, app_name: m0.app_name }).wf());
        }
        self.next_id = self.next_id + 1;
        let todo = Todo { id, text, completed: false };
        let r = todo.clone();
        let mut todos: Vec<Todo> = Vec::new();
        core::mem::swap(&mut todos, &mut self.todos);
        todos.push(todo);
        proof {
            crate::laws::lemma_create_preserves_wf(m0, text0);
            assert(views_of(todos@) =~= m0.created(text0).todos);
            assert((StoreView {
                todos: views_of(todos@),
                next_id: m0.next_id + 1,
                app_name: m0.app_name,
            }).wf());
        }
        self.todos = todos;
        proof {
            assert(self@ =~= old(self)@.created(text0));
        }
        r
    }

    /// A snapshot of the collection, in insertion order.
    pub fn list(&self) -> (r: Vec<Todo>)
        ensures
            r@.len() == self@.todos.len(),
            forall|j: int| 0 <= j < r@.len() ==> r@[j]@ == self@.todos[j],
    {
        let mut r: Vec<Todo> = Vec::new();
        let mut i: usize = 0;
        while i < self.todos.len()
            invariant
                i <= self.todos.len(),
                r@.len() == i as int,
                forall|j: int| 0 <= j < i as int ==> r@[j]@ == self@.todos[j],
            decreases self.todos.len() - i,
        {
            r.push(self.todos[i].clone());
            i += 1;
        }
        r
    }

    /// The record carrying the given identifier, or `NotFound`.
    pub fn get_by_id(&self, id: u64) -> (r: Result<Todo, StoreError>)
        ensures
            (match r {
                Ok(t) => self@.contains_id(id as int) && t@ == self@.todo_with_id(id as int),
                Err(e) => !self@.contains_id(id as int) && e == StoreError::NotFound,
            }),
    {
        proof {
            use_type_invariant(&*self);
        }
        match find_todo_index(&self.todos, id) {
            Some(i) => {
                let t = self.todos[i].clone();
                proof {
                    assert(self@.todos[i as int] == self.todos@[i as int]@);
                    self@.lemma_index_of(i as int);
                }
                Ok(t)
            },
            None => {
                proof {
                    assert forall|k: int| 0 <= k < self@.todos.len() implies self@.todos[k].id
                        != id as int by {
                        assert(self.todos@[k].id != id);
                    }
                }
                Err(StoreError::NotFound)
            },
        }
    }

    /// Sets the completion flag of the record carrying the given identifier,
    /// leaving its identifier and text as they are; `NotFound` when the
    /// identifier is absent, with the collection unchanged.
    pub fn update_completed(&mut self, id: u64, completed: bool) -> (r: Result<(), StoreError>)
        ensures
            final(self)@ == old(self)@.updated(id as int, completed),
            r == (if old(self)@.contains_id(id as int) {
                Ok::<(), StoreError>(())
            } else {
                Err(StoreError::NotFound)
            }),
    {
        proof {
            use_type_invariant(&*self);
        }
        let ghost m0 = self@;
        match find_todo_index(&self.todos, id) {
            Some(i) => {
                let new_todo = Todo { id, text: self.todos[i].text.clone(), completed };
                let mut todos: Vec<Todo> = Vec::new();
                core::mem::swap(&mut todos, &mut self.todos);
                todos[i] = new_todo;
                proof {
                    assert(m0.todos[i as int] == old(self).todos@[i as int]@);
                    m0.lemma_index_of(i as int);
                    crate::laws::lemma_update_preserves_wf(m0, id as int, completed);
                    assert(views_of(todos@) =~= m0.updated(id as int, completed).todos);
                    assert((StoreView {
                        todos: views_of(todos@),
                        next_id: m0.next_id,
                        app_name: m0.app_name,
                    }).wf());
                }
                self.todos = todos;
                proof {
                    assert(self@ =~= m0.updated(id as int, completed));
                }
                Ok(())
            },
            None => {
                proof {
                    assert forall|k: int| 0 <= k < m0.todos.len() implies m0.todos[k].id
                        != id as int by {
                        assert(self.todos@[k].id != id);
                    }
                    assert(!m0.contains_id(id as int));
                }
                Err(StoreError::NotFound)
            },
        }
    }

    /// Removes the record carrying the given identifier, the later records
    /// keeping their relative order; `NotFound` when the identifier is
    /// absent, with the collection unchanged.
    pub fn delete(&mut self, id: u64) -> (r: Result<(), StoreError>)
        ensures
            final(self)@ == old(self)@.deleted(id as int),
            r == (if old(self)@.contains_id(id as int) {
                Ok::<(), StoreError>(())
            } else {
                Err(StoreError::NotFound)
            }),
    {
        proof {
            use_type_invariant(&*self);
        }
        let ghost m0 = self@;
        match find_todo_index(&self.todos, id) {
            Some(i) => {
                let mut todos: Vec<Todo> = Vec::new();
                core::mem::swap(&mut todos, &mut self.todos);
                todos.remove(i);
                proof {
                    assert(m0.todos[i as int] == old(self).todos@[i as int]@);
                    m0.lemma_index_of(i as int);
                    crate::laws::lemma_delete_preserves_wf(m0, id as int);
                    old(self).todos@.remove_ensures(i as int);
                    m0.todos.remove_ensures(i as int);
                    assert(views_of(todos@) =~= m0.deleted(id as int).todos);
                    assert((StoreView {
                        todos: views_of(todos@),
                        next_id: m0.next_id,
                        app_name: m0.app_name,
                    }).wf());
                }
                self.todos = todos;
                proof {
                    assert(self@ =~= m0.deleted(id as int));
                }
                Ok(())
            },
            None => {
                proof {
                    assert forall|k: int| 0 <= k < m0.todos.len() implies m0.todos[k].id
                        != id as int by {
                        assert(self.todos@[k].id != id);
                    }
                    assert(!m0.contains_id(id as int));
                }
                Err(StoreError::NotFound)
            },
        }
    }
}

/// Position of the first record whose identifier matches, by linear scan.
pub fn find_todo_index(todos: &Vec<Todo>, todo_id: u64) -> (r: Option<usize>)
    ensures
        (match r {
            Some(i) => (i as int) < todos@.len() && todos@[i as int].id == todo_id
                && (forall|j: int| 0 <= j < i as int ==> todos@[j].id != todo_id),
            None => forall|j: int| 0 <= j < todos@.len() ==> todos@[j].id != todo_id,
        }),
{
    let mut i: usize = 0;
    while i < todos.len()
        invariant
            i <= todos.len(),
            forall|j: int| 0 <= j < i as int ==> todos@[j].id != todo_id,
        decreases todos.len() - i,
    {
        if todos[i].id == todo_id {
            return Some(i);
        }
        i += 1;
    }
    None
}

} // verus!

//! The todo manager: an ordered sequence of tasks and a monotonically
//! increasing counter that mints the next identifier.

use vstd::prelude::*;
use vstd::string::StrSliceExecFns;

use crate::task::{content_ok, DraftTodo, Status, Todo, TodoError, TodoId, MAX_CONTENT_LEN};

verus! {

/// Owns the collection of task records and the next-identifier counter.
///
/// The stored sequence keeps insertion order; the counter starts at 1,
/// advances only when a task is created, and is never reset, so no
/// identifier is ever issued twice in a manager's lifetime.
pub struct TodoManager {
    todos: Vec<Todo>,
    current_id: u32,
    /// Every identifier ever issued by this manager, kept as a ghost
    /// record so that contracts can speak about identifier freshness.
    issued_ids: Ghost<Set<u32>>,
}

impl TodoManager {
    /// The stored tasks, in insertion order.
    pub closed spec fn tasks(self) -> Seq<Todo> {
        self.todos@
    }

    /// The identifier the next successful creation will assign.
    pub closed spec fn next_id(self) -> u32 {
        self.current_id
    }

    /// Every identifier this manager has ever issued.
    pub closed spec fn issued(self) -> Set<u32> {
        self.issued_ids@
    }

    /// Some stored task carries the identifier `id`.
    pub open spec fn contains_id(self, id: u32) -> bool {
        exists|i: int| 0 <= i < self.tasks().len() && self.tasks()[i].id.0 == id
    }

    /// Well-formedness: identifiers are positive, every issued identifier
    /// lies strictly below the counter, every stored identifier was
    /// issued, and no two stored tasks share an identifier.
    pub open spec fn wf(self) -> bool {
        &&& 1 <= self.next_id()
        &&& (forall|id: u32| #[trigger] self.issued().contains(id) ==> 1 <= id < self.next_id())
        &&& (forall|i: int|
            0 <= i < self.tasks().len() ==> self.issued().contains(
                #[trigger] self.tasks()[i].id.0,
            ))
        &&& (forall|i: int, j: int|
            #![trigger self.tasks()[i].id.0, self.tasks()[j].id.0]
            0 <= i < j < self.tasks().len() ==> self.tasks()[i].id.0 != self.tasks()[j].id.0)
    }

    /// An empty manager whose first identifier will be 1.
    pub fn new() -> (m: TodoManager)
        ensures
            m.wf(),
            m.tasks() == Seq::<Todo>::empty(),
            m.next_id() == 1,
            m.issued() == Set::<u32>::empty(),
    {
        TodoManager { todos: Vec::new(), current_id: 1, issued_ids: Ghost(Set::empty()) }
    }

    /// The full stored sequence, in insertion order, as a read-only view.
    pub fn all(&self) -> (r: &[Todo])
        ensures
            r@ == self.tasks(),
    {
        self.todos.as_slice()
    }

    /// Validates the content and, when it is acceptable, stores a new task
    /// with a fresh identifier, status `Doing`, and the given content, and
    /// returns an independent copy of it.  The counter advances only on
    /// success; on failure nothing changes.
    ///
    /// The counter bound in `requires` is a machine limit: the `u32`
    /// counter must still have an identifier left to mint.
    pub fn create(&mut self, content: String) -> (result: Result<Todo, TodoError>)
        requires
            old(self).wf(),
            old(self).next_id() < u32::MAX,
        ensures
            final(self).wf(),
            match result {
                Ok(task) => {
                    &&& content_ok(content@)
                    &&& task.id.0 == old(self).next_id()
                    &&& task.content == content
                    &&& task.status == Status::Doing
                    &&& !old(self).issued().contains(task.id.0)
                    &&& (forall|id: u32|
                        #[trigger] old(self).issued().contains(id) ==> id < task.id.0)
                    &&& final(self).tasks() == old(self).tasks().push(task)
                    &&& final(self).next_id() == old(self).next_id() + 1
                    &&& final(self).issued() == old(self).issued().insert(task.id.0)
                }
                Err(e) => {
                    &&& !content_ok(content@)
                    &&& e == TodoError::ContentTooLong
                    &&& *final(self) == *old(self)
                }
            },
    {
        let draft_todo = DraftTodo { content };
        match TodoManager::validate_content(&draft_todo) {
            Err(e) => Err(e),
            Ok(_) => {
                let new_todo = Todo {
                    id: TodoId(self.current_id),
                    content: draft_todo.content,
                    status: Status::Doing,
                };

                self.current_id = self.current_id + 1;
                self.todos.push(new_todo.clone());
                self.issued_ids = Ghost(self.issued_ids@.insert(new_todo.id.0));

                proof {
                    let pre = *old(self);
                    let post = *self;
                    assert(post.tasks() == pre.tasks().push(new_todo));
                    assert(post.issued() == pre.issued().insert(new_todo.id.0));
                    assert(post.next_id() == pre.next_id() + 1);
                    assert forall|id: u32| #[trigger] post.issued().contains(id) implies 1 <= id
                        < post.next_id() by {
                        if id != new_todo.id.0 {
                            assert(pre.issued().contains(id));
                        }
                    }
                    assert forall|i: int| 0 <= i < post.tasks().len() implies post.issued()
                        .contains(#[trigger] post.tasks()[i].id.0) by {
                        if i < pre.tasks().len() {
                            assert(post.tasks()[i] == pre.tasks()[i]);
                            assert(pre.issued().contains(pre.tasks()[i].id.0));
                        } else {
                            assert(post.tasks()[i] == new_todo);
                        }
                    }
                    assert forall|i: int, j: int|
                        #![trigger post.tasks()[i].id.0, post.tasks()[j].id.0]
                        0 <= i < j < post.tasks().len() implies post.tasks()[i].id.0
                        != post.tasks()[j].id.0 by {
                        assert(post.tasks()[i] == pre.tasks()[i]);
                        if j < pre.tasks().len() {
                            assert(post.tasks()[j] == pre.tasks()[j]);
                            assert(pre.tasks()[i].id.0 != pre.tasks()[j].id.0);
                        } else {
                            assert(post.tasks()[j] == new_todo);
                            assert(pre.issued().contains(pre.tasks()[i].id.0));
                            assert(pre.tasks()[i].id.0 < pre.next_id());
                        }
                    }
                    assert(post.wf());
                }

                Ok(new_todo)
            }
        }
    }

    /// Scans the sequence in insertion order and returns a read-only
    /// reference to the stored task carrying `id`; absence is a normal
    /// outcome, not a failure.
    pub fn find(&self, id: TodoId) -> (r: Option<&Todo>)
        ensures
            r is Some <==> self.contains_id(id.0),
            match r {
                Some(task) => task.id.0 == id.0 && self.tasks().contains(*task),
                None => !self.contains_id(id.0),
            },
    {
        let mut i: usize = 0;
        while i < self.todos.len()
            invariant
                i <= self.todos@.len(),
                forall|j: int| 0 <= j < i ==> #[trigger] self.todos@[j].id.0 != id.0,
            decreases self.todos@.len() - i,
        {
            if self.todos[i].id == id {
                return Some(&self.todos[i]);
            }
            i = i + 1;
        }
        None
    }

    /// Scans the sequence in insertion order for the task carrying `id`;
    /// if found, removes exactly that entry (later entries shift left,
    /// preserving order); if absent, fails with `NotFound` and changes
    /// nothing.
    pub fn delete(&mut self, id: TodoId) -> (r: Result<(), TodoError>)
        requires
            old(self).wf(),
        ensures
            final(self).wf(),
            final(self).next_id() == old(self).next_id(),
            final(self).issued() == old(self).issued(),
            match r {
                Ok(_) => {
                    &&& old(self).contains_id(id.0)
                    &&& (exists|i: int|
                        0 <= i < old(self).tasks().len() && old(self).tasks()[i].id.0 == id.0
                            && final(self).tasks() == old(self).tasks().remove(i))
                    &&& !final(self).contains_id(id.0)
                    &&& final(self).tasks().len() == old(self).tasks().len() - 1
                }
                Err(e) => {
                    &&& e == TodoError::NotFound
                    &&& !old(self).contains_id(id.0)
                    &&& *final(self) == *old(self)
                }
            },
    {
        let mut i: usize = 0;
        while i < self.todos.len()
            invariant
                old(self).wf(),
                *self == *old(self),
                i <= self.todos@.len(),
                forall|j: int| 0 <= j < i ==> #[trigger] self.todos@[j].id.0 != id.0,
            decreases self.todos@.len() - i,
        {
            if self.todos[i].id == id {
                let ghost pre = *self;
                let ghost pos = i as int;
                self.todos.remove(i);
                proof {
                    let post = *self;
                    pre.tasks().remove_ensures(pos);
                    assert(post.tasks() == pre.tasks().remove(pos));
                    assert forall|k: int| 0 <= k < post.tasks().len() implies post.issued()
                        .contains(#[trigger] post.tasks()[k].id.0) && post.tasks()[k].id.0
                        != id.0 by {
                        if k < pos {
                            assert(post.tasks()[k] == pre.tasks()[k]);
                            assert(pre.issued().contains(pre.tasks()[k].id.0));
                            assert(pre.tasks()[k].id.0 != pre.tasks()[pos].id.0);
                        } else {
                            assert(post.tasks()[k] == pre.tasks()[k + 1]);
                            assert(pre.issued().contains(pre.tasks()[k + 1].id.0));
                            assert(pre.tasks()[pos].id.0 != pre.tasks()[k + 1].id.0);
                        }
                    }
                    assert forall|k: int, l: int|
                        #![trigger post.tasks()[k].id.0, post.tasks()[l].id.0]
                        0 <= k < l < post.tasks().len() implies post.tasks()[k].id.0
                        != post.tasks()[l].id.0 by {
                        let k0: int = if k < pos { k } else { k + 1 };
                        let l0: int = if l < pos { l } else { l + 1 };
                        assert(post.tasks()[k] == pre.tasks()[k0]);
                        assert(post.tasks()[l] == pre.tasks()[l0]);
                        assert(pre.tasks()[k0].id.0 != pre.tasks()[l0].id.0);
                    }
                    assert(post.issued() == pre.issued());
                    assert(post.next_id() == pre.next_id());
                    assert(post.wf());
                    assert(!post.contains_id(id.0));
                }
                return Ok(());
            }
            i = i + 1;
        }
        Err(TodoError::NotFound)
    }

    /// Accepts a draft exactly when its content is within the length
    /// limit; over-long content is reported as `ContentTooLong`.
    pub fn validate_content(draft_todo: &DraftTodo) -> (r: Result<(), TodoError>)
        ensures
            match r {
                Ok(_) => content_ok(draft_todo.content@),
                Err(e) => !content_ok(draft_todo.content@) && e == TodoError::ContentTooLong,
            },
    {
        if draft_todo.content.as_str().unicode_len() > MAX_CONTENT_LEN {
            Err(TodoError::ContentTooLong)
        } else {
            Ok(())
        }
    }
}

} // verus!

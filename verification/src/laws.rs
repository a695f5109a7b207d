//! Laws of the manager's identifier discipline, proved from the public
//! contracts and the well-formedness invariant alone.

use vstd::prelude::*;

use crate::manager::TodoManager;

verus! {

/// No two stored tasks share an identifier: in a well-formed manager,
/// tasks at positions `i` and `j` carrying the same identifier are the
/// same entry.  Together with `find`'s contract this pins the task that
/// `find` returns down to the one stored task with that identifier.
pub proof fn lemma_stored_ids_unique(m: TodoManager, i: int, j: int)
    requires
        m.wf(),
        0 <= i < m.tasks().len(),
        0 <= j < m.tasks().len(),
        m.tasks()[i].id.0 == m.tasks()[j].id.0,
    ensures
        i == j,
{
}

/// An identifier the manager never issued is absent from the stored
/// sequence, so `find` on it returns absent and `delete` on it fails.
pub proof fn lemma_unissued_id_absent(m: TodoManager, id: u32)
    requires
        m.wf(),
        !m.issued().contains(id),
    ensures
        !m.contains_id(id),
{
    if m.contains_id(id) {
        let i = choose|i: int| 0 <= i < m.tasks().len() && m.tasks()[i].id.0 == id;
        assert(m.issued().contains(m.tasks()[i].id.0));
    }
}

/// Identifiers are never reused.  The identifier a well-formed manager
/// will assign next lies outside everything it ever issued and outside
/// everything currently stored; since `create` assigns exactly
/// `next_id()` and records it as issued, and `delete` never shrinks the
/// issued set, no run of creations and deletions can hand out the same
/// identifier twice.
pub proof fn lemma_next_id_fresh(m: TodoManager)
    requires
        m.wf(),
    ensures
        !m.issued().contains(m.next_id()),
        !m.contains_id(m.next_id()),
        forall|id: u32| #[trigger] m.issued().contains(id) ==> id < m.next_id(),
{
    lemma_unissued_id_absent(m, m.next_id());
}

} // verus!

//! Collection-level laws of the gateway operations, stated over the store's
//! abstract content: a map from identifier to record content.

use vstd::prelude::*;
use crate::task::CreateError;
use crate::task::Priority;
use crate::task::spec_validate;

verus! {

/// A successful creation adds exactly one record: the collection gains the
/// fresh identifier with the given content, keeps every other record
/// unchanged, and grows by exactly one.
pub proof fn lemma_create_adds_one(
    m: Map<u64, (Seq<char>, Priority)>,
    id: u64,
    v: (Seq<char>, Priority),
)
    requires
        m.dom().finite(),
        !m.dom().contains(id),
    ensures
        m.insert(id, v).dom().contains(id),
        m.insert(id, v)[id] == v,
        m.insert(id, v).dom().finite(),
        m.insert(id, v).dom().len() == m.dom().len() + 1,
        forall|j: u64|
            j != id ==> (#[trigger] m.insert(id, v).dom().contains(j)) == m.dom().contains(j),
        forall|j: u64|
            j != id && m.dom().contains(j) ==> (#[trigger] m.insert(id, v)[j]) == m[j],
{
    broadcast use vstd::set::group_set_axioms;

    assert(m.insert(id, v).dom() =~= m.dom().insert(id));
}

/// Deleting an identifier that is present removes exactly that record; a
/// second deletion of the same identifier then finds nothing and changes
/// nothing.
pub proof fn lemma_delete_then_delete_again(m: Map<u64, (Seq<char>, Priority)>, id: u64)
    requires
        m.dom().contains(id),
    ensures
        !m.remove(id).dom().contains(id),
        m.remove(id).remove(id) == m.remove(id),
{
    assert(m.remove(id).remove(id) =~= m.remove(id));
}

/// Two requests deleting the same identifier, in whichever order the store
/// serializes them, see exactly one success: the removal that runs first
/// finds the record, the second finds nothing, and the collection ends
/// exactly one record smaller — never two, and never with the record still
/// present.
pub proof fn lemma_concurrent_deletes_one_success(m: Map<u64, (Seq<char>, Priority)>, id: u64)
    requires
        m.dom().finite(),
        m.dom().contains(id),
    ensures
        !m.remove(id).dom().contains(id),
        m.remove(id).dom().finite(),
        m.remove(id).dom().len() == m.dom().len() - 1,
        m.remove(id).remove(id).dom().len() == m.dom().len() - 1,
{
    broadcast use vstd::set::group_set_axioms;

    assert(m.remove(id).dom() =~= m.dom().remove(id));
    assert(m.remove(id).remove(id) =~= m.remove(id));
}

/// A creation request without a name is rejected as missing its name,
/// whatever the priority tag says; together with the handler's contract —
/// a rejected body leaves the collection unchanged — no persistence call
/// ever sees such a request.
pub proof fn lemma_missing_name_rejected(tag: Option<Seq<char>>)
    ensures
        spec_validate(None, tag) == Err::<(Seq<char>, Priority), CreateError>(
            CreateError::MissingName,
        ),
{
}

} // verus!

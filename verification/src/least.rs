//! The first of the identities for which something holds.

use crate::types::ID;
use vstd::prelude::*;

verus! {

/// Is `id` the least identity for which `p` holds?
pub open spec fn is_least(p: spec_fn(ID) -> bool, id: ID) -> bool {
    p(id) && forall|j: ID| j < id ==> !#[trigger] p(j)
}

/// The least identity for which `p` holds, if it holds for any.
pub open spec fn least(p: spec_fn(ID) -> bool) -> Option<ID> {
    if exists|id: ID| is_least(p, id) {
        Some(choose|id: ID| is_least(p, id))
    } else {
        None
    }
}

/// An identity for which `p` holds, and for none below it, is the least.
pub proof fn lemma_least_some(p: spec_fn(ID) -> bool, id: ID)
    requires
        is_least(p, id),
    ensures
        least(p) == Some(id),
{
}

/// `p` holds for the least identity for which it holds, and for none below
/// it.
pub proof fn lemma_least_has(p: spec_fn(ID) -> bool)
    requires
        least(p) is Some,
    ensures
        is_least(p, least(p)->0),
{
}

/// Where `p` holds for some identity, there is a least one, and it is not
/// above that one.
pub proof fn lemma_least_exists(p: spec_fn(ID) -> bool, id: ID)
    requires
        p(id),
    ensures
        least(p) is Some,
        least(p)->0 <= id,
    decreases id,
{
    if forall|j: ID| j < id ==> !#[trigger] p(j) {
        lemma_least_some(p, id);
    } else {
        let j = choose|j: ID| j < id && #[trigger] p(j);
        lemma_least_exists(p, j);
    }
}

} // verus!

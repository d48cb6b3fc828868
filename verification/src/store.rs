use vstd::prelude::*;

use crate::visit::Visit;

verus! {

/// The visit `v` is the one a removal request for `(user_id, id)` targets:
/// it carries that identifier and belongs to that user.
pub open spec fn removal_target(v: Visit, user_id: i32, id: i32) -> bool {
    v.id == id && v.user_id == user_id
}

/// Removal of a visit from a history snapshot, scoped to the owning user:
/// the store semantics of deleting by `(id, user_id)`. At most one visit --
/// the first that carries the identifier and belongs to the user -- leaves
/// the snapshot, and the count of removed rows is reported. A visit that is
/// absent, or that belongs to another user, is not removed and the count is
/// zero; the two causes are deliberately not told apart.
pub fn remove_visit(visits: &Vec<Visit>, user_id: i32, id: i32) -> (r: (Vec<Visit>, usize))
    ensures
        r.1 <= 1,
        r.1 == 1 <==> exists|i: int|
            0 <= i < visits@.len() && #[trigger] removal_target(visits@[i], user_id, id),
        r.1 == 0 ==> r.0@ == visits@,
        r.1 == 1 ==> exists|i: int|
            {
                &&& 0 <= i < visits@.len()
                &&& #[trigger] removal_target(visits@[i], user_id, id)
                &&& forall|j: int| 0 <= j < i ==> !removal_target(visits@[j], user_id, id)
                &&& r.0@ == visits@.remove(i)
            },
{
    let mut found: bool = false;
    let mut at: usize = 0;
    let mut i: usize = 0;
    while i < visits.len()
        invariant
            0 <= i <= visits.len(),
            !found ==> at == 0 && forall|j: int|
                0 <= j < i ==> !removal_target(visits@[j], user_id, id),
            found ==> {
                &&& 0 <= at < i
                &&& removal_target(visits@[at as int], user_id, id)
                &&& forall|j: int| 0 <= j < at ==> !removal_target(visits@[j], user_id, id)
            },
        decreases visits.len() - i,
    {
        if !found && visits[i].id == id && visits[i].user_id == user_id {
            found = true;
            at = i;
        }
        i = i + 1;
    }
    if !found {
        let mut kept: Vec<Visit> = Vec::new();
        let mut j: usize = 0;
        while j < visits.len()
            invariant
                0 <= j <= visits.len(),
                kept@ == visits@.take(j as int),
            decreases visits.len() - j,
        {
            kept.push(visits[j]);
            j = j + 1;
        }
        proof {
            assert(kept@ =~= visits@);
        }
        (kept, 0)
    } else {
        let mut kept: Vec<Visit> = Vec::new();
        let mut j: usize = 0;
        while j < at
            invariant
                0 <= j <= at <= visits.len(),
                kept@ == visits@.take(j as int),
            decreases at - j,
        {
            kept.push(visits[j]);
            j = j + 1;
        }
        proof {
            assert(kept@ =~= visits@.take(at as int) + visits@.subrange(
                at as int + 1,
                at as int + 1,
            ));
        }
        let mut k: usize = at + 1;
        while k < visits.len()
            invariant
                at < visits.len(),
                at + 1 <= k <= visits.len(),
                kept@ == visits@.take(at as int) + visits@.subrange(at as int + 1, k as int),
            decreases visits.len() - k,
        {
            kept.push(visits[k]);
            k = k + 1;
        }
        proof {
            assert(kept@ =~= visits@.remove(at as int));
        }
        (kept, 1)
    }
}

} // verus!

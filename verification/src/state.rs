use vstd::prelude::*;
use crate::model::{Plan, transfer_of};
use crate::paths::FsPath;

verus! {

/// Whether a plan works on `path`: as its input, or as the source or
/// destination of one of its copies, moves and renames.
pub open spec fn touches(plan: Plan, path: Seq<Seq<char>>) -> bool {
    plan.input_snapshot.path@ == path || exists|i: int|
        0 <= i < plan.actions.len() && match #[trigger] transfer_of(plan.actions@[i]) {
            Some((from, to, _)) => from == path || to == path,
            None => false,
        }
}

/// Whether an unresolved plan blocks automatic work on `path`.
pub fn plan_touches(plan: &Plan, path: &FsPath) -> (r: bool)
    ensures
        r == touches(*plan, path@),
{
    if plan.input_snapshot.path.same(path) {
        return true;
    }
    let mut i: usize = 0;
    while i < plan.actions.len()
        invariant
            i <= plan.actions.len(),
            plan.input_snapshot.path@ != path@,
            forall|k: int| 0 <= k < i ==> match #[trigger] transfer_of(plan.actions@[k]) {
                Some((from, to, _)) => !(from == path@ || to == path@),
                None => true,
            },
        decreases plan.actions.len() - i,
    {
        match plan.actions[i].transfer() {
            Some((from, to, _)) => {
                if from.same(path) || to.same(path) {
                    assert(transfer_of(plan.actions@[i as int]) is Some);
                    return true;
                }
            },
            None => {},
        }
        i = i + 1;
    }
    false
}

/// An unresolved plan blocks automatic work on its input and on the source
/// and destination of each of its copies, moves and renames.
pub proof fn law_unresolved_plans_block_their_paths(plan: Plan, k: int)
    requires
        0 <= k < plan.actions.len(),
        transfer_of(plan.actions@[k]) is Some,
    ensures
        touches(plan, plan.input_snapshot.path@),
        match transfer_of(plan.actions@[k]) {
            Some((from, to, _)) => touches(plan, from) && touches(plan, to),
            None => true,
        },
{
    assert(transfer_of(plan.actions@[k]) is Some);
}

} // verus!

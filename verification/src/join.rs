//! Lists of entity ids as a join hands them out, and reasoning about a pass
//! that walks such a list: which entities it has dealt with after so many
//! steps.

use vstd::prelude::*;

verus! {

/// Whether `ids` lists, in increasing order, exactly the ids that `wanted`
/// picks.
pub open spec fn lists(ids: Seq<u32>, wanted: spec_fn(int) -> bool) -> bool {
    &&& forall|i: int, j: int| 0 <= i < j < ids.len() ==> ids[i] < ids[j]
    &&& forall|i: int| 0 <= i < ids.len() ==> wanted(#[trigger] ids[i] as int)
    &&& forall|id: int| #[trigger] wanted(id) ==> 0 <= id <= u32::MAX && ids.contains(id as u32)
}

/// Whether `id` is among the first `upto` entries of `ids`.
pub open spec fn done(ids: Seq<u32>, upto: int, id: int) -> bool {
    exists|k: int| 0 <= k < upto && #[trigger] ids[k] == id
}

/// One more step deals with one more entity, which was not dealt with before.
pub proof fn lemma_done_step(ids: Seq<u32>, wanted: spec_fn(int) -> bool, upto: int)
    requires
        lists(ids, wanted),
        0 <= upto < ids.len(),
    ensures
        !done(ids, upto, ids[upto] as int),
        wanted(ids[upto] as int),
        forall|id: int|
            #[trigger] done(ids, upto + 1, id) == (done(ids, upto, id) || id == ids[upto]),
{
    assert forall|id: int|
        #[trigger] done(ids, upto + 1, id) == (done(ids, upto, id) || id == ids[upto]) by {
        if done(ids, upto + 1, id) {
            let k = choose|k: int| 0 <= k < upto + 1 && #[trigger] ids[k] == id;
            if k < upto {
                assert(done(ids, upto, id));
            }
        }
        if done(ids, upto, id) {
            let k = choose|k: int| 0 <= k < upto && #[trigger] ids[k] == id;
            assert(0 <= k < upto + 1 && ids[k] == id);
        }
        if id == ids[upto] {
            assert(0 <= upto < upto + 1 && ids[upto] == id);
        }
    }
}

/// Before the first step no entity is dealt with; after the last one, exactly
/// the wanted ones are.
pub proof fn lemma_done_ends(ids: Seq<u32>, wanted: spec_fn(int) -> bool)
    requires
        lists(ids, wanted),
    ensures
        forall|id: int| !#[trigger] done(ids, 0, id),
        forall|id: int| #[trigger] done(ids, ids.len() as int, id) == wanted(id),
{
    assert forall|id: int| #[trigger] done(ids, ids.len() as int, id) == wanted(id) by {
        if wanted(id) {
            assert(ids.contains(id as u32));
            let k = choose|k: int| 0 <= k < ids.len() && ids[k] == id as u32;
            assert(0 <= k < ids.len() && ids[k] == id);
        }
    }
}

} // verus!

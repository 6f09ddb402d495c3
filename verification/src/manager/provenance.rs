//! The comparisons that stored revisions came from.

use crate::manager::rows::{Comparison, Revision};
use crate::manager::table::{find_number, law_removing, lemma_slot, numbered, removing, slot};
use vstd::prelude::*;

verus! {

/// Whether the comparison with the number is among them.
pub open spec fn held(comparisons: Seq<Comparison>, id: i64) -> bool {
    exists|j: int| 0 <= j < comparisons.len() && (#[trigger] comparisons[j]).id == id
}

/// Whether the comparison that the revision came from is among them.
pub open spec fn provenance_held(revision: Revision, comparisons: Seq<Comparison>) -> bool {
    revision.provenance_comparison_id matches Some(id) ==> held(comparisons, id)
}

/// Whether every comparison that a revision came from is stored.
pub open spec fn provenance_stored(revisions: Seq<Revision>, comparisons: Seq<Comparison>) -> bool {
    forall|i: int|
        0 <= i < revisions.len() ==> provenance_held(#[trigger] revisions[i], comparisons)
}

/// Whether every comparison that a revision came from is stored.
pub fn is_provenance_stored(revisions: &Vec<Revision>, comparisons: &Vec<Comparison>) -> (stored:
    bool)
    ensures
        stored == provenance_stored(revisions@, comparisons@),
{
    let mut at: usize = 0;
    while at < revisions.len()
        invariant
            at <= revisions@.len(),
            forall|i: int|
                0 <= i < at ==> provenance_held(#[trigger] revisions@[i], comparisons@),
        decreases revisions@.len() - at,
    {
        match revisions[at].provenance_comparison_id {
            Some(id) => {
                proof {
                    lemma_held(comparisons@, id);
                }
                if find_number(comparisons, id).is_none() {
                    assert(!provenance_held(revisions@[at as int], comparisons@));
                    return false;
                }
            },
            None => {},
        }
        at += 1;
    }
    true
}

/// A comparison is held where it is found.
pub(crate) proof fn lemma_held(comparisons: Seq<Comparison>, id: i64)
    ensures
        held(comparisons, id) == numbered(comparisons, id) is Some,
{
    lemma_slot(comparisons, id, 0);
    if let Some(at) = slot(comparisons, id) {
        assert(comparisons[at].id == id);
    }
    if held(comparisons, id) {
        let j = choose|j: int| 0 <= j < comparisons.len() && (#[trigger] comparisons[j]).id == id;
    }
}

/// A revision can be stored beside the comparison that it came from.
pub(crate) proof fn lemma_provenance_pushed(
    revisions: Seq<Revision>,
    revision: Revision,
    comparisons: Seq<Comparison>,
    comparison: Comparison,
)
    requires
        provenance_stored(revisions, comparisons),
        revision.provenance_comparison_id == Some(comparison.id),
    ensures
        provenance_stored(revisions.push(revision), comparisons.push(comparison)),
{
    let more = comparisons.push(comparison);
    let all = revisions.push(revision);
    assert(more[comparisons.len() as int].id == comparison.id);
    assert forall|i: int| 0 <= i < all.len() implies provenance_held(#[trigger] all[i], more) by {
        if i < revisions.len() {
            assert(provenance_held(revisions[i], comparisons));
            lemma_held_longer(comparisons, comparison, all[i]);
        }
    }
}

proof fn lemma_held_longer(comparisons: Seq<Comparison>, added: Comparison, revision: Revision)
    requires
        provenance_held(revision, comparisons),
    ensures
        provenance_held(revision, comparisons.push(added)),
{
    if let Some(id) = revision.provenance_comparison_id {
        let j = choose|j: int| 0 <= j < comparisons.len() && (#[trigger] comparisons[j]).id == id;
        assert(comparisons.push(added)[j].id == id);
    }
}

/// Another comparison changes nothing for the revisions.
pub(crate) proof fn lemma_provenance_beside(
    revisions: Seq<Revision>,
    comparisons: Seq<Comparison>,
    added: Comparison,
)
    requires
        provenance_stored(revisions, comparisons),
    ensures
        provenance_stored(revisions, comparisons.push(added)),
{
    assert forall|i: int| 0 <= i < revisions.len() implies provenance_held(
        #[trigger] revisions[i],
        comparisons.push(added),
    ) by {
        lemma_held_longer(comparisons, added, revisions[i]);
    }
}

/// Comparisons that keep their numbers stay held.
pub(crate) proof fn lemma_provenance_changed(
    revisions: Seq<Revision>,
    before: Seq<Comparison>,
    after: Seq<Comparison>,
)
    requires
        provenance_stored(revisions, before),
        before.len() == after.len(),
        forall|j: int| 0 <= j < before.len() ==> (#[trigger] after[j]).id == before[j].id,
    ensures
        provenance_stored(revisions, after),
{
    assert forall|i: int| 0 <= i < revisions.len() implies provenance_held(
        #[trigger] revisions[i],
        after,
    ) by {
        assert(provenance_held(revisions[i], before));
        if let Some(id) = revisions[i].provenance_comparison_id {
            let j = choose|j: int| 0 <= j < before.len() && (#[trigger] before[j]).id == id;
            assert(after[j].id == id);
        }
    }
}

/// The comparisons that revisions came from stay where only others go.
pub(crate) proof fn lemma_provenance_left(
    revisions: Seq<Revision>,
    comparisons: Seq<Comparison>,
    gone: spec_fn(Comparison) -> bool,
)
    requires
        provenance_stored(revisions, comparisons),
        forall|i: int, j: int|
            0 <= i < revisions.len() && 0 <= j < comparisons.len() && (
            #[trigger] revisions[i]).provenance_comparison_id == Some(
                (#[trigger] comparisons[j]).id,
            ) ==> !gone(comparisons[j]),
    ensures
        provenance_stored(revisions, removing(comparisons, gone)),
{
    let left = removing(comparisons, gone);
    assert forall|i: int| 0 <= i < revisions.len() implies provenance_held(
        #[trigger] revisions[i],
        left,
    ) by {
        assert(provenance_held(revisions[i], comparisons));
        if let Some(id) = revisions[i].provenance_comparison_id {
            let j = choose|j: int|
                0 <= j < comparisons.len() && (#[trigger] comparisons[j]).id == id;
            law_removing(comparisons, gone, comparisons[j]);
            let k = choose|k: int| 0 <= k < left.len() && left[k] == comparisons[j];
            assert(left[k].id == id);
        }
    }
}

} // verus!

//! # Scene Analyzer
//!
//! Selects the detections of people in a frame. Distances to the selected
//! people are estimated by the caller from their bounding boxes.

use vstd::prelude::*;

verus! {

/// Analyzer settings for one camera setup.
#[derive(Debug, Clone, Copy, PartialEq, Eq, Structural)]
pub struct SceneAnalyzer {
    pub frame_height_px: u32,
}

/// The positions, in increasing order, of the entries of `class_ids` equal
/// to `person_class_id`.
pub open spec fn spec_person_indices(class_ids: Seq<usize>, person_class_id: usize) -> Seq<usize>
    decreases class_ids.len(),
{
    if class_ids.len() == 0 {
        Seq::empty()
    } else {
        let prev = spec_person_indices(class_ids.drop_last(), person_class_id);
        if class_ids.last() == person_class_id {
            prev.push((class_ids.len() - 1) as usize)
        } else {
            prev
        }
    }
}

impl Default for SceneAnalyzer {
    fn default() -> (a: Self)
        ensures
            a.frame_height_px == 0,
    {
        SceneAnalyzer { frame_height_px: 0 }
    }
}

impl SceneAnalyzer {
    /// Creates a new analyzer for frames of the given height.
    pub fn new(frame_height_px: u32) -> (a: Self)
        ensures
            a.frame_height_px == frame_height_px,
    {
        SceneAnalyzer { frame_height_px }
    }

    /// The positions, in order, of the detections whose class is
    /// `person_class_id`; these are the people of the frame.
    pub fn person_indices(class_ids: &[usize], person_class_id: usize) -> (r: Vec<usize>)
        ensures
            r@ == spec_person_indices(class_ids@, person_class_id),
    {
        let n = class_ids.len();
        let mut r: Vec<usize> = Vec::new();
        let mut i: usize = 0;
        while i < n
            invariant
                n == class_ids@.len(),
                i <= n,
                r@ == spec_person_indices(class_ids@.take(i as int), person_class_id),
            decreases n - i,
        {
            assert(class_ids@.take(i + 1).drop_last() =~= class_ids@.take(i as int));
            if class_ids[i] == person_class_id {
                r.push(i);
            }
            i = i + 1;
        }
        assert(class_ids@.take(n as int) =~= class_ids@);
        r
    }
}

/// The selected positions are exactly the positions of person detections:
/// each is in range and names a person, every person is selected, and they
/// come in increasing order without repetition.
pub proof fn lemma_person_indices_exact(class_ids: Seq<usize>, person_class_id: usize)
    requires
        class_ids.len() <= usize::MAX,
    ensures
        forall|k: int|
            0 <= k < spec_person_indices(class_ids, person_class_id).len() ==> {
                let i = #[trigger] spec_person_indices(class_ids, person_class_id)[k] as int;
                0 <= i < class_ids.len() && class_ids[i] == person_class_id
            },
        forall|i: int|
            0 <= i < class_ids.len() && class_ids[i] == person_class_id ==> #[trigger] spec_person_indices(
                class_ids,
                person_class_id,
            ).contains(i as usize),
        forall|k1: int, k2: int|
            0 <= k1 < k2 < spec_person_indices(class_ids, person_class_id).len() ==> #[trigger] spec_person_indices(
                class_ids,
                person_class_id,
            )[k1] < #[trigger] spec_person_indices(class_ids, person_class_id)[k2],
    decreases class_ids.len(),
{
    if class_ids.len() > 0 {
        let n = class_ids.len() as int;
        let prefix = class_ids.drop_last();
        lemma_person_indices_exact(prefix, person_class_id);
        let prev = spec_person_indices(prefix, person_class_id);
        let cur = spec_person_indices(class_ids, person_class_id);
        assert forall|k: int| 0 <= k < prev.len() implies 0 <= #[trigger] prev[k] < n - 1
            && class_ids[prev[k] as int] == person_class_id by {
            let i = prev[k] as int;
            assert(0 <= i < prefix.len() && prefix[i] == person_class_id);
            assert(prefix[i] == class_ids[i]);
        }
        if class_ids.last() == person_class_id {
            assert(cur == prev.push((n - 1) as usize));
        } else {
            assert(cur == prev);
        }
        assert forall|k: int| 0 <= k < cur.len() implies {
            let i = #[trigger] cur[k] as int;
            0 <= i < class_ids.len() && class_ids[i] == person_class_id
        } by {
            if k < prev.len() {
                assert(cur[k] == prev[k]);
            }
        }
        assert forall|k1: int, k2: int| 0 <= k1 < k2 < cur.len() implies #[trigger] cur[k1]
            < #[trigger] cur[k2] by {
            if k2 < prev.len() {
                assert(cur[k1] == prev[k1] && cur[k2] == prev[k2]);
                assert(prev[k1] < prev[k2]);
            } else {
                assert(cur[k1] == prev[k1]);
            }
        }
        assert forall|i: int|
            0 <= i < class_ids.len() && class_ids[i] == person_class_id implies #[trigger] cur.contains(
            i as usize) by {
            if i < n - 1 {
                assert(prefix[i] == class_ids[i]);
                assert(prev.contains(i as usize));
                let k = choose|k: int| 0 <= k < prev.len() && prev[k] == i as usize;
                assert(cur[k] == i as usize);
            } else {
                assert(cur[cur.len() - 1] == i as usize);
            }
        }
    }
}

} // verus!

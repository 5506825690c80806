//! Anchors: the user messages that a history is read around.

use crate::chat_entry::{ChatEntry, ChatEntryKind};
use vstd::prelude::*;

verus! {

/// The indices of the user messages, ascending.
pub fn collect_user_anchor_indices(history: &[ChatEntry]) -> (anchors: Vec<usize>)
    ensures
        forall|k: int|
            0 <= k < anchors@.len() ==> (#[trigger] anchors@[k]) < history@.len()
                && history@[anchors@[k] as int].kind is User,
        forall|i: int|
            0 <= i < history@.len() && (#[trigger] history@[i]).kind is User ==> anchors@.contains(
                i as usize,
            ),
        forall|k: int, m: int| 0 <= k < m < anchors@.len() ==> anchors@[k] < anchors@[m],
{
    let mut anchors: Vec<usize> = Vec::new();
    let mut i: usize = 0;
    while i < history.len()
        invariant
            i <= history@.len(),
            forall|k: int|
                0 <= k < anchors@.len() ==> (#[trigger] anchors@[k]) < i
                    && history@[anchors@[k] as int].kind is User,
            forall|j: int|
                0 <= j < i && (#[trigger] history@[j]).kind is User ==> anchors@.contains(
                    j as usize,
                ),
            forall|k: int, m: int| 0 <= k < m < anchors@.len() ==> anchors@[k] < anchors@[m],
        decreases history@.len() - i,
    {
        if let ChatEntryKind::User { .. } = &history[i].kind {
            let ghost before = anchors@;
            anchors.push(i);
            proof {
                assert forall|j: int|
                    0 <= j < i + 1 && (#[trigger] history@[j]).kind is User implies anchors@.contains(
                    j as usize,
                ) by {
                    if j < i {
                        let k = choose|k: int| 0 <= k < before.len() && before[k] == j as usize;
                        assert(anchors@[k] == j as usize);
                    } else {
                        assert(anchors@[before.len() as int] == j as usize);
                    }
                }
            }
        }
        i += 1;
    }
    anchors
}

/// Whether `distance` is how far the nearest anchor at or before `idx` is.
pub open spec fn nearest_back(anchors: Seq<usize>, idx: usize, distance: Option<usize>) -> bool {
    match distance {
        Some(d) => d <= idx && anchors.contains((idx - d) as usize) && forall|k: int|
            0 <= k < anchors.len() && (#[trigger] anchors[k]) <= idx ==> idx - anchors[k] >= d,
        None => forall|k: int| 0 <= k < anchors.len() ==> (#[trigger] anchors[k]) > idx,
    }
}

/// Whether `distance` is how far the nearest anchor at or after `idx` is.
pub open spec fn nearest_forward(anchors: Seq<usize>, idx: usize, distance: Option<usize>) -> bool {
    match distance {
        Some(d) => idx + d <= usize::MAX && anchors.contains((idx + d) as usize) && forall|k: int|
            0 <= k < anchors.len() && (#[trigger] anchors[k]) >= idx ==> anchors[k] - idx >= d,
        None => forall|k: int| 0 <= k < anchors.len() ==> (#[trigger] anchors[k]) < idx,
    }
}

/// The distances to the nearest anchors at or before, and at or after, `idx`.
pub fn distances_to_nearest_anchors(idx: usize, anchors: &[usize]) -> (distances: (
    Option<usize>,
    Option<usize>,
))
    ensures
        nearest_back(anchors@, idx, distances.0),
        nearest_forward(anchors@, idx, distances.1),
{
    let mut back: Option<usize> = None;
    let mut forward: Option<usize> = None;
    let mut k: usize = 0;
    while k < anchors.len()
        invariant
            k <= anchors@.len(),
            match back {
                Some(d) => d <= idx && anchors@.contains((idx - d) as usize) && forall|j: int|
                    0 <= j < k && (#[trigger] anchors@[j]) <= idx ==> idx - anchors@[j] >= d,
                None => forall|j: int| 0 <= j < k ==> (#[trigger] anchors@[j]) > idx,
            },
            match forward {
                Some(d) => idx + d <= usize::MAX && anchors@.contains((idx + d) as usize)
                    && forall|j: int|
                    0 <= j < k && (#[trigger] anchors@[j]) >= idx ==> anchors@[j] - idx >= d,
                None => forall|j: int| 0 <= j < k ==> (#[trigger] anchors@[j]) < idx,
            },
        decreases anchors@.len() - k,
    {
        let anchor: usize = anchors[k];
        assert(anchors@[k as int] == anchor);
        if anchor <= idx {
            let d: usize = idx - anchor;
            match back {
                Some(nearest) => {
                    if d < nearest {
                        back = Some(d);
                    }
                },
                None => {
                    back = Some(d);
                },
            }
        }
        if anchor >= idx {
            let d: usize = anchor - idx;
            match forward {
                Some(nearest) => {
                    if d < nearest {
                        forward = Some(d);
                    }
                },
                None => {
                    forward = Some(d);
                },
            }
        }
        k += 1;
    }
    (back, forward)
}

/// There is one nearest distance. It is 0 at an anchor, and there is none
/// exactly where all anchors are on the other side.
pub proof fn lemma_nearest_distance(
    anchors: Seq<usize>,
    idx: usize,
    back: Option<usize>,
    forward: Option<usize>,
    k: int,
)
    requires
        nearest_back(anchors, idx, back),
        nearest_forward(anchors, idx, forward),
        0 <= k < anchors.len(),
    ensures
        anchors[k] == idx ==> back == Some(0usize) && forward == Some(0usize),
        anchors[k] <= idx ==> back is Some && anchors[k] <= idx - back.unwrap(),
        anchors[k] >= idx ==> forward is Some && idx + forward.unwrap() <= anchors[k],
        back is Some ==> exists|j: int|
            0 <= j < anchors.len() && #[trigger] anchors[j] == idx - back.unwrap(),
        forward is Some ==> exists|j: int|
            0 <= j < anchors.len() && #[trigger] anchors[j] == idx + forward.unwrap(),
{
    assert(anchors[k] <= idx || anchors[k] >= idx);
}

/// The anchors of a history are the indices of its user messages and no
/// others, ascending.
pub proof fn lemma_anchors_are_the_user_messages(
    history: &[ChatEntry],
    anchors: Vec<usize>,
    i: int,
)
    requires
        call_ensures(collect_user_anchor_indices, (history,), anchors),
        0 <= i < history@.len(),
    ensures
        anchors@.contains(i as usize) <==> history@[i].kind is User,
        forall|k: int| 0 <= k < anchors@.len() ==> (#[trigger] anchors@[k]) < history@.len(),
        forall|k: int, m: int| 0 <= k < m < anchors@.len() ==> anchors@[k] < anchors@[m],
{
    assert(history.len() == history@.len());
    if anchors@.contains(i as usize) {
        let k = choose|k: int| 0 <= k < anchors@.len() && anchors@[k] == i as usize;
        assert(anchors@[k] < history@.len());
        assert(history@[anchors@[k] as int].kind is User);
    }
    if history@[i].kind is User {
        assert(anchors@.contains(i as usize));
    }
}

/// The distances are those of the nearest anchor on each side, which may be
/// the entry itself.
pub proof fn lemma_distances_are_the_least(
    idx: usize,
    anchors: &[usize],
    distances: (Option<usize>, Option<usize>),
    k: int,
)
    requires
        call_ensures(distances_to_nearest_anchors, (idx, anchors), distances),
        0 <= k < anchors@.len(),
    ensures
        anchors@[k] <= idx ==> distances.0 is Some && distances.0.unwrap() <= idx - anchors@[k],
        anchors@[k] >= idx ==> distances.1 is Some && distances.1.unwrap() <= anchors@[k] - idx,
        distances.0 is Some ==> exists|j: int|
            0 <= j < anchors@.len() && #[trigger] anchors@[j] == idx - distances.0.unwrap(),
        distances.1 is Some ==> exists|j: int|
            0 <= j < anchors@.len() && #[trigger] anchors@[j] == idx + distances.1.unwrap(),
{
    lemma_nearest_distance(anchors@, idx, distances.0, distances.1, k);
}

} // verus!

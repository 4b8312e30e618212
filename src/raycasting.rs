//! Ray-hit targeting and the interaction state it drives.
//!
//! Each tick the engine casts a ray from the camera and reports the colliders
//! it crosses, with their distances in millimetres. The nearest one within
//! reach is the target; only a package can be looked at or picked up, so a
//! nearer wall hides a package behind it.
use vstd::prelude::*;

verus! {

/// How far the player can reach, in millimetres.
pub const INTERACTION_RANGE: u64 = 4000;

/// One collider crossed by the interaction ray.
#[derive(Clone, Copy, Debug, PartialEq, Eq)]
pub struct RayHit {
    /// The engine's id of the entity that owns the collider.
    pub entity: u64,
    /// Distance from the ray origin, in millimetres.
    pub distance: u64,
    /// Whether the entity carries package data.
    pub is_package: bool,
}

/// Index of the nearest hit not farther than `max_distance`; among equally
/// near hits the first one reported; `None` when every hit is out of reach.
pub open spec fn nearest_hit(hits: Seq<RayHit>, max_distance: u64) -> Option<int>
    decreases hits.len(),
{
    if hits.len() == 0 {
        None
    } else {
        let prev = nearest_hit(hits.drop_last(), max_distance);
        let last = hits.len() - 1;
        if hits[last].distance > max_distance {
            prev
        } else {
            match prev {
                None => Some(last),
                Some(j) => if hits[last].distance < hits[j].distance {
                    Some(last)
                } else {
                    prev
                },
            }
        }
    }
}

/// The package entity that the hits make the target, if any.
pub open spec fn target_of(hits: Seq<RayHit>, max_distance: u64) -> Option<u64> {
    match nearest_hit(hits, max_distance) {
        Some(i) => if hits[i].is_package {
            Some(hits[i].entity)
        } else {
            None
        },
        None => None,
    }
}

/// Hit resolution picks the nearest collider within reach and never one
/// beyond it: the result is `None` exactly when no hit is within reach;
/// otherwise it is a hit within reach, no other hit within reach is nearer,
/// and every equally near hit within reach comes later in the report.
pub proof fn lemma_nearest_hit(hits: Seq<RayHit>, max_distance: u64)
    ensures
        nearest_hit(hits, max_distance) is None <==> forall|j: int|
            0 <= j < hits.len() ==> #[trigger] hits[j].distance > max_distance,
        nearest_hit(hits, max_distance) matches Some(i) ==> {
            &&& 0 <= i < hits.len()
            &&& hits[i].distance <= max_distance
            &&& forall|j: int|
                0 <= j < hits.len() && #[trigger] hits[j].distance <= max_distance
                    ==> hits[i].distance <= hits[j].distance
            &&& forall|j: int|
                0 <= j < i && #[trigger] hits[j].distance <= max_distance ==> hits[i].distance
                    < hits[j].distance
        },
    decreases hits.len(),
{
    if hits.len() > 0 {
        let prefix = hits.drop_last();
        lemma_nearest_hit(prefix, max_distance);
        assert forall|j: int| 0 <= j < prefix.len() implies prefix[j] == hits[j] by {}
    }
}

/// Index of the nearest hit within `max_distance`, the first reported among
/// equally near ones.
pub fn nearest_hit_index(hits: &Vec<RayHit>, max_distance: u64) -> (r: Option<usize>)
    ensures
        match r {
            Some(i) => nearest_hit(hits@, max_distance) == Some(i as int),
            None => nearest_hit(hits@, max_distance) is None,
        },
        r matches Some(i) ==> i < hits@.len(),
{
    let mut best: Option<usize> = None;
    let mut k: usize = 0;
    while k < hits.len()
        invariant
            k <= hits@.len(),
            match best {
                Some(i) => i < k && nearest_hit(hits@.take(k as int), max_distance) == Some(
                    i as int,
                ),
                None => nearest_hit(hits@.take(k as int), max_distance) is None,
            },
        decreases hits@.len() - k,
    {
        proof {
            let next = hits@.take(k + 1);
            assert(next.drop_last() =~= hits@.take(k as int));
            assert(next[k as int] == hits@[k as int]);
            if let Some(i) = best {
                assert(next[i as int] == hits@[i as int]);
            }
        }
        let h = hits[k];
        if h.distance <= max_distance {
            match best {
                None => {
                    best = Some(k);
                },
                Some(i) => {
                    if h.distance < hits[i].distance {
                        best = Some(k);
                    }
                },
            }
        }
        k = k + 1;
    }
    assert(hits@.take(k as int) =~= hits@);
    best
}

/// The package entity the player is looking at: the nearest hit within
/// `max_distance`, when it carries package data.
pub fn resolve_target(hits: &Vec<RayHit>, max_distance: u64) -> (r: Option<u64>)
    ensures
        r == target_of(hits@, max_distance),
{
    match nearest_hit_index(hits, max_distance) {
        Some(i) => {
            if hits[i].is_package {
                Some(hits[i].entity)
            } else {
                None
            }
        },
        None => None,
    }
}

/// What the player's camera is interacting with, re-evaluated every tick.
#[derive(Clone, Copy, Debug, PartialEq, Eq)]
pub struct PlayerInteractionSystem {
    pub is_looking_at_item: bool,
    pub is_holding_item: bool,
    /// The engine's id of the targeted package entity.
    pub interactable_entity: Option<u64>,
}

impl PlayerInteractionSystem {
    /// Nothing targeted, nothing held.
    pub fn new() -> (r: PlayerInteractionSystem)
        ensures
            !r.is_looking_at_item,
            !r.is_holding_item,
            r.interactable_entity is None,
    {
        PlayerInteractionSystem {
            is_looking_at_item: false,
            is_holding_item: false,
            interactable_entity: None,
        }
    }

    /// Takes this tick's target and whether interact is pressed. Returns the
    /// package to move in front of the camera: the target, while interact is
    /// pressed and a package is targeted.
    pub fn observe(&mut self, target: Option<u64>, interact_pressed: bool) -> (carried: Option<u64>)
        ensures
            final(self).is_looking_at_item == target is Some,
            final(self).interactable_entity == target,
            final(self).is_holding_item == (interact_pressed && target is Some),
            carried == (if interact_pressed {
                target
            } else {
                None
            }),
    {
        self.interactable_entity = target;
        self.is_looking_at_item = target.is_some();
        self.is_holding_item = interact_pressed && target.is_some();
        if interact_pressed {
            target
        } else {
            None
        }
    }
}

} // verus!

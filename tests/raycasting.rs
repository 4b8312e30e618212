use courier::raycasting::{
    nearest_hit_index, resolve_target, PlayerInteractionSystem, RayHit, INTERACTION_RANGE,
};

fn hit(entity: u64, distance: u64, is_package: bool) -> RayHit {
    RayHit { entity, distance, is_package }
}

#[test]
fn nearest_hit_within_reach_is_chosen() {
    let hits = vec![hit(1, 3000, true), hit(2, 1500, true), hit(3, 2500, false)];
    assert_eq!(nearest_hit_index(&hits, INTERACTION_RANGE), Some(1));
    assert_eq!(resolve_target(&hits, INTERACTION_RANGE), Some(2));
}

#[test]
fn hits_beyond_reach_are_never_reported() {
    let hits = vec![hit(1, 4001, true), hit(2, 9000, true)];
    assert_eq!(nearest_hit_index(&hits, INTERACTION_RANGE), None);
    assert_eq!(resolve_target(&hits, INTERACTION_RANGE), None);
    let edge = vec![hit(5, 4000, true)];
    assert_eq!(resolve_target(&edge, INTERACTION_RANGE), Some(5));
}

#[test]
fn no_hits_no_target() {
    assert_eq!(nearest_hit_index(&vec![], INTERACTION_RANGE), None);
    assert_eq!(resolve_target(&vec![], INTERACTION_RANGE), None);
}

#[test]
fn equally_near_hits_resolve_to_first_reported() {
    let hits = vec![hit(9, 5000, true), hit(4, 2000, true), hit(6, 2000, true)];
    assert_eq!(nearest_hit_index(&hits, INTERACTION_RANGE), Some(1));
    assert_eq!(resolve_target(&hits, INTERACTION_RANGE), Some(4));
    // Same inputs, same answer.
    assert_eq!(resolve_target(&hits, INTERACTION_RANGE), Some(4));
}

#[test]
fn nearer_wall_hides_package() {
    let hits = vec![hit(1, 2000, true), hit(2, 1000, false)];
    assert_eq!(resolve_target(&hits, INTERACTION_RANGE), None);
}

#[test]
fn interaction_tracks_target_each_tick() {
    let mut s = PlayerInteractionSystem::new();
    assert!(!s.is_looking_at_item && !s.is_holding_item);
    assert_eq!(s.interactable_entity, None);

    assert_eq!(s.observe(Some(7), false), None);
    assert!(s.is_looking_at_item);
    assert!(!s.is_holding_item);
    assert_eq!(s.interactable_entity, Some(7));

    assert_eq!(s.observe(Some(7), true), Some(7));
    assert!(s.is_holding_item);

    assert_eq!(s.observe(None, true), None);
    assert!(!s.is_looking_at_item);
    assert!(!s.is_holding_item);
    assert_eq!(s.interactable_entity, None);
}

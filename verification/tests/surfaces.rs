use obelisk_bevy::combatant::components::Faction;
use obelisk_bevy::surfaces::contact::{surface_contact_triggers, ContactHitbox, ContactPatch};
use obelisk_bevy::surfaces::patch::{try_paint, PaintCandidate, PaintOutcome, SurfacePatch, SurfaceSeq};
use obelisk_bevy::surfaces::standing::{apply_standing_payloads, Overlap, StandingState};
use obelisk_bevy::surfaces::types::{
    load_surfaces, validate_surface, ContactReaction, StandingFilter, StandingPayload, SurfaceError,
    SurfaceRegistry, SurfaceType, DEFAULT_LIFETIME, DEFAULT_MAX_PATCHES, DEFAULT_MERGE_RADIUS,
    DEFAULT_PATCH_RADIUS, DEFAULT_REHIT_INTERVAL,
};

fn surface(id: &str) -> SurfaceType {
    SurfaceType {
        id: id.into(),
        lifetime: DEFAULT_LIFETIME,
        merge_radius: DEFAULT_MERGE_RADIUS,
        max_patches: DEFAULT_MAX_PATCHES,
        patch_radius: DEFAULT_PATCH_RADIUS,
        standing: None,
        on_skill_contact: vec![],
    }
}

fn burning(id: &str, on_enter_only: bool) -> SurfaceType {
    SurfaceType {
        standing: Some(StandingPayload {
            filter: StandingFilter::Enemies,
            effect: Some("burn".into()),
            tick_skill: Some("scorch".into()),
            rehit_interval: DEFAULT_REHIT_INTERVAL,
            on_enter_only,
        }),
        ..surface(id)
    }
}

fn registry(types: Vec<SurfaceType>) -> SurfaceRegistry {
    let mut reg = SurfaceRegistry::new();
    for t in types {
        assert!(reg.add(t, None, None).is_ok());
    }
    reg
}

fn candidate(entity: u64, seq: u64) -> PaintCandidate {
    PaintCandidate { entity, seq, evicted: false }
}

#[test]
fn paint_takes_the_next_ordinal_and_type_defaults() {
    let reg = registry(vec![surface("oil")]);
    let mut seq = SurfaceSeq(4);
    match try_paint(&reg, &mut seq, &vec![], false, false, "oil", None, None, 1, Faction::Player, "") {
        PaintOutcome::Painted { evict, patch } => {
            assert!(evict.is_empty());
            assert_eq!(patch.seq, 5);
            assert_eq!(patch.radius, DEFAULT_PATCH_RADIUS);
            assert_eq!(patch.remaining, DEFAULT_LIFETIME);
            assert_eq!(patch.surface, "oil");
            assert_eq!(patch.owner_faction, Faction::Player);
        },
        _ => panic!("expected a paint"),
    }
    assert_eq!(seq.0, 5);
    match try_paint(&reg, &mut seq, &vec![], false, false, "oil", Some(1_000_000), Some(2_000_000), 1, Faction::Player, "trail") {
        PaintOutcome::Painted { patch, .. } => {
            assert_eq!((patch.radius, patch.remaining, patch.seq), (1_000_000, 2_000_000, 6));
            assert_eq!(patch.skill_id, "trail");
        },
        _ => panic!("expected a paint"),
    }
}

#[test]
fn unknown_and_merged_paints_do_nothing() {
    let reg = registry(vec![surface("oil")]);
    let mut seq = SurfaceSeq(0);
    assert!(matches!(try_paint(&reg, &mut seq, &vec![], false, false, "lava", None, None, 1, Faction::Player, ""), PaintOutcome::Unknown));
    assert!(matches!(try_paint(&reg, &mut seq, &vec![], true, false, "oil", None, None, 1, Faction::Player, ""), PaintOutcome::Deduped));
    assert!(matches!(try_paint(&reg, &mut seq, &vec![], false, true, "oil", None, None, 1, Faction::Player, ""), PaintOutcome::Deduped));
    assert_eq!(seq.0, 0, "no ordinal is spent");
}

#[test]
fn cap_evicts_the_oldest_patches() {
    let reg = registry(vec![SurfaceType { max_patches: 3, ..surface("oil") }]);
    let mut seq = SurfaceSeq(10);
    // Listed out of order; ordinals 4 and 2 are the oldest of five live patches.
    let same = vec![candidate(100, 7), candidate(101, 4), candidate(102, 9), candidate(103, 2), candidate(104, 8)];
    match try_paint(&reg, &mut seq, &same, false, false, "oil", None, None, 1, Faction::Enemy, "") {
        PaintOutcome::Painted { evict, patch } => {
            // 5 live + 1 new over a cap of 3: the three oldest go, oldest first.
            assert_eq!(evict, vec![3, 1, 0]);
            assert_eq!(patch.seq, 11);
        },
        _ => panic!("expected a paint"),
    }
}

#[test]
fn already_evicted_patches_neither_count_nor_get_evicted_twice() {
    let reg = registry(vec![SurfaceType { max_patches: 2, ..surface("oil") }]);
    let mut seq = SurfaceSeq(0);
    let same = vec![
        PaintCandidate { entity: 1, seq: 1, evicted: true },
        candidate(2, 2),
        candidate(3, 3),
    ];
    match try_paint(&reg, &mut seq, &same, false, false, "oil", None, None, 9, Faction::Enemy, "") {
        PaintOutcome::Painted { evict, .. } => assert_eq!(evict, vec![1]),
        _ => panic!("expected a paint"),
    }
    let room = vec![candidate(2, 2)];
    match try_paint(&reg, &mut seq, &room, false, false, "oil", None, None, 9, Faction::Enemy, "") {
        PaintOutcome::Painted { evict, .. } => assert!(evict.is_empty(), "room under the cap"),
        _ => panic!("expected a paint"),
    }
}

#[test]
fn equal_ordinals_evict_in_list_order() {
    let reg = registry(vec![SurfaceType { max_patches: 1, ..surface("oil") }]);
    let mut seq = SurfaceSeq(0);
    let same = vec![candidate(1, 5), candidate(2, 5)];
    match try_paint(&reg, &mut seq, &same, false, false, "oil", None, None, 9, Faction::Enemy, "") {
        PaintOutcome::Painted { evict, .. } => assert_eq!(evict, vec![0, 1]),
        _ => panic!("expected a paint"),
    }
}

#[test]
fn patches_decay_to_expiry() {
    let mut p = SurfacePatch {
        surface: "oil".into(),
        owner: 1,
        owner_faction: Faction::Player,
        skill_id: String::new(),
        radius: 450_000,
        remaining: 1_000_000,
        seq: 1,
    };
    assert!(!p.decay(600_000));
    assert_eq!(p.remaining, 400_000);
    assert!(p.decay(400_000));
}

fn overlap(patch: u64, victim: u64, surface: &str) -> Overlap {
    Overlap {
        patch,
        victim,
        surface: surface.into(),
        owner: 1,
        owner_faction: Faction::Player,
        victim_faction: Faction::Enemy,
    }
}

#[test]
fn standing_in_overlapping_patches_ticks_once() {
    let reg = registry(vec![burning("fire", false)]);
    let mut st = StandingState::new();
    let ovs = vec![overlap(10, 5, "fire"), overlap(11, 5, "fire"), overlap(10, 6, "fire")];
    let fires = apply_standing_payloads(&mut st, &reg, &ovs, 0, &vec![5, 6]);
    let idx: Vec<usize> = fires.iter().map(|f| f.overlap).collect();
    assert_eq!(idx, vec![0, 2]);
    assert_eq!(fires[0].effect.as_deref(), Some("burn"));
    assert_eq!(fires[0].tick_skill.as_deref(), Some("scorch"));
    // The clock holds until the rehit interval has passed.
    assert!(apply_standing_payloads(&mut st, &reg, &ovs, 400_000, &vec![5, 6]).is_empty());
    let fires = apply_standing_payloads(&mut st, &reg, &ovs, 500_000, &vec![5, 6]);
    assert_eq!(fires.iter().map(|f| f.overlap).collect::<Vec<_>>(), vec![0, 2]);
}

#[test]
fn standing_filter_spares_the_painters_side() {
    let reg = registry(vec![burning("fire", false)]);
    let mut st = StandingState::new();
    let mut ally = overlap(10, 5, "fire");
    ally.victim_faction = Faction::Player;
    let mut painter = overlap(10, 1, "fire");
    painter.victim_faction = Faction::Player;
    let fires = apply_standing_payloads(&mut st, &reg, &vec![ally, painter, overlap(10, 6, "other")], 0, &vec![1, 5, 6]);
    assert!(fires.is_empty());
}

#[test]
fn enter_only_payload_fires_on_the_entry_edge() {
    let reg = registry(vec![burning("ice", true)]);
    let mut st = StandingState::new();
    let inside = vec![overlap(10, 5, "ice")];
    assert_eq!(apply_standing_payloads(&mut st, &reg, &inside, 0, &vec![5]).len(), 1);
    assert!(apply_standing_payloads(&mut st, &reg, &inside, 16_000, &vec![5]).is_empty(), "still inside");
    assert!(apply_standing_payloads(&mut st, &reg, &vec![], 32_000, &vec![5]).is_empty());
    assert_eq!(apply_standing_payloads(&mut st, &reg, &inside, 48_000, &vec![5]).len(), 1, "re-entered");
}

#[test]
fn clocks_of_departed_victims_are_dropped() {
    let reg = registry(vec![burning("fire", false)]);
    let mut st = StandingState::new();
    let ovs = vec![overlap(10, 5, "fire")];
    assert_eq!(apply_standing_payloads(&mut st, &reg, &ovs, 0, &vec![]).len(), 1);
    // Victim 5 was not present, so its clock was dropped and it fires again at once.
    assert_eq!(apply_standing_payloads(&mut st, &reg, &ovs, 16_000, &vec![5]).len(), 1);
    assert!(apply_standing_payloads(&mut st, &reg, &ovs, 32_000, &vec![5]).is_empty());
}

fn oil_with_reaction(consume: bool) -> SurfaceType {
    SurfaceType {
        on_skill_contact: vec![
            ContactReaction { tags_any: vec!["cold".into()], trigger_skill: "freeze".into(), consume: false },
            ContactReaction { tags_any: vec!["fire".into(), "lightning".into()], trigger_skill: "ignite".into(), consume },
            ContactReaction { tags_any: vec!["fire".into()], trigger_skill: "never".into(), consume: false },
        ],
        ..surface("oil")
    }
}

fn hitbox(tags: Option<Vec<&str>>, inside: Vec<bool>) -> ContactHitbox {
    ContactHitbox {
        tags: tags.map(|t| t.into_iter().map(String::from).collect()),
        contacted: vec![],
        inside,
    }
}

fn patch(entity: u64, surface: &str) -> ContactPatch {
    ContactPatch { entity, surface: surface.into() }
}

#[test]
fn first_matching_reaction_fires_once_per_surface_type() {
    let reg = registry(vec![oil_with_reaction(false)]);
    let patches = vec![patch(1, "oil"), patch(2, "oil")];
    let out = surface_contact_triggers(&reg, &patches, &vec![hitbox(Some(vec!["spell", "fire"]), vec![true, true])]);
    assert_eq!(out.fires.len(), 1, "second oil patch is the same type");
    assert_eq!((out.fires[0].hitbox, out.fires[0].patch), (0, 0));
    assert_eq!(out.fires[0].trigger_skill, "ignite");
    assert!(!out.fires[0].consume);
    assert_eq!(out.contacted[0], vec!["oil".to_string()]);
}

#[test]
fn consumed_patches_are_gone_for_later_hitboxes() {
    let reg = registry(vec![oil_with_reaction(true)]);
    let patches = vec![patch(1, "oil"), patch(2, "oil")];
    let hbs = vec![
        hitbox(Some(vec!["fire"]), vec![true, false]),
        hitbox(Some(vec!["lightning"]), vec![true, true]),
        hitbox(None, vec![true, true]),
        hitbox(Some(vec!["physical"]), vec![true, true]),
    ];
    let out = surface_contact_triggers(&reg, &patches, &hbs);
    let pairs: Vec<(usize, usize)> = out.fires.iter().map(|f| (f.hitbox, f.patch)).collect();
    assert_eq!(pairs, vec![(0, 0), (1, 1)]);
    assert!(out.fires.iter().all(|f| f.consume));
    assert!(out.contacted[2].is_empty() && out.contacted[3].is_empty());
}

#[test]
fn an_already_contacted_type_never_reacts_again() {
    let reg = registry(vec![oil_with_reaction(false)]);
    let mut hb = hitbox(Some(vec!["fire"]), vec![true]);
    hb.contacted = vec!["oil".into()];
    let out = surface_contact_triggers(&reg, &vec![patch(1, "oil")], &vec![hb]);
    assert!(out.fires.is_empty());
    assert_eq!(out.contacted[0], vec!["oil".to_string()]);
}

#[test]
fn surface_validation_errors() {
    let skills = vec!["scorch".to_string(), "ignite".to_string()];
    assert!(validate_surface(&burning("fire", false), Some(true), Some(&skills)).is_ok());
    let e = validate_surface(&surface(""), None, None).unwrap_err();
    assert!(matches!(e, SurfaceError::EmptyId));
    assert_eq!(e.message(), "surface id must be non-empty");
    let e = validate_surface(&SurfaceType { lifetime: 0, ..surface("oil") }, None, None).unwrap_err();
    assert_eq!(e.message(), "surface 'oil': lifetime must be > 0");
    let e = validate_surface(&SurfaceType { merge_radius: -1, ..surface("oil") }, None, None).unwrap_err();
    assert_eq!(e.message(), "surface 'oil': merge_radius must be >= 0");
    let e = validate_surface(&SurfaceType { max_patches: 0, ..surface("oil") }, None, None).unwrap_err();
    assert_eq!(e.message(), "surface 'oil': max_patches must be >= 1");
    let e = validate_surface(&SurfaceType { patch_radius: 0, ..surface("oil") }, None, None).unwrap_err();
    assert_eq!(e.message(), "surface 'oil': patch_radius must be > 0");
    let mut bad = burning("fire", false);
    bad.standing.as_mut().unwrap().rehit_interval = 0;
    let e = validate_surface(&bad, None, None).unwrap_err();
    assert_eq!(e.message(), "surface 'fire': rehit_interval must be > 0");
    let e = validate_surface(&burning("fire", false), Some(false), None).unwrap_err();
    assert_eq!(e.message(), "surface 'fire': standing.effect 'burn' is not a registered effect (no_such_effect check)");
    let e = validate_surface(&burning("fire", false), None, Some(&vec![])).unwrap_err();
    assert_eq!(e.message(), "surface 'fire': standing.tick_skill 'scorch' is not a registered skill");
    let mut empty_tags = oil_with_reaction(false);
    empty_tags.on_skill_contact[0].tags_any.clear();
    let e = validate_surface(&empty_tags, None, None).unwrap_err();
    assert_eq!(e.message(), "surface 'oil': on_skill_contact.tags_any must be non-empty");
    let e = validate_surface(&oil_with_reaction(false), None, Some(&skills)).unwrap_err();
    assert_eq!(e.message(), "surface 'oil': on_skill_contact.trigger_skill 'freeze' is not a registered skill");
}

#[test]
fn loading_stops_at_the_first_bad_type() {
    let ok = load_surfaces(vec![(surface("oil"), None), (burning("fire", false), Some(true))], None).unwrap();
    assert!(ok.types.contains_key("oil") && ok.types.contains_key("fire"));
    let dup = load_surfaces(vec![(surface("oil"), None), (surface("oil"), None), (surface(""), None)], None);
    match dup {
        Err(e) => assert_eq!(e.message(), "duplicate surface id 'oil'"),
        Ok(_) => panic!("duplicate ids must be refused"),
    }
    let bad = load_surfaces(vec![(SurfaceType { lifetime: -5, ..surface("oil") }, None), (surface("oil"), None)], None);
    assert!(matches!(bad, Err(SurfaceError::NonPositiveLifetime { .. })));
}

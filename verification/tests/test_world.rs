//! Zones, the world map, zone transitions, cleared zones and enemy planning.

use voidforged::map::{
    advance_zone_transition, check_zone_cleared, detect_dungeon_entry, detect_zone_change,
    apply_respawn_tick, mesh_for_tag, plan_enemies, EnemyDraw, spawn_grass_blades, spawn_ground_patches, spawn_pebbles,
    spawn_zone_decorations, spawn_zone_enemies, select_variant, track_player_zone,
    zone_at, zone_def_by_id, CurrentZone, DecorMesh, OverlayAction, TransitionPhase, ZoneCleared,
    ZoneTransitionState, WorldEnemyRespawnTimer, RESPAWN_DELAY_BITS,
};
use voidforged::zone::{all_zones, DungeonEntrance, EnemyVariant, ZoneId};

#[test]
fn zone_names_and_labels() {
    assert_eq!(ZoneId::Grasslands.display_name(), "Grasslands");
    assert_eq!(ZoneId::Void.display_name(), "---");
    assert_eq!(ZoneId::Tundra.zone_label(), "Frostguard Wastes");
    assert_eq!(ZoneId::Swamp.zone_label(), "Mire of Sorrows");
}

#[test]
fn zone_tiers_and_mixes() {
    assert_eq!(ZoneId::Grasslands.enemy_tier_range(), (0, 1));
    assert_eq!(ZoneId::Tundra.enemy_tier_range(), (3, 4));
    assert_eq!(
        ZoneId::Tundra.enemy_composition(),
        vec![(EnemyVariant::Grunt, 2), (EnemyVariant::Ranged, 3), (EnemyVariant::Elite, 5)]
    );
    assert!(ZoneId::Void.enemy_composition().is_empty());
}

#[test]
fn five_zones_with_their_entrances() {
    let zones = all_zones();
    assert_eq!(zones.len(), 5);
    assert_eq!(zones[0].id, ZoneId::Grasslands);
    assert_eq!(zones[0].dungeon_entrances.len(), 2);
    assert_eq!(zones[0].dungeon_entrances[0].2.name, "Rat King's Warren");
    assert_eq!(zones[1].offset_z, -25);
    assert_eq!(zones[4].id, ZoneId::Swamp);
    assert_eq!(zones[4].offset_x, -25);
    let ids: Vec<ZoneId> = zones.iter().map(|z| z.id).collect();
    for (i, a) in ids.iter().enumerate() {
        for b in &ids[i + 1..] {
            assert_ne!(a, b);
        }
    }
}

#[test]
fn zone_lookup_by_id() {
    let desert = zone_def_by_id(&ZoneId::Desert).unwrap();
    assert_eq!(desert.label, "Scorched Reach");
    assert_eq!(desert.dungeon_entrances[0].2.name, "Tomb of the Sun King");
    assert!(zone_def_by_id(&ZoneId::Void).is_none());
}

#[test]
fn positions_map_to_zones() {
    assert_eq!(zone_at(0, 0), Some(ZoneId::Grasslands));
    assert_eq!(zone_at(39, 39), Some(ZoneId::Grasslands));
    assert_eq!(zone_at(40, 0), None);
    assert_eq!(zone_at(50, 0), Some(ZoneId::Forest));
    assert_eq!(zone_at(0, -50), Some(ZoneId::Desert));
    assert_eq!(zone_at(0, -11), Some(ZoneId::Desert));
    assert_eq!(zone_at(0, -10), None);
    assert_eq!(zone_at(0, 50), Some(ZoneId::Tundra));
    assert_eq!(zone_at(-50, 0), Some(ZoneId::Swamp));
    assert_eq!(zone_at(-1, 0), None);
    assert_eq!(zone_at(i64::MAX, i64::MIN), None);
}

#[test]
fn tracking_follows_the_player() {
    let mut current = CurrentZone::default();
    assert_eq!(current.0, None);
    track_player_zone(&mut current, 60, 10);
    assert_eq!(current.0, Some(ZoneId::Forest));
    track_player_zone(&mut current, 45, 10);
    assert_eq!(current.0, None);
}

#[test]
fn entering_a_zone_starts_the_overlay() {
    let mut t = ZoneTransitionState::default();
    detect_zone_change(&CurrentZone(Some(ZoneId::Forest)), &mut t);
    assert!(t.active);
    assert_eq!(t.zone_name, "Forest");
    assert_eq!(t.zone_label, "Wealdwood");
    assert_eq!(t.phase, TransitionPhase::FadeIn);
    assert_eq!(t.previous_zone, Some(ZoneId::Forest));

    // Staying in the zone changes nothing.
    t.timer_bits = 0.25f32.to_bits();
    detect_zone_change(&CurrentZone(Some(ZoneId::Forest)), &mut t);
    assert_eq!(t.timer_bits, 0.25f32.to_bits());
    assert_eq!(t.phase, TransitionPhase::FadeIn);
}

#[test]
fn leaving_for_the_gap_shows_nothing() {
    let mut t = ZoneTransitionState::default();
    t.previous_zone = Some(ZoneId::Forest);
    detect_zone_change(&CurrentZone(None), &mut t);
    assert!(!t.active);
    assert_eq!(t.previous_zone, None);
}

#[test]
fn overlay_runs_through_its_phases() {
    let mut t = ZoneTransitionState::default();
    assert_eq!(advance_zone_transition(&mut t, true), OverlayAction::Despawn);
    detect_zone_change(&CurrentZone(Some(ZoneId::Desert)), &mut t);
    assert_eq!(advance_zone_transition(&mut t, false), OverlayAction::Show);
    assert_eq!(t.phase, TransitionPhase::FadeIn);
    t.timer_bits = 0.6f32.to_bits();
    assert_eq!(advance_zone_transition(&mut t, true), OverlayAction::Show);
    assert_eq!(t.phase, TransitionPhase::Hold);
    assert_eq!(t.timer_bits, 0);
    assert_eq!(advance_zone_transition(&mut t, true), OverlayAction::Show);
    assert_eq!(t.phase, TransitionPhase::FadeOut);
    assert_eq!(advance_zone_transition(&mut t, true), OverlayAction::Despawn);
    assert!(!t.active);
    assert_eq!(t.phase, TransitionPhase::Idle);
}

#[test]
fn empty_zones_become_cleared_once() {
    let mut cleared = ZoneCleared::default();
    let mut timers = WorldEnemyRespawnTimer::default();
    // One enemy left in the grasslands, one in the forest.
    let enemies = vec![(3, 3), (60, 20)];
    check_zone_cleared(&enemies, &mut cleared, &mut timers);
    assert_eq!(cleared.cleared, vec![ZoneId::Desert, ZoneId::Tundra, ZoneId::Swamp]);
    assert_eq!(
        timers.timers,
        vec![
            (ZoneId::Desert, RESPAWN_DELAY_BITS),
            (ZoneId::Tundra, RESPAWN_DELAY_BITS),
            (ZoneId::Swamp, RESPAWN_DELAY_BITS),
        ]
    );
    assert_eq!(f32::from_bits(RESPAWN_DELAY_BITS), 30.0);
    check_zone_cleared(&Vec::new(), &mut cleared, &mut timers);
    assert_eq!(
        cleared.cleared,
        vec![ZoneId::Desert, ZoneId::Tundra, ZoneId::Swamp, ZoneId::Grasslands, ZoneId::Forest]
    );
    assert_eq!(timers.timers.len(), 5);
    check_zone_cleared(&Vec::new(), &mut cleared, &mut timers);
    assert_eq!(cleared.cleared.len(), 5);
    assert_eq!(timers.timers.len(), 5);
}

#[test]
fn finished_timer_makes_zone_respawnable() {
    let mut cleared = ZoneCleared { cleared: vec![ZoneId::Desert, ZoneId::Swamp] };
    let mut timers = WorldEnemyRespawnTimer {
        timers: vec![(ZoneId::Desert, 0.5f32.to_bits()), (ZoneId::Swamp, 5.0f32.to_bits())],
    };
    let left = vec![(-0.5f32).to_bits(), 4.0f32.to_bits()];
    let ended = apply_respawn_tick(&mut timers, &mut cleared, &left, &vec![true, false]);
    assert_eq!(ended, vec![ZoneId::Desert]);
    assert_eq!(zone_def_by_id(&ended[0]).unwrap().id, ZoneId::Desert);
    assert_eq!(cleared.cleared, vec![ZoneId::Swamp]);
    assert_eq!(timers.timers, vec![(ZoneId::Swamp, 4.0f32.to_bits())]);
}

#[test]
fn tick_without_expiry_only_counts_down() {
    let mut cleared = ZoneCleared { cleared: vec![ZoneId::Tundra, ZoneId::Forest] };
    let mut timers = WorldEnemyRespawnTimer {
        timers: vec![(ZoneId::Tundra, 30.0f32.to_bits()), (ZoneId::Forest, 2.0f32.to_bits())],
    };
    let left = vec![29.0f32.to_bits(), 1.0f32.to_bits()];
    let ended = apply_respawn_tick(&mut timers, &mut cleared, &left, &vec![false, false]);
    assert!(ended.is_empty());
    assert_eq!(cleared.cleared, vec![ZoneId::Tundra, ZoneId::Forest]);
    assert_eq!(
        timers.timers,
        vec![(ZoneId::Tundra, 29.0f32.to_bits()), (ZoneId::Forest, 1.0f32.to_bits())]
    );
}

#[test]
fn rolls_pick_by_cumulative_weight() {
    let mix = ZoneId::Desert.enemy_composition();
    for roll in 0..4 {
        assert_eq!(select_variant(&mix, roll), EnemyVariant::Ranged);
    }
    for roll in 4..10 {
        assert_eq!(select_variant(&mix, roll), EnemyVariant::Charger);
    }
    assert_eq!(select_variant(&Vec::new(), 0), EnemyVariant::Grunt);
}

#[test]
fn planned_enemies_follow_the_zone_rules() {
    for _ in 0..20 {
        let plan = spawn_zone_enemies(ZoneId::Tundra);
        assert!((5..=8).contains(&plan.len()));
        for s in &plan {
            assert!([EnemyVariant::Grunt, EnemyVariant::Ranged, EnemyVariant::Elite].contains(&s.variant));
            assert!((3..=4).contains(&s.tier));
            assert_eq!(s.xp_reward, 5 + 5 * s.tier as u64);
            assert!((1..19).contains(&s.tile_x));
            assert!((1..19).contains(&s.tile_z));
            let color = match s.variant {
                EnemyVariant::Grunt => 0,
                EnemyVariant::Ranged => 1,
                _ => 3,
            };
            assert_eq!(s.color_index, color);
        }
    }
    let grass = spawn_zone_enemies(ZoneId::Grasslands);
    assert!((3..=6).contains(&grass.len()));
    assert!(grass.iter().all(|s| s.variant == EnemyVariant::Grunt && s.tier <= 1));
}

#[test]
fn decoration_tags_name_meshes() {
    assert_eq!(mesh_for_tag("tree"), DecorMesh::Tree);
    assert_eq!(mesh_for_tag("grass_blade"), DecorMesh::GrassBlade);
    assert_eq!(mesh_for_tag("pillar"), DecorMesh::Pillar);
    assert_eq!(mesh_for_tag("rock"), DecorMesh::Rock);
    assert_eq!(mesh_for_tag("statue"), DecorMesh::Rock);
}

#[test]
fn entering_a_dungeon_needs_the_key_and_a_near_entrance() {
    let entrances = vec![
        DungeonEntrance { name: "Crystal Depths".to_string(), dungeon_tier: 4, depth: 10 },
        DungeonEntrance { name: "The Hollow Tree".to_string(), dungeon_tier: 2, depth: 6 },
    ];
    assert!(detect_dungeon_entry(&entrances, &vec![false, true], false).is_none());
    assert!(detect_dungeon_entry(&entrances, &vec![false, false], true).is_none());
    let d = detect_dungeon_entry(&entrances, &vec![false, true], true).unwrap();
    assert_eq!(d.name, "The Hollow Tree");
    assert_eq!((d.tier, d.depth), (2, 6));
    let first = detect_dungeon_entry(&entrances, &vec![true, true], true).unwrap();
    assert_eq!(first.name, "Crystal Depths");
}

#[test]
fn spawn_counts_vary_between_plans() {
    let counts: std::collections::HashSet<usize> =
        (0..200).map(|_| spawn_zone_enemies(ZoneId::Tundra).len()).collect();
    assert!(counts.len() > 1);
    assert!(counts.iter().all(|c| (5..=8).contains(c)));
}

#[test]
fn server_ticks_count_up() {
    let mut tick = voidforged::server::ServerTick::default();
    assert_eq!(tick.0, 0);
    voidforged::server::advance_tick(&mut tick);
    voidforged::server::advance_tick(&mut tick);
    assert_eq!(tick.0, 2);
}

#[test]
fn scattered_objects_stay_in_their_zone() {
    let zone = zone_def_by_id(&ZoneId::Forest).unwrap();
    for _ in 0..20 {
        let decor = spawn_zone_decorations(&zone, 8);
        assert!((12..=20).contains(&decor.len()));
        assert!(decor.iter().all(|d| (2..18).contains(&d.tile_x) && (2..18).contains(&d.tile_z) && d.kind < 8));
        let patches = spawn_ground_patches(&zone, 4);
        assert!((15..=25).contains(&patches.len()));
        assert!(patches.iter().all(|p| p.tile_x < 20 && p.tile_z < 20 && p.kind < 4));
        let pebbles = spawn_pebbles(&zone);
        assert!((20..=35).contains(&pebbles.len()));
        let grass = spawn_grass_blades(&zone);
        assert!((15..=30).contains(&grass.len()));
        assert!(grass.iter().all(|g| g.kind == 0));
    }
    assert!(spawn_zone_decorations(&zone, 0).is_empty());
    assert!(spawn_ground_patches(&zone, 0).is_empty());
    let tundra = zone_def_by_id(&ZoneId::Tundra).unwrap();
    assert!(spawn_grass_blades(&tundra).is_empty());
}

#[test]
fn draws_decide_the_planned_enemies() {
    let draws = vec![
        EnemyDraw { roll: 3, tier: 2, tile_x: 1, tile_z: 18 },
        EnemyDraw { roll: 4, tier: 3, tile_x: 9, tile_z: 2 },
        EnemyDraw { roll: 9, tier: 2, tile_x: 5, tile_z: 5 },
    ];
    let plan = plan_enemies(ZoneId::Desert, &draws);
    assert_eq!(plan.len(), 3);
    assert_eq!(plan[0].variant, EnemyVariant::Ranged);
    assert_eq!((plan[0].tier, plan[0].xp_reward, plan[0].tile_x, plan[0].tile_z), (2, 15, 1, 18));
    assert_eq!(plan[0].color_index, 1);
    assert_eq!(plan[1].variant, EnemyVariant::Charger);
    assert_eq!((plan[1].xp_reward, plan[1].color_index), (20, 2));
    assert_eq!(plan[2].variant, EnemyVariant::Charger);
    assert!(plan_enemies(ZoneId::Forest, &Vec::new()).is_empty());
}

#[test]
fn desert_plans_include_both_variants() {
    let mut seen = std::collections::HashSet::new();
    for _ in 0..100 {
        for s in spawn_zone_enemies(ZoneId::Desert) {
            seen.insert(s.variant);
        }
    }
    assert!(seen.contains(&EnemyVariant::Ranged));
    assert!(seen.contains(&EnemyVariant::Charger));
}

#[test]
fn cleared_zones_and_timers_stay_in_step() {
    let mut cleared = ZoneCleared::default();
    let mut timers = WorldEnemyRespawnTimer::default();
    check_zone_cleared(&vec![(3, 3)], &mut cleared, &mut timers);
    let zones: Vec<ZoneId> = timers.timers.iter().map(|t| t.0).collect();
    assert_eq!(cleared.cleared, zones);
    let left: Vec<u32> = timers.timers.iter().map(|t| (f32::from_bits(t.1) - 31.0).to_bits()).collect();
    let expired: Vec<bool> = left.iter().map(|b| f32::from_bits(*b) <= 0.0).collect();
    let ended = apply_respawn_tick(&mut timers, &mut cleared, &left, &expired);
    assert_eq!(ended, zones);
    let zones: Vec<ZoneId> = timers.timers.iter().map(|t| t.0).collect();
    assert_eq!(cleared.cleared, zones);
    assert!(cleared.cleared.is_empty());
}

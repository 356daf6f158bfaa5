//! Model slots and bindings, the pipeline configuration, the loading queue
//! and the animation state machine.

use voidforged::animation::{clip_index, AnimState, AnimationStateMachine, DEFAULT_ATTACK_DURATION_BITS};
use voidforged::models::{
    auto_bind_item_models, model_key, register_default_bindings, scene_for_slot, scene_path,
    CharacterModel,
    EnemyModel, ModelBindingRegistry, ModelCategory, ModelSlot, ModelSlotRegistry, UNIT_SCALE_BITS,
};
use voidforged::pipeline::{
    all_models_loaded, generate_template_config, initiate_model_loading, poll_model_loading,
    AssetPipelineConfig, LoadStatus, ModelLoadQueue,
};
use voidforged::strmap::StringMap;

// ── Slots and keys ──────────────────────────────────────────────────────────

#[test]
fn slot_keys_and_categories() {
    assert_eq!(model_key("weapon", "Sword"), "weapon/Sword");
    assert_eq!(ModelCategory::Environment.as_str(), "env");
    assert_eq!(ModelCategory::Projectile.as_str(), "projectile");
    let s = ModelSlot::from_character(CharacterModel::Hunter);
    assert_eq!(s.category, ModelCategory::Character);
    assert_eq!(s.name, "Hunter");
    assert_eq!(s.scale_bits, UNIT_SCALE_BITS);
    assert_eq!(f32::from_bits(UNIT_SCALE_BITS), 1.0);
    assert!(!s.spawned);
    let e = ModelSlot::from_enemy(EnemyModel::Boss).with_scale(2.0f32.to_bits());
    assert_eq!(e.category, ModelCategory::Enemy);
    assert_eq!(e.name, "Boss");
    assert_eq!(f32::from_bits(e.scale_bits), 2.0);
}

#[test]
fn scene_paths_name_the_first_scene() {
    assert_eq!(scene_path("models/a.glb"), "models/a.glb#Scene0");
    assert_eq!(scene_path("models/a.glb#Scene2"), "models/a.glb#Scene2");
}

#[test]
fn registry_lookups() {
    let mut reg: ModelSlotRegistry<u32> = ModelSlotRegistry::new();
    assert_eq!(reg.count(), 0);
    reg.scenes.insert("enemy/Grunt".to_string(), 7);
    assert_eq!(reg.get("enemy", "Grunt"), Some(&7));
    assert!(reg.has("enemy", "Grunt"));
    assert!(!reg.has("enemy", "Boss"));
    assert!(reg.has_category("enemy"));
    assert!(!reg.has_category("weapon"));
    assert_eq!(reg.count(), 1);
}

#[test]
fn default_bindings_cover_weapons_and_pickups() {
    let mut b = ModelBindingRegistry::new();
    register_default_bindings(&mut b);
    assert_eq!(b.weapon_bindings.len(), 7);
    assert_eq!(b.pickup_bindings.len(), 3);
    let missile = b.weapon_slot("MagicMissile").unwrap();
    assert_eq!(missile.category, ModelCategory::Projectile);
    assert_eq!(b.weapon_slot("Bow").unwrap().name, "Bow");
    assert_eq!(b.pickup_slot("TemporaryBoost").unwrap().category, ModelCategory::Pickup);
    assert!(b.weapon_slot("Axe").is_none());
    // Binding again replaces.
    b.bind_weapon("Bow", ModelSlot::new(ModelCategory::Weapon, "Longbow"));
    assert_eq!(b.weapon_slot("Bow").unwrap().name, "Longbow");
    assert_eq!(b.weapon_bindings.len(), 7);
}

#[test]
fn default_bindings_keep_other_bindings() {
    let mut b = ModelBindingRegistry::new();
    b.bind_weapon("Axe", ModelSlot::new(ModelCategory::Weapon, "Axe"));
    b.bind_pickup("Key", ModelSlot::new(ModelCategory::Pickup, "Key"));
    b.item_overrides.insert("relic".to_string(), ModelSlot::new(ModelCategory::Pickup, "Relic"));
    register_default_bindings(&mut b);
    assert_eq!(b.weapon_slot("Axe").unwrap().name, "Axe");
    assert_eq!(b.pickup_slot("Key").unwrap().name, "Key");
    assert_eq!(b.item_overrides.get("relic").unwrap().name, "Relic");
    assert_eq!(b.weapon_bindings.len(), 8);
    assert_eq!(b.pickup_bindings.len(), 4);
}

#[test]
fn items_get_placeholder_slots_until_models_load() {
    let mut reg: ModelSlotRegistry<u8> = ModelSlotRegistry::new();
    let (w, p) = auto_bind_item_models(&reg);
    assert_eq!(w.unwrap().name, "Sword");
    assert_eq!(p.unwrap().name, "Health");
    reg.scenes.insert("weapon/Sword".to_string(), 1);
    let (w, p) = auto_bind_item_models(&reg);
    assert!(w.is_none());
    assert!(p.is_some());
}

// ── String map ──────────────────────────────────────────────────────────────

#[test]
fn string_map_insert_get_remove() {
    let mut m: StringMap<i32> = StringMap::new();
    m.insert("a".to_string(), 1);
    m.insert("b".to_string(), 2);
    m.insert("a".to_string(), 3);
    assert_eq!(m.len(), 2);
    assert_eq!(m.get("a"), Some(&3));
    assert_eq!(m.remove("a"), Some(3));
    assert_eq!(m.remove("a"), None);
    assert!(!m.contains_key("a"));
    assert!(m.contains_key("b"));
    assert_eq!(m.len(), 1);
}

// ── Configuration and loading ───────────────────────────────────────────────

#[test]
fn default_config_is_empty_and_enabled() {
    let c = AssetPipelineConfig::default();
    assert!(c.enabled);
    assert!(c.fallback_model.is_none());
    assert_eq!(c.characters.len() + c.enemies.len() + c.weapons.len(), 0);
    assert!(initiate_model_loading(Some(&c)).is_empty());
}

#[test]
fn template_config_lists_every_model() {
    let c = generate_template_config();
    assert_eq!(c.characters.len(), 5);
    assert_eq!(c.enemies.get("Charger").map(|s| s.as_str()), Some("models/enemies/charger.glb"));
    assert_eq!(c.weapons.len(), 7);
    assert_eq!(c.pickups.get("Gold").map(|s| s.as_str()), Some("models/pickups/gold.glb"));
    assert_eq!(c.environment.len(), 0);
    assert_eq!(c.animations.hit.get("default").map(|s| s.as_str()), Some("models/shared/hit.glb#Animation0"));
    assert_eq!(c.fallback_model.as_deref(), Some("models/fallback.glb"));
    assert!(c.enabled);
}

#[test]
fn loading_starts_for_every_configured_model() {
    let c = generate_template_config();
    let list = initiate_model_loading(Some(&c));
    assert_eq!(list.len(), 5 + 5 + 7 + 3);
    assert_eq!(list[0], ("character/Warrior".to_string(), "models/warrior.glb#Scene0".to_string()));
    assert!(list.contains(&("pickup/Gold".to_string(), "models/pickups/gold.glb#Scene0".to_string())));
    let keys: std::collections::HashSet<&String> = list.iter().map(|(k, _)| k).collect();
    assert_eq!(keys.len(), list.len());
    assert!(initiate_model_loading(None).is_empty());
    let mut off = generate_template_config();
    off.enabled = false;
    assert!(initiate_model_loading(Some(&off)).is_empty());
}

#[test]
fn polling_moves_loaded_models_into_the_registry() {
    let mut q: ModelLoadQueue<u32> = ModelLoadQueue::default();
    let mut reg: ModelSlotRegistry<u32> = ModelSlotRegistry::new();
    assert!(all_models_loaded(&q));
    q.queue_model("enemy/Grunt".to_string(), 1);
    q.queue_model("enemy/Boss".to_string(), 2);
    q.queue_model("weapon/Bow".to_string(), 3);
    assert!(!all_models_loaded(&q));

    // Grunt loaded, Boss failed, Bow still loading.
    poll_model_loading(
        &mut q,
        &mut reg,
        vec![LoadStatus::Loaded, LoadStatus::Failed("file not found".to_string()), LoadStatus::Loading],
    );
    assert_eq!(q.pending.len(), 1);
    assert_eq!(q.pending.get("weapon/Bow"), Some(&3));
    assert_eq!(q.ready.get("enemy/Grunt"), Some(&1));
    assert_eq!(q.failed.get("enemy/Boss").map(|m| m.as_str()), Some("file not found"));
    assert_eq!(reg.count(), 0);

    poll_model_loading(&mut q, &mut reg, vec![LoadStatus::Loaded]);
    assert!(all_models_loaded(&q));
    assert_eq!(q.ready.len(), 0);
    assert_eq!(reg.count(), 2);
    assert_eq!(reg.get("enemy", "Grunt"), Some(&1));
    assert_eq!(reg.get("weapon", "Bow"), Some(&3));
    assert!(!reg.has("enemy", "Boss"));
    assert_eq!(q.failed.len(), 1);

    // Nothing pending: a poll changes nothing.
    poll_model_loading(&mut q, &mut reg, vec![]);
    assert_eq!(reg.count(), 2);
}

// ── Animation ───────────────────────────────────────────────────────────────

#[test]
fn animation_keys_and_defaults() {
    assert_eq!(AnimState::Running.as_str(), "run");
    assert_eq!(AnimState::Hit.as_str(), "hit");
    let m = AnimationStateMachine::default();
    assert_eq!(m.current, AnimState::Idle);
    assert_eq!(f32::from_bits(DEFAULT_ATTACK_DURATION_BITS), 0.4);
    let m2 = AnimationStateMachine::with_attack_duration(0.8f32.to_bits());
    assert_eq!(f32::from_bits(m2.attack_duration_bits), 0.8);
}

#[test]
fn transitions_remember_the_previous_state() {
    let mut m = AnimationStateMachine::default();
    m.state_time_bits = 1.5f32.to_bits();
    m.transition(AnimState::Idle);
    assert_eq!(m.state_time_bits, 1.5f32.to_bits());
    m.transition(AnimState::Running);
    assert_eq!((m.current, m.previous, m.state_time_bits), (AnimState::Running, AnimState::Idle, 0));
}

#[test]
fn stepping_follows_movement_attacks_and_stuns() {
    let mut m = AnimationStateMachine::default();
    m.step(false, false, Some(true));
    assert_eq!(m.current, AnimState::Running);
    m.step(false, false, Some(false));
    assert_eq!(m.current, AnimState::Idle);
    m.is_attacking = true;
    m.step(false, false, Some(true));
    assert_eq!(m.current, AnimState::Attacking);
    m.step(false, true, Some(true));
    assert_eq!(m.current, AnimState::Running);
    assert!(!m.is_attacking);
    m.step(true, false, None);
    assert_eq!(m.current, AnimState::Hit);
    m.paused = true;
    m.step(false, false, Some(false));
    assert_eq!(m.current, AnimState::Hit);
}

#[test]
fn clips_fall_back_to_the_last_one() {
    assert_eq!(clip_index(AnimState::Hit, 4), 3);
    assert_eq!(clip_index(AnimState::Hit, 2), 1);
    assert_eq!(clip_index(AnimState::Idle, 1), 0);
    assert_eq!(clip_index(AnimState::Attacking, 5), 2);
}

#[test]
fn slots_spawn_their_loaded_scene_once() {
    let mut reg: ModelSlotRegistry<u32> = ModelSlotRegistry::new();
    reg.scenes.insert("character/Mage".to_string(), 11);
    let mut slot = ModelSlot::from_character(CharacterModel::Mage);
    assert_eq!(scene_for_slot(&reg, &slot), Some(&11));
    slot.spawned = true;
    assert_eq!(scene_for_slot(&reg, &slot), None);
    let other = ModelSlot::from_character(CharacterModel::Rogue);
    assert_eq!(scene_for_slot(&reg, &other), None);
}

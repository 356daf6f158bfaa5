//! Save data construction and defaults, when saves happen, and profiles.

use voidforged::meta::{MetaProgression, UpgradeTier};
use voidforged::profiles::{CharacterClass, PlayerProfile, PlayerProfiles};
use voidforged::save::{
    apply_loaded_save, autoload_due, autosave_due, build_save_data, mark_pending, PendingSave,
    PlayerSaveData, SaveData, SaveState,
};
use voidforged::state::AppState;

#[test]
fn test_player_save_data_default() {
    let data = PlayerSaveData::default();
    assert_eq!(data.level, 1);
    assert_eq!(data.xp, 0);
    assert_eq!(data.gold, 0);
    assert!(data.completed_dungeons.is_empty());
}

#[test]
fn test_player_save_data_custom() {
    let data = PlayerSaveData {
        level: 10,
        xp: 5000,
        gold: 2500,
        completed_dungeons: vec!["d1".into(), "d2".into()],
    };
    assert_eq!(data.level, 10);
    assert_eq!(data.xp, 5000);
    assert_eq!(data.completed_dungeons.len(), 2);
}

#[test]
fn test_save_data_default() {
    let data = SaveData::default();
    assert_eq!(data.version, 2);
    assert!(data.profiles.is_empty());
    assert_eq!(data.next_profile_id, 1);
}

#[test]
fn test_save_data_clone() {
    let data = SaveData::default();
    let cloned = data.clone();
    assert_eq!(cloned.version, data.version);
    assert_eq!(cloned.next_profile_id, data.next_profile_id);
}

#[test]
fn test_save_state_default() {
    let state = SaveState::default();
    assert!(state.data.is_none());
}

#[test]
fn test_pending_save_default() {
    let pending = PendingSave::default();
    assert!(!pending.0);
}

#[test]
fn test_player_profile_construction() {
    let profile = PlayerProfile {
        id: 1,
        name: "TestHero".to_string(),
        class: CharacterClass::Mage,
        level: 3,
        xp: 200,
        play_time_bits: 900.0f32.to_bits(),
        gold: 200,
        completed_dungeons: vec![],
    };
    assert_eq!(profile.class, CharacterClass::Mage);
    assert_eq!(profile.level, 3);
}

#[test]
fn test_player_profiles_default() {
    let profiles = PlayerProfiles::default();
    assert!(profiles.profiles.is_empty());
    assert_eq!(profiles.next_id, 0);
}

fn hero() -> PlayerProfile {
    PlayerProfile {
        id: 1,
        name: "Hero".to_string(),
        class: CharacterClass::Warrior,
        level: 5,
        xp: 500,
        play_time_bits: 3600.0f32.to_bits(),
        gold: 1000,
        completed_dungeons: vec!["dungeon_1".to_string()],
    }
}

fn veteran_meta() -> MetaProgression {
    MetaProgression {
        dark_essence: 200,
        gold: 500,
        total_runs: 10,
        completed_runs: 3,
        highest_wave: 15,
        unlocks: vec!["dagger".to_string()],
        upgrades: vec![UpgradeTier { id: "max_hp_up".to_string(), tier: 2, cost: 200 }],
    }
}

#[test]
fn built_save_holds_profiles_and_meta() {
    let profiles = PlayerProfiles { profiles: vec![hero()], next_id: 2 };
    let data = build_save_data(&profiles, &veteran_meta());
    assert_eq!(data.version, 2);
    assert_eq!(data.profiles.len(), 1);
    assert_eq!(data.profiles[0].name, "Hero");
    assert_eq!(data.meta.dark_essence, 200);
    assert_eq!(data.meta.upgrades[0].tier, 2);
    assert_eq!(data.next_profile_id, 2);
}

#[test]
fn loaded_save_restores_profiles_and_meta() {
    let profiles = PlayerProfiles { profiles: vec![hero()], next_id: 2 };
    let data = build_save_data(&profiles, &veteran_meta());
    let mut restored = PlayerProfiles::default();
    let mut meta = MetaProgression::default();
    let mut state = SaveState::default();
    let count = apply_loaded_save(&mut state, &mut restored, &mut meta, Some(data));
    assert_eq!(count, 1);
    assert_eq!(restored.next_id, 2);
    assert_eq!(restored.profiles.len(), 1);
    assert_eq!(restored.profiles[0].name, "Hero");
    assert_eq!(meta.highest_wave, 15);
    assert!(state.data.is_some());
}

#[test]
fn nothing_loaded_installs_a_fresh_save() {
    let mut restored = PlayerProfiles { profiles: vec![hero()], next_id: 7 };
    let mut meta = veteran_meta();
    let mut state = SaveState::default();
    let count = apply_loaded_save(&mut state, &mut restored, &mut meta, None);
    assert_eq!(count, 0);
    assert!(restored.profiles.is_empty());
    assert_eq!(restored.next_id, 1);
    assert_eq!(meta.dark_essence, 0);
    assert_eq!(state.data.as_ref().map(|d| d.version), Some(2));
}

#[test]
fn autosave_happens_once_per_request_outside_combat() {
    let mut pending = PendingSave::default();
    assert!(!autosave_due(AppState::MainMenu, &mut pending));
    mark_pending(&mut pending);
    assert!(!autosave_due(AppState::Dungeon, &mut pending));
    assert!(pending.0);
    assert!(autosave_due(AppState::MainMenu, &mut pending));
    assert!(!pending.0);
    assert!(!autosave_due(AppState::MainMenu, &mut pending));
}

#[test]
fn autoload_only_on_main_menu_without_data() {
    let empty = SaveState::default();
    assert!(autoload_due(AppState::MainMenu, &empty));
    assert!(!autoload_due(AppState::World, &empty));
    let loaded = SaveState { data: Some(SaveData::default()) };
    assert!(!autoload_due(AppState::MainMenu, &loaded));
}

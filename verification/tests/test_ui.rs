//! UI textures, the character screens, HUD lookups and game states.

use voidforged::hud::{
    ability_display_name, ability_icon_id, category_name, class_stats_preview, detect_debuffs,
    level_up_text, profile_row_text, update_gold_text, update_level_text, update_prompt_text,
    update_zone_text, wave_cleared_text, wave_enemies_text, wave_title_text, AbilityKind, ClassAbilityId, ItemCategory,
};
use voidforged::map::CurrentZone;
use voidforged::zone::{DungeonEntrance, ZoneId};
use voidforged::profiles::{
    confirm_character, delete_character, handle_name_input, name_display, play_existing_character,
    CharacterClass, CharacterCreationState, PlayerProfiles,
};
use voidforged::state::{can_gain_xp, close_upgrade_tree, AppState};
use voidforged::texture::{
    inside_rounded_rect, make_border_texture, make_cooldown_overlay, make_panel_dark,
    make_panel_input, make_rounded_rect, make_slot_background, set_pixel,
};

fn pixel(data: &[u8], width: u32, x: u32, y: u32) -> [u8; 4] {
    let i = ((y * width + x) * 4) as usize;
    [data[i], data[i + 1], data[i + 2], data[i + 3]]
}

// ── Textures ────────────────────────────────────────────────────────────────

#[test]
fn set_pixel_writes_inside_and_ignores_outside() {
    let mut data = vec![0u8; 16];
    set_pixel(&mut data, 1, 1, 2, [1, 2, 3, 4]);
    assert_eq!(&data[12..16], &[1, 2, 3, 4]);
    assert!(data[..12].iter().all(|b| *b == 0));
    let before = data.clone();
    set_pixel(&mut data, 0, 2, 2, [9, 9, 9, 9]);
    assert_eq!(data, before);
}

#[test]
fn rounded_rect_membership() {
    assert!(inside_rounded_rect(0, 0, 10, 10, 0));
    assert!(!inside_rounded_rect(10, 0, 10, 10, 0));
    assert!(!inside_rounded_rect(0, 0, 10, 10, 3));
    assert!(inside_rounded_rect(1, 1, 10, 10, 3));
    assert!(inside_rounded_rect(5, 0, 10, 10, 3));
    assert!(inside_rounded_rect(9, 9, 10, 10, 3));
    assert!(!inside_rounded_rect(0, 1, 10, 10, 3));
    // The radius is clamped to half the smaller side.
    assert!(inside_rounded_rect(0, 2, 10, 4, 100) == inside_rounded_rect(0, 2, 10, 4, 2));
}

#[test]
fn border_texture_frames_a_clear_center() {
    let c = [80, 80, 90, 255];
    let t = make_border_texture(8, 2, c);
    assert_eq!((t.width, t.height, t.data.len()), (8, 8, 256));
    assert_eq!(pixel(&t.data, 8, 0, 0), c);
    assert_eq!(pixel(&t.data, 8, 1, 5), c);
    assert_eq!(pixel(&t.data, 8, 6, 3), c);
    assert_eq!(pixel(&t.data, 8, 4, 7), c);
    assert_eq!(pixel(&t.data, 8, 2, 2), [0, 0, 0, 0]);
    assert_eq!(pixel(&t.data, 8, 5, 5), [0, 0, 0, 0]);
}

#[test]
fn thick_border_fills_everything() {
    let t = make_border_texture(4, 9, [1, 1, 1, 1]);
    assert!(t.data.chunks(4).all(|p| p == [1, 1, 1, 1]));
}

#[test]
fn dark_panel_has_fill_stroke_and_clear_corners() {
    let t = make_panel_dark();
    assert_eq!((t.width, t.height), (256, 256));
    assert_eq!(pixel(&t.data, 256, 0, 0), [0, 0, 0, 0]);
    assert_eq!(pixel(&t.data, 256, 128, 128), [20, 20, 30, 242]);
    assert_eq!(pixel(&t.data, 256, 128, 0), [50, 50, 60, 255]);
    assert_eq!(pixel(&t.data, 256, 1, 128), [50, 50, 60, 255]);
    assert_eq!(pixel(&t.data, 256, 2, 128), [20, 20, 30, 242]);
    assert_eq!(pixel(&t.data, 256, 255, 255), [0, 0, 0, 0]);
}

#[test]
fn borderless_rect_is_all_fill_inside() {
    let t = make_rounded_rect(6, 4, 0, 0, [7, 7, 7, 7], [9, 9, 9, 9]);
    assert!(t.data.chunks(4).all(|p| p == [7, 7, 7, 7]));
}

#[test]
fn small_textures_have_their_sizes() {
    let input = make_panel_input();
    assert_eq!((input.width, input.height, input.data.len()), (256, 32, 256 * 32 * 4));
    assert_eq!(pixel(&input.data, 256, 128, 16), [15, 15, 20, 242]);
    let slot = make_slot_background();
    assert_eq!((slot.width, slot.height), (72, 66));
    assert_eq!(pixel(&slot.data, 72, 36, 0), [45, 45, 55, 255]);
    let overlay = make_cooldown_overlay();
    assert_eq!(overlay.data.len(), 72 * 66 * 4);
    assert!(overlay.data.chunks(4).all(|p| p == [0, 0, 0, 140]));
}

// ── Character creation ──────────────────────────────────────────────────────

#[test]
fn typing_letters_space_and_backspace() {
    let mut state = CharacterCreationState::default();
    // H, I with shift
    assert!(handle_name_input(&mut state, &vec![7, 8], true, false, false));
    assert_eq!(state.player_name, "HI");
    assert!(handle_name_input(&mut state, &vec![0], false, true, false));
    assert_eq!(state.player_name, "HIa ");
    assert!(handle_name_input(&mut state, &vec![], false, false, true));
    assert_eq!(state.player_name, "HIa");
    assert!(!handle_name_input(&mut state, &vec![], false, false, false));
    assert_eq!(state.player_name, "HIa");
}

#[test]
fn digits_can_be_typed() {
    let mut state = CharacterCreationState::default();
    // R, 2, D, 2 with shift: digits are not affected by shift.
    assert!(handle_name_input(&mut state, &vec![17, 28, 3, 28], true, false, false));
    assert_eq!(state.player_name, "R2D2");
    assert!(handle_name_input(&mut state, &vec![26, 35], false, false, false));
    assert_eq!(state.player_name, "R2D209");
}

#[test]
fn names_stop_growing_at_twenty_bytes() {
    let mut state = CharacterCreationState::default();
    let keys: Vec<u8> = (0..25).map(|i| (i % 26) as u8).collect();
    assert!(handle_name_input(&mut state, &keys, false, false, false));
    assert_eq!(state.player_name.len(), 20);
    assert!(!handle_name_input(&mut state, &vec![3], false, true, false));
    assert_eq!(state.player_name, "abcdefghijklmnopqrst");
    // Backspace on an empty name still asks for a redraw.
    let mut empty = CharacterCreationState::default();
    assert!(handle_name_input(&mut empty, &vec![], false, false, true));
    assert_eq!(empty.player_name, "");
}

#[test]
fn empty_name_shows_a_prompt() {
    assert_eq!(name_display(&String::new()), "Enter name...");
    assert_eq!(name_display(&"Ayla".to_string()), "Ayla");
}

#[test]
fn confirming_creates_characters_with_fresh_ids() {
    let mut profiles = PlayerProfiles::default();
    let mut state = CharacterCreationState::default();
    assert_eq!(confirm_character(&state, &mut profiles), None);
    assert!(profiles.profiles.is_empty());

    state.selected_class = Some(CharacterClass::Rogue);
    assert_eq!(confirm_character(&state, &mut profiles), Some(0));
    assert_eq!(profiles.profiles[0].name, "Rogue");
    assert_eq!(profiles.profiles[0].level, 1);

    state.player_name = "Vex".to_string();
    assert_eq!(confirm_character(&state, &mut profiles), Some(1));
    assert_eq!(profiles.profiles[1].name, "Vex");
    assert_eq!(profiles.next_id, 2);
}

#[test]
fn picking_and_deleting_characters() {
    let mut profiles = PlayerProfiles::default();
    let mut state = CharacterCreationState::default();
    state.selected_class = Some(CharacterClass::Mage);
    confirm_character(&state, &mut profiles);
    state.selected_class = Some(CharacterClass::Hunter);
    state.player_name = "Tala".to_string();
    confirm_character(&state, &mut profiles);

    let mut pick = CharacterCreationState::default();
    assert!(play_existing_character(&profiles, &mut pick, 1));
    assert_eq!(pick.selected_class, Some(CharacterClass::Hunter));
    assert_eq!(pick.player_name, "Tala");
    assert_eq!(pick.editing_existing, Some(1));
    assert!(!play_existing_character(&profiles, &mut pick, 7));
    assert_eq!(pick.editing_existing, Some(1));

    delete_character(&mut profiles, 0);
    assert_eq!(profiles.profiles.len(), 1);
    assert_eq!(profiles.profiles[0].id, 1);
    assert_eq!(profiles.next_id, 2);
    delete_character(&mut profiles, 42);
    assert_eq!(profiles.profiles.len(), 1);
}

#[test]
fn classes_in_selection_order() {
    let all = CharacterClass::all();
    assert_eq!(all.len(), 5);
    assert_eq!(all[0], CharacterClass::Warrior);
    assert_eq!(all[4].display_name(), "Mage");
}

// ── HUD lookups ─────────────────────────────────────────────────────────────

#[test]
fn ability_icons() {
    assert_eq!(ability_icon_id(ClassAbilityId::MeleeCleave), Some("icon_cleave"));
    assert_eq!(ability_icon_id(ClassAbilityId::HolyLight), Some("icon_heal_strike"));
    assert_eq!(ability_icon_id(ClassAbilityId::Blink), Some("icon_blink"));
    assert_eq!(ability_icon_id(ClassAbilityId::Meteor), None);
    assert_eq!(ability_icon_id(ClassAbilityId::NoAbility), None);
}

#[test]
fn buff_and_category_names() {
    assert_eq!(ability_display_name(&AbilityKind::DamageAura), "Dmg Aura");
    assert_eq!(ability_display_name(&AbilityKind::PierceShot), "Pierce");
    assert_eq!(category_name(ItemCategory::Accessory), "Accessory");
    assert_eq!(category_name(ItemCategory::Quest), "Quest");
}

#[test]
fn class_previews() {
    let p = class_stats_preview(CharacterClass::Paladin);
    assert_eq!((p.hp, p.armor, p.weapon), (140, 12, "Sword"));
    assert_eq!(f32::from_bits(p.speed_bits), 4.8);
    let r = class_stats_preview(CharacterClass::Rogue);
    assert_eq!(r.weapon, "Daggers");
    assert_eq!(f32::from_bits(r.speed_bits), 6.5);
}

// ── States ──────────────────────────────────────────────────────────────────

#[test]
fn experience_only_while_fighting() {
    assert!(can_gain_xp(AppState::Dungeon));
    assert!(can_gain_xp(AppState::Playing));
    assert!(!can_gain_xp(AppState::World));
    assert!(!can_gain_xp(AppState::MainMenu));
}

#[test]
fn closing_the_upgrade_tree() {
    assert_eq!(close_upgrade_tree(AppState::MainMenu), None);
    assert_eq!(close_upgrade_tree(AppState::GameOver), None);
    assert_eq!(close_upgrade_tree(AppState::Paused), Some(AppState::MainMenu));
}

#[test]
fn hud_texts() {
    let mut text = String::from("old");
    update_level_text(&mut text, 7);
    assert_eq!(text, "Lv. 7");
    update_level_text(&mut text, 0);
    assert_eq!(text, "Lv. 0");
    update_gold_text(&mut text, 1205);
    assert_eq!(text, "Gold: 1205");
    update_zone_text(&mut text, &CurrentZone(Some(ZoneId::Swamp)), Some("Crypt"));
    assert_eq!(text, "Swamp");
    update_zone_text(&mut text, &CurrentZone(None), Some("Crypt"));
    assert_eq!(text, "Dungeon: Crypt");
    update_zone_text(&mut text, &CurrentZone(None), None);
    assert_eq!(text, "");
}

#[test]
fn entrance_prompt_names_the_first_near_entrance() {
    let entrances = vec![
        DungeonEntrance { name: "Crystal Depths".to_string(), dungeon_tier: 4, depth: 10 },
        DungeonEntrance { name: "Sunken Catacombs".to_string(), dungeon_tier: 3, depth: 8 },
    ];
    let mut text = String::new();
    update_prompt_text(&mut text, &entrances, &vec![false, true]);
    assert_eq!(text, "[F] Enter: Sunken Catacombs");
    update_prompt_text(&mut text, &entrances, &vec![true, true]);
    assert_eq!(text, "[F] Enter: Crystal Depths");
    update_prompt_text(&mut text, &entrances, &vec![false, false]);
    assert_eq!(text, "");
}

#[test]
fn debuffs_and_profile_rows() {
    assert_eq!(detect_debuffs(true, true, false), vec!["Frozen", "Stun"]);
    assert_eq!(detect_debuffs(false, true, true), vec!["Stun", "Poison"]);
    assert_eq!(detect_debuffs(false, false, true), vec!["Poison"]);
    assert!(detect_debuffs(false, false, false).is_empty());
    let mut profiles = PlayerProfiles::default();
    let mut state = CharacterCreationState::default();
    state.selected_class = Some(CharacterClass::Paladin);
    confirm_character(&state, &mut profiles);
    assert_eq!(profile_row_text(&profiles.profiles[0]), "Paladin Lv.1");
}

#[test]
fn announcement_texts() {
    assert_eq!(wave_title_text(3), "WAVE 3");
    assert_eq!(wave_enemies_text(12), "12 enemies");
    assert_eq!(wave_cleared_text(10), "Wave 10 CLEARED!");
    assert_eq!(level_up_text(42), "LEVEL UP! (Lv. 42)");
}

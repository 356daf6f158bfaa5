//! Upgrade purchasing, accumulated bonuses, experience and dungeon rewards.

use std::collections::HashSet;

use voidforged::leveling::{gain_xp, grant_dark_essence_on_dungeon_end, handle_xp_gain, LevelUp, Player, RunProgression};
use voidforged::meta::MetaProgression;
use voidforged::upgrade_tree::{upgrade_card, upgrade_tree_sections, upgrade_tree_title, CardState};
use voidforged::upgrades::{
    accumulated_upgrade_stats, all_upgrade_defs, purchase_upgrade, handle_upgrade_card_clicks,
    AccumulatedStat, PurchaseError, StatType, UpgradeCategory, UpgradeDef,
};

/// The game's price of a tier: base cost times the multiplier raised to
/// the current tier, in single precision; a maxed upgrade costs `u64::MAX`.
/// The game computes prices and the experience curve in floating point,
/// outside the library; these tests hand the library the same formulas.
fn upgrade_cost(def: &UpgradeDef, current_tier: u32) -> u64 {
    if current_tier >= def.max_tier {
        return u64::MAX;
    }
    (def.base_cost as f32 * f32::from_bits(def.cost_multiplier_bits).powi(current_tier as i32)) as u64
}

/// The game's experience requirement of a level.
fn xp_to_next(level: u32) -> u64 {
    (100.0 * 1.3_f64.powi(level as i32)) as u64
}

fn buy(id: &str, meta: &mut MetaProgression) -> Result<(), PurchaseError> {
    purchase_upgrade(id, meta, |d: &UpgradeDef, t: u32| upgrade_cost(d, t))
}

/// The accumulated amount of a stat: its amounts summed left to right.
fn total(s: &AccumulatedStat) -> f32 {
    let mut sum = f32::from_bits(s.terms_bits[0]);
    for bits in &s.terms_bits[1..] {
        sum += f32::from_bits(*bits);
    }
    sum
}

// ── Upgrade definitions ─────────────────────────────────────────────────────

#[test]
fn test_upgrade_def_ids_unique() {
    let defs = all_upgrade_defs();
    let mut ids = HashSet::new();
    for def in &defs {
        assert!(ids.insert(def.id), "duplicate upgrade id: {}", def.id);
    }
    assert_eq!(ids.len(), defs.len());
}

#[test]
fn test_all_upgrade_defs_not_empty() {
    let defs = all_upgrade_defs();
    assert!(!defs.is_empty());
    assert!(defs.len() >= 10);
}

#[test]
fn test_upgrade_category_variants() {
    let cat = UpgradeCategory::Stats;
    assert_eq!(format!("{:?}", cat), "Stats");
    assert_eq!(format!("{:?}", UpgradeCategory::Weapons), "Weapons");
    assert_eq!(format!("{:?}", UpgradeCategory::Classes), "Classes");
    assert_eq!(format!("{:?}", UpgradeCategory::Utility), "Utility");
}

#[test]
fn catalog_first_entry_is_vitality() {
    let defs = all_upgrade_defs();
    assert_eq!(defs[0].id, "max_hp_up");
    assert_eq!(defs[0].name, "Vitality");
    assert_eq!(defs[0].max_tier, 5);
    assert_eq!(defs[0].base_cost, 100);
    assert_eq!(f32::from_bits(defs[0].cost_multiplier_bits), 2.0);
    assert_eq!(defs[0].per_tier_stats.len(), 1);
    assert_eq!(defs[0].per_tier_stats[0].stat, StatType::MaxHealth);
    assert_eq!(f32::from_bits(defs[0].per_tier_stats[0].value_bits), 20.0);
}

#[test]
fn upgrade_card_name_gives_its_id() {
    assert_eq!(handle_upgrade_card_clicks("Vitality"), Some("max_hp_up"));
    assert_eq!(handle_upgrade_card_clicks("No Such Card"), None);
    assert_eq!(handle_upgrade_card_clicks(""), None);
}

// ── Purchases ───────────────────────────────────────────────────────────────

#[test]
fn test_purchase_upgrade_success() {
    let mut meta = MetaProgression::default();
    meta.dark_essence = 500;
    buy("max_hp_up", &mut meta).unwrap();
    assert_eq!(meta.dark_essence, 400); // cost was 100
    assert_eq!(meta.upgrades.len(), 1);
    assert_eq!(meta.upgrades[0].tier, 1);
}

#[test]
fn test_purchase_upgrade_multiple_tiers() {
    let mut meta = MetaProgression::default();
    meta.dark_essence = 10000;

    buy("max_hp_up", &mut meta).unwrap();
    assert_eq!(meta.upgrades[0].tier, 1);

    buy("max_hp_up", &mut meta).unwrap();
    assert_eq!(meta.upgrades[0].tier, 2);
    assert_eq!(meta.upgrades[0].cost, 200);
}

#[test]
fn test_purchase_upgrade_not_found() {
    let mut meta = MetaProgression::default();
    meta.dark_essence = 1000;
    let result = buy("nonexistent_upgrade", &mut meta);
    assert!(matches!(result, Err(PurchaseError::NotFound)));
}

#[test]
fn test_purchase_upgrade_max_tier() {
    let mut meta = MetaProgression::default();
    meta.dark_essence = 10000;
    buy("unlock_dagger", &mut meta).unwrap(); // max_tier=1
    let result = buy("unlock_dagger", &mut meta);
    assert!(matches!(result, Err(PurchaseError::MaxTier)));
}

#[test]
fn test_purchase_upgrade_insufficient_essence() {
    let mut meta = MetaProgression::default();
    meta.dark_essence = 10; // Not enough
    let result = buy("max_hp_up", &mut meta);
    match result {
        Err(PurchaseError::InsufficientEssence(_)) => {} // expected
        _ => panic!("Expected InsufficientEssence error"),
    }
}

#[test]
fn insufficient_essence_reports_the_shortfall_and_changes_nothing() {
    let mut meta = MetaProgression::default();
    meta.dark_essence = 10;
    let result = buy("max_hp_up", &mut meta);
    assert!(matches!(result, Err(PurchaseError::InsufficientEssence(90))));
    assert_eq!(meta.dark_essence, 10);
    assert!(meta.upgrades.is_empty());
}

#[test]
fn exact_price_leaves_nothing() {
    let mut meta = MetaProgression::default();
    meta.dark_essence = 100;
    buy("max_hp_up", &mut meta).unwrap();
    assert_eq!(meta.dark_essence, 0);
    assert_eq!(meta.upgrades[0].cost, 100);
}

#[test]
fn test_purchase_error_display() {
    assert_eq!(PurchaseError::NotFound.message(), "Upgrade not found");
    assert_eq!(PurchaseError::MaxTier.message(), "Upgrade already at max tier");
}

#[test]
fn insufficient_essence_message_names_the_shortfall() {
    assert_eq!(
        PurchaseError::InsufficientEssence(90).message(),
        "Need 90 more Dark Essence"
    );
}

// ── Accumulated bonuses ─────────────────────────────────────────────────────

#[test]
fn test_accumulated_upgrade_stats_empty() {
    let meta = MetaProgression::default();
    assert!(accumulated_upgrade_stats(&meta).is_empty());
}

#[test]
fn test_accumulated_upgrade_stats_with_purchases() {
    let mut meta = MetaProgression::default();
    meta.dark_essence = 10000;

    // Purchase max_hp_up twice (tier 2)
    buy("max_hp_up", &mut meta).unwrap();
    buy("max_hp_up", &mut meta).unwrap();

    let stats = accumulated_upgrade_stats(&meta);
    assert_eq!(stats.len(), 1);
    assert_eq!(stats[0].stat, StatType::MaxHealth);
    assert!((total(&stats[0]) - 40.0).abs() < f32::EPSILON); // 2 tiers * 20 HP each
}

#[test]
fn test_accumulated_upgrade_stats_multiple_types() {
    let mut meta = MetaProgression::default();
    meta.dark_essence = 10000;

    buy("max_hp_up", &mut meta).unwrap();
    buy("dmg_up", &mut meta).unwrap();

    let stats = accumulated_upgrade_stats(&meta);
    assert_eq!(stats.len(), 2);
}

#[test]
fn accumulated_stats_keep_first_appearance_order_and_every_term() {
    let mut meta = MetaProgression::default();
    meta.dark_essence = 100_000;
    buy("dmg_up", &mut meta).unwrap();
    buy("max_hp_up", &mut meta).unwrap();
    buy("dmg_up", &mut meta).unwrap();
    let stats = accumulated_upgrade_stats(&meta);
    assert_eq!(stats.len(), 2);
    assert_eq!(stats[0].stat, StatType::DamageBonus);
    assert_eq!(stats[0].terms_bits.len(), 2);
    assert_eq!(stats[1].stat, StatType::MaxHealth);
    assert_eq!(stats[1].terms_bits.len(), 1);
    let distinct: HashSet<StatType> = stats.iter().map(|s| s.stat).collect();
    assert_eq!(distinct.len(), stats.len());
}

#[test]
fn unknown_upgrade_records_grant_nothing() {
    let mut meta = MetaProgression::default();
    meta.upgrades.push(voidforged::meta::UpgradeTier { id: "retired".to_string(), tier: 3, cost: 5 });
    assert!(accumulated_upgrade_stats(&meta).is_empty());
}

// ── Experience ──────────────────────────────────────────────────────────────

#[test]
fn test_xp_to_next_formula() {
    let xp_l1 = (100.0 * 1.3_f64.powi(1)) as u64;
    let xp_l10 = (100.0 * 1.3_f64.powi(10)) as u64;
    assert!(xp_l10 > xp_l1);
    assert!(xp_l10 > 1000);
}

#[test]
fn gaining_less_than_needed_only_adds() {
    let mut player = Player { level: 1, experience: 0, xp_to_next: 130 };
    let mut run = RunProgression::default();
    let ups = gain_xp(&mut player, &mut run, 50, xp_to_next);
    assert!(ups.is_empty());
    assert_eq!(player.level, 1);
    assert_eq!(player.experience, 50);
    assert_eq!(run.xp_earned, 50);
}

#[test]
fn gaining_enough_levels_up_repeatedly() {
    let mut player = Player { level: 1, experience: 0, xp_to_next: 130 };
    let mut run = RunProgression::default();
    // 130 for level 2, then 169 for level 3, leaving 1.
    let ups = gain_xp(&mut player, &mut run, 300, xp_to_next);
    assert_eq!(
        ups,
        vec![
            LevelUp { new_level: 2, xp_to_next: 169 },
            LevelUp { new_level: 3, xp_to_next: 219 },
        ]
    );
    assert_eq!(player.level, 3);
    assert_eq!(player.experience, 1);
    assert_eq!(player.xp_to_next, 219);
    assert_eq!(run.xp_earned, 300);
}

#[test]
fn exact_threshold_levels_up_with_nothing_left() {
    let mut player = Player { level: 4, experience: 100, xp_to_next: 285 };
    let mut run = RunProgression::default();
    let ups = gain_xp(&mut player, &mut run, 185, xp_to_next);
    assert_eq!(ups.len(), 1);
    assert_eq!(player.level, 5);
    assert_eq!(player.experience, 0);
}

#[test]
fn several_events_level_as_their_sum() {
    let mut player = Player { level: 1, experience: 0, xp_to_next: 130 };
    let mut run = RunProgression::default();
    let ups = handle_xp_gain(&mut player, &mut run, &vec![50, 250], xp_to_next);
    assert_eq!(
        ups,
        vec![
            LevelUp { new_level: 2, xp_to_next: 169 },
            LevelUp { new_level: 3, xp_to_next: 219 },
        ]
    );
    assert_eq!(player.level, 3);
    assert_eq!(player.experience, 1);
    assert_eq!(player.xp_to_next, 219);
    assert_eq!(run.xp_earned, 300);
}

#[test]
fn each_event_can_level_up() {
    let mut player = Player { level: 1, experience: 0, xp_to_next: 130 };
    let mut run = RunProgression::default();
    let ups = handle_xp_gain(&mut player, &mut run, &vec![130, 169, 5], xp_to_next);
    assert_eq!(
        ups,
        vec![
            LevelUp { new_level: 2, xp_to_next: 169 },
            LevelUp { new_level: 3, xp_to_next: 219 },
        ]
    );
    assert_eq!(player.experience, 5);
    assert_eq!(run.xp_earned, 304);
}

#[test]
fn no_events_change_nothing() {
    let mut player = Player { level: 2, experience: 500, xp_to_next: 169 };
    let mut run = RunProgression::default();
    let ups = handle_xp_gain(&mut player, &mut run, &Vec::new(), xp_to_next);
    assert!(ups.is_empty());
    assert_eq!(player.level, 2);
    assert_eq!(player.experience, 500);
    assert_eq!(run.xp_earned, 0);
}

// ── Dungeon rewards ─────────────────────────────────────────────────────────

#[test]
fn cleared_dungeon_rewards_ten_plus_five_per_wave() {
    let mut meta = MetaProgression::default();
    let mut run = RunProgression::default();
    run.kills = 12;
    let total = grant_dark_essence_on_dungeon_end(&mut meta, &mut run, true, 7);
    assert_eq!(total, 45);
    assert_eq!(meta.dark_essence, 45);
    assert_eq!(meta.total_runs, 1);
    assert_eq!(meta.completed_runs, 1);
    assert_eq!(meta.highest_wave, 7);
    assert_eq!(run.kills, 0);
}

#[test]
fn failed_dungeon_keeps_best_wave() {
    let mut meta = MetaProgression::default();
    meta.highest_wave = 9;
    meta.dark_essence = u64::MAX - 3;
    let mut run = RunProgression::default();
    let total = grant_dark_essence_on_dungeon_end(&mut meta, &mut run, false, 2);
    assert_eq!(total, 10);
    assert_eq!(meta.dark_essence, u64::MAX);
    assert_eq!(meta.total_runs, 1);
    assert_eq!(meta.completed_runs, 0);
    assert_eq!(meta.highest_wave, 9);
}

// ── Upgrade tree screen ─────────────────────────────────────────────────────

#[test]
fn upgrade_tree_sections_follow_category_order() {
    let defs = all_upgrade_defs();
    let sections = upgrade_tree_sections(&defs);
    assert_eq!(sections.len(), 3);
    assert_eq!(sections[0].category, UpgradeCategory::Stats);
    assert_eq!(sections[0].title, "Stats");
    assert_eq!(sections[0].defs, vec![0, 1, 2, 3, 4, 5]);
    assert_eq!(sections[1].title, "Weapon Unlocks");
    assert_eq!(sections[1].defs, vec![6, 7, 8]);
    assert_eq!(sections[2].category, UpgradeCategory::Utility);
    assert_eq!(sections[2].defs, vec![9, 10, 11]);
}

#[test]
fn upgrade_cards_show_tier_cost_and_state() {
    let defs = all_upgrade_defs();
    let vitality = &defs[0];
    let mut meta = MetaProgression::default();
    meta.dark_essence = 500;
    let card = upgrade_card(vitality, &meta, upgrade_cost(vitality, 0));
    assert_eq!(card.state, CardState::Affordable);
    assert_eq!(card.tier_text, "Tier 0/5");
    assert_eq!(card.cost_text.as_deref(), Some("Cost: 100 DE"));

    meta.dark_essence = 50;
    assert_eq!(upgrade_card(vitality, &meta, 100).state, CardState::Unaffordable);

    meta.dark_essence = 10_000;
    buy("unlock_dagger", &mut meta).unwrap();
    let dagger = defs.iter().find(|d| d.id == "unlock_dagger").unwrap();
    let card = upgrade_card(dagger, &meta, upgrade_cost(dagger, 1));
    assert_eq!(card.state, CardState::Maxed);
    assert_eq!(card.tier_text, "MAXED");
    assert!(card.cost_text.is_none());

    assert_eq!(upgrade_tree_title(250), "Meta-Progression \u{2014} Dark Essence: 250");
}

#[test]
fn utility_upgrades_grant_their_bonuses() {
    let mut meta = MetaProgression::default();
    meta.dark_essence = 10_000;
    buy("pickup_radius_up", &mut meta).unwrap();
    let stats = accumulated_upgrade_stats(&meta);
    assert_eq!(stats.len(), 1);
    assert_eq!(stats[0].stat, StatType::PickupRadius);
    assert_eq!(total(&stats[0]), 1.5);

    buy("xp_boost", &mut meta).unwrap();
    buy("gold_boost", &mut meta).unwrap();
    buy("xp_boost", &mut meta).unwrap();
    let stats = accumulated_upgrade_stats(&meta);
    assert_eq!(stats.len(), 3);
    assert_eq!(stats[1].stat, StatType::XpGain);
    assert!((total(&stats[1]) - 0.3).abs() < 1e-6);
    assert_eq!(stats[2].stat, StatType::GoldGain);
    assert!((total(&stats[2]) - 0.2).abs() < 1e-6);
}

//! Lookup tables and texts of the heads-up display: ability icons and
//! names, item category names, the class previews of the character select
//! screen, and the level, gold, zone and entrance-prompt texts.

use vstd::prelude::*;
use crate::map::CurrentZone;
use crate::profiles::CharacterClass;
use crate::search::{first_where, is_first_where, lemma_first_where_is, lemma_first_where_none};
use crate::text::{concat2, decimal_digits, push_decimal};
use crate::zone::{zone_display_name, DungeonEntrance, ZoneId};

verus! {

/// Class abilities; `NoAbility` marks an empty action-bar slot.
#[derive(Clone, Copy, Debug, PartialEq, Eq, Hash, Structural)]
pub enum ClassAbilityId {
    MeleeCleave,
    ShieldBlock,
    Charge,
    CombatRoll,
    RighteousStrike,
    HolyLight,
    Consecration,
    DivineSteed,
    Backstab,
    PoisonBlade,
    Vanish,
    Shadowstep,
    AimedShot,
    MultiShot,
    Trap,
    Disengage,
    Fireball,
    Frostbolt,
    ArcaneBlast,
    Blink,
    WarCry,
    Taunt,
    BlessingOfMight,
    HammerOfJustice,
    DeadlyPoison,
    SmokeBomb,
    HuntersMark,
    CallPet,
    Blizzard,
    Combustion,
    BerserkerRage,
    ShieldWall,
    DivineIntervention,
    AvengingWrath,
    Rupture,
    BladeFlurry,
    RapidFire,
    ExplosiveTrap,
    WaterElemental,
    Meteor,
    NoAbility,
}

/// The icon shown for an ability, if it has one.
pub open spec fn icon_of(a: ClassAbilityId) -> Option<Seq<char>> {
    match a {
        ClassAbilityId::MeleeCleave => Some("icon_cleave"@),
        ClassAbilityId::RighteousStrike => Some("icon_heal_strike"@),
        ClassAbilityId::HolyLight => Some("icon_heal_strike"@),
        ClassAbilityId::Consecration => Some("icon_consecration"@),
        ClassAbilityId::Backstab => Some("icon_backstab"@),
        ClassAbilityId::PoisonBlade => Some("icon_poison"@),
        ClassAbilityId::Trap => Some("icon_trap"@),
        ClassAbilityId::Fireball => Some("icon_fireball"@),
        ClassAbilityId::Blink => Some("icon_blink"@),
        _ => None,
    }
}

/// The icon texture of an ability, if one exists.
pub fn ability_icon_id(ability: ClassAbilityId) -> (r: Option<&'static str>)
    ensures
        match r {
            Some(s) => icon_of(ability) == Some(s@),
            None => icon_of(ability) is None,
        },
{
    match ability {
        ClassAbilityId::MeleeCleave => Some("icon_cleave"),
        ClassAbilityId::ShieldBlock => None,
        ClassAbilityId::Charge => None,
        ClassAbilityId::CombatRoll => None,
        ClassAbilityId::RighteousStrike => Some("icon_heal_strike"),
        ClassAbilityId::HolyLight => Some("icon_heal_strike"),
        ClassAbilityId::Consecration => Some("icon_consecration"),
        ClassAbilityId::DivineSteed => None,
        ClassAbilityId::Backstab => Some("icon_backstab"),
        ClassAbilityId::PoisonBlade => Some("icon_poison"),
        ClassAbilityId::Vanish => None,
        ClassAbilityId::Shadowstep => None,
        ClassAbilityId::AimedShot => None,
        ClassAbilityId::MultiShot => None,
        ClassAbilityId::Trap => Some("icon_trap"),
        ClassAbilityId::Disengage => None,
        ClassAbilityId::Fireball => Some("icon_fireball"),
        ClassAbilityId::Frostbolt => None,
        ClassAbilityId::ArcaneBlast => None,
        ClassAbilityId::Blink => Some("icon_blink"),
        ClassAbilityId::WarCry => None,
        ClassAbilityId::Taunt => None,
        ClassAbilityId::BlessingOfMight => None,
        ClassAbilityId::HammerOfJustice => None,
        ClassAbilityId::DeadlyPoison => None,
        ClassAbilityId::SmokeBomb => None,
        ClassAbilityId::HuntersMark => None,
        ClassAbilityId::CallPet => None,
        ClassAbilityId::Blizzard => None,
        ClassAbilityId::Combustion => None,
        ClassAbilityId::BerserkerRage => None,
        ClassAbilityId::ShieldWall => None,
        ClassAbilityId::DivineIntervention => None,
        ClassAbilityId::AvengingWrath => None,
        ClassAbilityId::Rupture => None,
        ClassAbilityId::BladeFlurry => None,
        ClassAbilityId::RapidFire => None,
        ClassAbilityId::ExplosiveTrap => None,
        ClassAbilityId::WaterElemental => None,
        ClassAbilityId::Meteor => None,
        ClassAbilityId::NoAbility => None,
    }
}

/// Temporary abilities shown in the buff bar.
#[derive(Clone, Copy, Debug, PartialEq, Eq, Hash, Structural)]
pub enum AbilityKind {
    SpeedBoost,
    DamageAura,
    Shield,
    Thorns,
    MultiShot,
    PierceShot,
}

/// Short name of a buff.
pub open spec fn buff_name(k: AbilityKind) -> Seq<char> {
    match k {
        AbilityKind::SpeedBoost => "Speed"@,
        AbilityKind::DamageAura => "Dmg Aura"@,
        AbilityKind::Shield => "Shield"@,
        AbilityKind::Thorns => "Thorns"@,
        AbilityKind::MultiShot => "Multi"@,
        AbilityKind::PierceShot => "Pierce"@,
    }
}

/// Short name of a buff, as the buff bar shows it.
pub fn ability_display_name(kind: &AbilityKind) -> (s: &'static str)
    ensures
        s@ == buff_name(*kind),
{
    match kind {
        AbilityKind::SpeedBoost => "Speed",
        AbilityKind::DamageAura => "Dmg Aura",
        AbilityKind::Shield => "Shield",
        AbilityKind::Thorns => "Thorns",
        AbilityKind::MultiShot => "Multi",
        AbilityKind::PierceShot => "Pierce",
    }
}

/// Item categories.
#[derive(Clone, Copy, Debug, PartialEq, Eq, Hash, Structural)]
pub enum ItemCategory {
    Weapon,
    Armor,
    Accessory,
    Consumable,
    Material,
    Quest,
}

/// Name of an item category.
pub open spec fn item_category_name(c: ItemCategory) -> Seq<char> {
    match c {
        ItemCategory::Weapon => "Weapon"@,
        ItemCategory::Armor => "Armor"@,
        ItemCategory::Accessory => "Accessory"@,
        ItemCategory::Consumable => "Consumable"@,
        ItemCategory::Material => "Material"@,
        ItemCategory::Quest => "Quest"@,
    }
}

/// Name of an item category, as tooltips show it.
pub fn category_name(cat: ItemCategory) -> (s: &'static str)
    ensures
        s@ == item_category_name(cat),
{
    match cat {
        ItemCategory::Weapon => "Weapon",
        ItemCategory::Armor => "Armor",
        ItemCategory::Accessory => "Accessory",
        ItemCategory::Consumable => "Consumable",
        ItemCategory::Material => "Material",
        ItemCategory::Quest => "Quest",
    }
}

/// A class as the character select screen previews it; `speed_bits` is the
/// bit pattern of the single-precision move speed.
#[derive(Clone, Copy, Debug)]
pub struct ClassPreview {
    pub hp: u32,
    pub speed_bits: u32,
    pub armor: u32,
    pub weapon: &'static str,
}

/// Preview values of a class: hit points, speed bits, armor, weapon.
pub open spec fn preview_of(c: CharacterClass) -> (u32, u32, u32, Seq<char>) {
    match c {
        CharacterClass::Warrior => (160, 0x40a0_0000, 15, "Sword"@),
        CharacterClass::Paladin => (140, 0x4099_999a, 12, "Sword"@),
        CharacterClass::Rogue => (100, 0x40d0_0000, 4, "Daggers"@),
        CharacterClass::Hunter => (110, 0x40b0_0000, 6, "Bow"@),
        CharacterClass::Mage => (90, 0x4090_0000, 2, "Staff"@),
    }
}

/// The preview of a class.
pub fn class_stats_preview(class: CharacterClass) -> (p: ClassPreview)
    ensures
        (p.hp, p.speed_bits, p.armor, p.weapon@) == preview_of(class),
{
    match class {
        CharacterClass::Warrior => ClassPreview { hp: 160, speed_bits: 0x40a0_0000, armor: 15, weapon: "Sword" },
        CharacterClass::Paladin => ClassPreview { hp: 140, speed_bits: 0x4099_999a, armor: 12, weapon: "Sword" },
        CharacterClass::Rogue => ClassPreview { hp: 100, speed_bits: 0x40d0_0000, armor: 4, weapon: "Daggers" },
        CharacterClass::Hunter => ClassPreview { hp: 110, speed_bits: 0x40b0_0000, armor: 6, weapon: "Bow" },
        CharacterClass::Mage => ClassPreview { hp: 90, speed_bits: 0x4090_0000, armor: 2, weapon: "Staff" },
    }
}

} // verus!

verus! {

/// Sets the level display's text for the player's level.
pub fn update_level_text(text: &mut String, level: u32)
    ensures
        final(text)@ == "Lv. "@ + decimal_digits(level as nat),
{
    let mut s = String::from_str("Lv. ");
    push_decimal(&mut s, level as u64);
    *text = s;
}

/// Sets the gold display's text for the gold collected in the run.
pub fn update_gold_text(text: &mut String, gold_collected: u64)
    ensures
        final(text)@ == "Gold: "@ + decimal_digits(gold_collected as nat),
{
    let mut s = String::from_str("Gold: ");
    push_decimal(&mut s, gold_collected);
    *text = s;
}

/// Text of the zone display: the zone's name in the open world, the
/// dungeon's name inside a dungeon, nothing otherwise.
pub open spec fn zone_text_of(zone: Option<ZoneId>, dungeon: Option<Seq<char>>) -> Seq<char> {
    match zone {
        Some(z) => zone_display_name(z),
        None => match dungeon {
            Some(name) => "Dungeon: "@ + name,
            None => Seq::empty(),
        },
    }
}

/// Sets the zone display's text for the current zone and the dungeon the
/// player is in, if any.
pub fn update_zone_text(text: &mut String, current_zone: &CurrentZone, dungeon_name: Option<&str>)
    ensures
        final(text)@ == zone_text_of(current_zone.0, match dungeon_name {
            Some(n) => Some(n@),
            None => None,
        }),
{
    *text = match current_zone.0 {
        Some(z) => String::from_str(z.display_name()),
        None => match dungeon_name {
            Some(name) => concat2("Dungeon: ", name),
            None => String::new(),
        },
    };
}

/// The entrance prompt: the first entrance the player stands close to
/// (`near[i]` for the `i`-th), or no prompt.
pub open spec fn prompt_text_of(names: Seq<Seq<char>>, near: Seq<bool>) -> Seq<char> {
    match first_where(near, |b: bool| b) {
        Some(i) => "[F] Enter: "@ + names[i],
        None => Seq::empty(),
    }
}

/// Text of the entrance prompt.
fn prompt_text(entrances: &Vec<DungeonEntrance>, near: &Vec<bool>) -> (s: String)
    requires
        near.len() == entrances.len(),
    ensures
        s@ == prompt_text_of(entrances@.map_values(|e: DungeonEntrance| e.name@), near@),
{
    let ghost p = |b: bool| b;
    let mut i: usize = 0;
    while i < near.len()
        invariant
            i <= near.len(),
            near.len() == entrances.len(),
            p == (|b: bool| b),
            forall|j: int| 0 <= j < i ==> !p(#[trigger] near@[j]),
        decreases near.len() - i,
    {
        if near[i] {
            proof {
                assert(is_first_where(near@, p, i as int));
                lemma_first_where_is(near@, p, i as int);
            }
            return concat2("[F] Enter: ", entrances[i].name.as_str());
        }
        i = i + 1;
    }
    proof {
        lemma_first_where_none(near@, p);
    }
    String::new()
}

/// Sets the entrance prompt's text: the first entrance the player stands
/// close to (`near[i]` for the `i`-th), or no prompt.
pub fn update_prompt_text(text: &mut String, entrances: &Vec<DungeonEntrance>, near: &Vec<bool>)
    requires
        near.len() == entrances.len(),
    ensures
        final(text)@ == prompt_text_of(entrances@.map_values(|e: DungeonEntrance| e.name@), near@),
{
    *text = prompt_text(entrances, near);
}

} // verus!

verus! {

/// The debuffs shown in the buff bar, in order: "Frozen" while frozen,
/// "Stun" while stunned, "Poison" while poisoned.
pub fn detect_debuffs(frozen: bool, stunned: bool, poisoned: bool) -> (names: Vec<&'static str>)
    ensures
        names@.map_values(|s: &'static str| s@) == (if frozen {
            seq!["Frozen"@]
        } else {
            Seq::empty()
        }) + (if stunned {
            seq!["Stun"@]
        } else {
            Seq::empty()
        }) + (if poisoned {
            seq!["Poison"@]
        } else {
            Seq::empty()
        }),
{
    let mut names: Vec<&'static str> = Vec::new();
    if frozen {
        names.push("Frozen");
    }
    if stunned {
        names.push("Stun");
    }
    if poisoned {
        names.push("Poison");
    }
    assert(names@.map_values(|s: &'static str| s@) =~= (if frozen {
        seq!["Frozen"@]
    } else {
        Seq::empty()
    }) + (if stunned {
        seq!["Stun"@]
    } else {
        Seq::empty()
    }) + (if poisoned {
        seq!["Poison"@]
    } else {
        Seq::empty()
    }));
    names
}

/// The class-and-level line of a saved character in the selection list.
pub fn profile_row_text(profile: &crate::profiles::PlayerProfile) -> (s: String)
    ensures
        s@ == crate::profiles::class_display_name(profile.class) + " Lv."@ + decimal_digits(
            profile.level as nat,
        ),
{
    let mut s = String::from_str(profile.class.display_name());
    s.append(" Lv.");
    push_decimal(&mut s, profile.level as u64);
    s
}

} // verus!

verus! {

/// `prefix`, the decimal digits of `n`, then `suffix`.
pub open spec fn numbered(prefix: Seq<char>, n: nat, suffix: Seq<char>) -> Seq<char> {
    prefix + decimal_digits(n) + suffix
}

/// Writes `prefix`, the decimal digits of `n`, then `suffix`.
fn numbered_text(prefix: &str, n: u64, suffix: &str) -> (s: String)
    ensures
        s@ == numbered(prefix@, n as nat, suffix@),
{
    let mut s = String::from_str(prefix);
    push_decimal(&mut s, n);
    s.append(suffix);
    s
}

/// Heading of a wave announcement.
pub fn wave_title_text(wave_number: u32) -> (s: String)
    ensures
        s@ == numbered("WAVE "@, wave_number as nat, ""@),
{
    numbered_text("WAVE ", wave_number as u64, "")
}

/// Enemy count line of a wave announcement.
pub fn wave_enemies_text(enemy_count: u32) -> (s: String)
    ensures
        s@ == numbered(""@, enemy_count as nat, " enemies"@),
{
    numbered_text("", enemy_count as u64, " enemies")
}

/// Banner of a cleared wave.
pub fn wave_cleared_text(wave_number: u32) -> (s: String)
    ensures
        s@ == numbered("Wave "@, wave_number as nat, " CLEARED!"@),
{
    numbered_text("Wave ", wave_number as u64, " CLEARED!")
}

/// Heading of the level-up popup.
pub fn level_up_text(new_level: u32) -> (s: String)
    ensures
        s@ == numbered("LEVEL UP! (Lv. "@, new_level as nat, ")"@),
{
    numbered_text("LEVEL UP! (Lv. ", new_level as u64, ")")
}

} // verus!

//! Permanent upgrades bought with Dark Essence: the catalog, tier lookup,
//! purchasing, and the stat bonuses the bought tiers add up to.
//!
//! Cost multipliers and stat bonus amounts are single-precision numbers in the
//! game; this module carries them as their IEEE-754 bit patterns and leaves
//! all arithmetic on them to the caller.

use vstd::prelude::*;
use crate::meta::{MetaProgression, MetaView, UpgradeTier, UpgradeTierView};
use crate::text::{decimal_digits, push_decimal, str_eq};
use crate::search::{
    first_where, is_first_where, lemma_first_where_is, lemma_first_where_none, lemma_first_where_some,
};

verus! {

/// The character statistics an upgrade can raise.
#[derive(Clone, Copy, Debug, PartialEq, Eq, Hash, Structural)]
pub enum StatType {
    MaxHealth,
    DamageBonus,
    Armor,
    MoveSpeed,
    CritChance,
    Lifesteal,
    PickupRadius,
    /// Share of extra experience gained from all sources.
    XpGain,
    /// Share of extra gold found.
    GoldGain,
}

/// Category for grouping upgrades in the UI.
#[derive(Clone, Copy, Debug, PartialEq, Eq, Hash, Structural)]
pub enum UpgradeCategory {
    /// Global stat boosts.
    Stats,
    /// Starting weapon unlocks.
    Weapons,
    /// Class-specific talents.
    Classes,
    /// Gold gain, XP gain, pickup radius.
    Utility,
}

/// A stat bonus granted per tier; `value_bits` is the bit pattern of the
/// single-precision bonus amount.
#[derive(Clone, Copy, Debug, PartialEq, Eq, Structural)]
pub struct StatBonus {
    pub stat: StatType,
    pub value_bits: u32,
}

/// A purchasable upgrade with tiered progression.
pub struct UpgradeDef {
    pub id: &'static str,
    pub name: &'static str,
    pub description: &'static str,
    pub category: UpgradeCategory,
    pub max_tier: u32,
    pub base_cost: u64,
    /// Bit pattern of the single-precision factor by which the cost grows
    /// with each tier.
    pub cost_multiplier_bits: u32,
    pub icon_id: &'static str,
    /// Per-tier stat bonuses applied when unlocked.
    pub per_tier_stats: Vec<StatBonus>,
}

/// Mathematical view of an [`UpgradeDef`].
pub struct UpgradeDefView {
    pub id: Seq<char>,
    pub name: Seq<char>,
    pub description: Seq<char>,
    pub category: UpgradeCategory,
    pub max_tier: u32,
    pub base_cost: u64,
    pub cost_multiplier_bits: u32,
    pub icon_id: Seq<char>,
    pub per_tier_stats: Seq<StatBonus>,
}

impl View for UpgradeDef {
    type V = UpgradeDefView;

    open spec fn view(&self) -> UpgradeDefView {
        UpgradeDefView {
            id: self.id@,
            name: self.name@,
            description: self.description@,
            category: self.category,
            max_tier: self.max_tier,
            base_cost: self.base_cost,
            cost_multiplier_bits: self.cost_multiplier_bits,
            icon_id: self.icon_id@,
            per_tier_stats: self.per_tier_stats@,
        }
    }
}

/// The views of a list of definitions.
pub open spec fn def_views(defs: Seq<UpgradeDef>) -> Seq<UpgradeDefView> {
    defs.map_values(|d: UpgradeDef| d@)
}

/// Every upgrade the game offers, in display order.
pub open spec fn upgrade_catalog() -> Seq<UpgradeDefView> {
    seq![
        UpgradeDefView {
            id: "max_hp_up"@,
            name: "Vitality"@,
            description: "Increase maximum health."@,
            category: UpgradeCategory::Stats,
            max_tier: 5,
            base_cost: 100,
            cost_multiplier_bits: 0x4000_0000,
            icon_id: "icon_hp_up"@,
            per_tier_stats: seq![StatBonus { stat: StatType::MaxHealth, value_bits: 0x41a0_0000 }],
        },
        UpgradeDefView {
            id: "dmg_up"@,
            name: "Might"@,
            description: "Increase base damage bonus."@,
            category: UpgradeCategory::Stats,
            max_tier: 5,
            base_cost: 100,
            cost_multiplier_bits: 0x400c_cccd,
            icon_id: "icon_dmg_up"@,
            per_tier_stats: seq![StatBonus { stat: StatType::DamageBonus, value_bits: 0x4040_0000 }],
        },
        UpgradeDefView {
            id: "armor_up"@,
            name: "Fortitude"@,
            description: "Increase armor rating."@,
            category: UpgradeCategory::Stats,
            max_tier: 5,
            base_cost: 80,
            cost_multiplier_bits: 0x4000_0000,
            icon_id: "icon_armor_up"@,
            per_tier_stats: seq![StatBonus { stat: StatType::Armor, value_bits: 0x40a0_0000 }],
        },
        UpgradeDefView {
            id: "move_speed_up"@,
            name: "Agility"@,
            description: "Increase movement speed."@,
            category: UpgradeCategory::Stats,
            max_tier: 3,
            base_cost: 150,
            cost_multiplier_bits: 0x4020_0000,
            icon_id: "icon_speed_up"@,
            per_tier_stats: seq![StatBonus { stat: StatType::MoveSpeed, value_bits: 0x3f00_0000 }],
        },
        UpgradeDefView {
            id: "crit_up"@,
            name: "Precision"@,
            description: "Increase critical hit chance."@,
            category: UpgradeCategory::Stats,
            max_tier: 3,
            base_cost: 200,
            cost_multiplier_bits: 0x4020_0000,
            icon_id: "icon_crit_up"@,
            per_tier_stats: seq![StatBonus { stat: StatType::CritChance, value_bits: 0x3ca3_d70a }],
        },
        UpgradeDefView {
            id: "lifesteal_up"@,
            name: "Leech"@,
            description: "Gain lifesteal."@,
            category: UpgradeCategory::Stats,
            max_tier: 3,
            base_cost: 250,
            cost_multiplier_bits: 0x4033_3333,
            icon_id: "icon_lifesteal"@,
            per_tier_stats: seq![StatBonus { stat: StatType::Lifesteal, value_bits: 0x3ca3_d70a }],
        },
        UpgradeDefView {
            id: "unlock_dagger"@,
            name: "Shadow's Kiss"@,
            description: "Unlock the Dagger as a starting weapon option (high attack speed)."@,
            category: UpgradeCategory::Weapons,
            max_tier: 1,
            base_cost: 300,
            cost_multiplier_bits: 0x3f80_0000,
            icon_id: "icon_dagger"@,
            per_tier_stats: Seq::empty(),
        },
        UpgradeDefView {
            id: "unlock_bow"@,
            name: "Wind's Reach"@,
            description: "Unlock the Bow as a starting weapon option (ranged)."@,
            category: UpgradeCategory::Weapons,
            max_tier: 1,
            base_cost: 350,
            cost_multiplier_bits: 0x3f80_0000,
            icon_id: "icon_bow"@,
            per_tier_stats: Seq::empty(),
        },
        UpgradeDefView {
            id: "unlock_staff"@,
            name: "Arcane Core"@,
            description: "Unlock the Staff as a starting weapon option (high damage, slow)."@,
            category: UpgradeCategory::Weapons,
            max_tier: 1,
            base_cost: 400,
            cost_multiplier_bits: 0x3f80_0000,
            icon_id: "icon_staff"@,
            per_tier_stats: Seq::empty(),
        },
        UpgradeDefView {
            id: "xp_boost"@,
            name: "Wisdom"@,
            description: "+15% XP gained from all sources."@,
            category: UpgradeCategory::Utility,
            max_tier: 3,
            base_cost: 120,
            cost_multiplier_bits: 0x4000_0000,
            icon_id: "icon_xp"@,
            per_tier_stats: seq![StatBonus { stat: StatType::XpGain, value_bits: 0x3e19_999a }],
        },
        UpgradeDefView {
            id: "gold_boost"@,
            name: "Greed"@,
            description: "+20% Gold found."@,
            category: UpgradeCategory::Utility,
            max_tier: 3,
            base_cost: 100,
            cost_multiplier_bits: 0x4000_0000,
            icon_id: "icon_gold"@,
            per_tier_stats: seq![StatBonus { stat: StatType::GoldGain, value_bits: 0x3e4c_cccd }],
        },
        UpgradeDefView {
            id: "pickup_radius_up"@,
            name: "Attraction"@,
            description: "Increase pickup magnet radius by 1.5."@,
            category: UpgradeCategory::Utility,
            max_tier: 3,
            base_cost: 80,
            cost_multiplier_bits: 0x4000_0000,
            icon_id: "icon_magnet"@,
            per_tier_stats: seq![StatBonus { stat: StatType::PickupRadius, value_bits: 0x3fc0_0000 }],
        },
    ]
}

/// A per-tier bonus list holding one bonus.
fn single_bonus(stat: StatType, value_bits: u32) -> (v: Vec<StatBonus>)
    ensures
        v@ == seq![StatBonus { stat, value_bits }],
{
    let mut v = Vec::new();
    v.push(StatBonus { stat, value_bits });
    proof {
        assert(v@ =~= seq![StatBonus { stat, value_bits }]);
    }
    v
}

/// All available meta-progression upgrades.
pub fn all_upgrade_defs() -> (defs: Vec<UpgradeDef>)
    ensures
        def_views(defs@) == upgrade_catalog(),
{
    let defs = vec![
        UpgradeDef {
            id: "max_hp_up",
            name: "Vitality",
            description: "Increase maximum health.",
            category: UpgradeCategory::Stats,
            max_tier: 5,
            base_cost: 100,
            cost_multiplier_bits: 0x4000_0000,  // 2.0
            icon_id: "icon_hp_up",
            per_tier_stats: single_bonus(StatType::MaxHealth, 0x41a0_0000),
        },
        UpgradeDef {
            id: "dmg_up",
            name: "Might",
            description: "Increase base damage bonus.",
            category: UpgradeCategory::Stats,
            max_tier: 5,
            base_cost: 100,
            cost_multiplier_bits: 0x400c_cccd,  // 2.2
            icon_id: "icon_dmg_up",
            per_tier_stats: single_bonus(StatType::DamageBonus, 0x4040_0000),
        },
        UpgradeDef {
            id: "armor_up",
            name: "Fortitude",
            description: "Increase armor rating.",
            category: UpgradeCategory::Stats,
            max_tier: 5,
            base_cost: 80,
            cost_multiplier_bits: 0x4000_0000,  // 2.0
            icon_id: "icon_armor_up",
            per_tier_stats: single_bonus(StatType::Armor, 0x40a0_0000),
        },
        UpgradeDef {
            id: "move_speed_up",
            name: "Agility",
            description: "Increase movement speed.",
            category: UpgradeCategory::Stats,
            max_tier: 3,
            base_cost: 150,
            cost_multiplier_bits: 0x4020_0000,  // 2.5
            icon_id: "icon_speed_up",
            per_tier_stats: single_bonus(StatType::MoveSpeed, 0x3f00_0000),
        },
        UpgradeDef {
            id: "crit_up",
            name: "Precision",
            description: "Increase critical hit chance.",
            category: UpgradeCategory::Stats,
            max_tier: 3,
            base_cost: 200,
            cost_multiplier_bits: 0x4020_0000,  // 2.5
            icon_id: "icon_crit_up",
            per_tier_stats: single_bonus(StatType::CritChance, 0x3ca3_d70a),
        },
        UpgradeDef {
            id: "lifesteal_up",
            name: "Leech",
            description: "Gain lifesteal.",
            category: UpgradeCategory::Stats,
            max_tier: 3,
            base_cost: 250,
            cost_multiplier_bits: 0x4033_3333,  // 2.8
            icon_id: "icon_lifesteal",
            per_tier_stats: single_bonus(StatType::Lifesteal, 0x3ca3_d70a),
        },
        UpgradeDef {
            id: "unlock_dagger",
            name: "Shadow's Kiss",
            description: "Unlock the Dagger as a starting weapon option (high attack speed).",
            category: UpgradeCategory::Weapons,
            max_tier: 1,
            base_cost: 300,
            cost_multiplier_bits: 0x3f80_0000,  // 1.0
            icon_id: "icon_dagger",
            per_tier_stats: Vec::new(),
        },
        UpgradeDef {
            id: "unlock_bow",
            name: "Wind's Reach",
            description: "Unlock the Bow as a starting weapon option (ranged).",
            category: UpgradeCategory::Weapons,
            max_tier: 1,
            base_cost: 350,
            cost_multiplier_bits: 0x3f80_0000,  // 1.0
            icon_id: "icon_bow",
            per_tier_stats: Vec::new(),
        },
        UpgradeDef {
            id: "unlock_staff",
            name: "Arcane Core",
            description: "Unlock the Staff as a starting weapon option (high damage, slow).",
            category: UpgradeCategory::Weapons,
            max_tier: 1,
            base_cost: 400,
            cost_multiplier_bits: 0x3f80_0000,  // 1.0
            icon_id: "icon_staff",
            per_tier_stats: Vec::new(),
        },
        UpgradeDef {
            id: "xp_boost",
            name: "Wisdom",
            description: "+15% XP gained from all sources.",
            category: UpgradeCategory::Utility,
            max_tier: 3,
            base_cost: 120,
            cost_multiplier_bits: 0x4000_0000,  // 2.0
            icon_id: "icon_xp",
            per_tier_stats: single_bonus(StatType::XpGain, 0x3e19_999a),
        },
        UpgradeDef {
            id: "gold_boost",
            name: "Greed",
            description: "+20% Gold found.",
            category: UpgradeCategory::Utility,
            max_tier: 3,
            base_cost: 100,
            cost_multiplier_bits: 0x4000_0000,  // 2.0
            icon_id: "icon_gold",
            per_tier_stats: single_bonus(StatType::GoldGain, 0x3e4c_cccd),
        },
        UpgradeDef {
            id: "pickup_radius_up",
            name: "Attraction",
            description: "Increase pickup magnet radius by 1.5.",
            category: UpgradeCategory::Utility,
            max_tier: 3,
            base_cost: 80,
            cost_multiplier_bits: 0x4000_0000,  // 2.0
            icon_id: "icon_magnet",
            per_tier_stats: single_bonus(StatType::PickupRadius, 0x3fc0_0000),
        },
    ];
    proof {
        assert(def_views(defs@) =~= upgrade_catalog());
    }
    defs
}


/// Position of the catalog entry with the given id.
pub open spec fn def_position(defs: Seq<UpgradeDefView>, id: Seq<char>) -> Option<int> {
    first_where(defs, |d: UpgradeDefView| d.id == id)
}

/// Position of the purchased-tier record with the given id.
pub open spec fn tier_position(ups: Seq<UpgradeTierView>, id: Seq<char>) -> Option<int> {
    first_where(ups, |u: UpgradeTierView| u.id == id)
}

/// The tier of upgrade `id` bought so far (0 when never bought).
pub open spec fn current_tier(ups: Seq<UpgradeTierView>, id: Seq<char>) -> u32 {
    match tier_position(ups, id) {
        Some(i) => ups[i].tier,
        None => 0,
    }
}

/// The purchased-tier records after buying one more tier of `id` at `cost`.
pub open spec fn with_tier_bought(ups: Seq<UpgradeTierView>, id: Seq<char>, cost: u64) -> Seq<
    UpgradeTierView,
> {
    match tier_position(ups, id) {
        Some(i) => ups.update(
            i,
            UpgradeTierView { id: ups[i].id, tier: (ups[i].tier + 1) as u32, cost },
        ),
        None => ups.push(UpgradeTierView { id, tier: 1, cost }),
    }
}

/// Index of the definition with the given id in `defs` (first match).
pub fn find_upgrade_def(defs: &Vec<UpgradeDef>, id: &str) -> (r: Option<usize>)
    ensures
        match r {
            Some(i) => def_position(def_views(defs@), id@) == Some(i as int),
            None => def_position(def_views(defs@), id@) is None,
        },
{
    let ghost views = def_views(defs@);
    let ghost p = |d: UpgradeDefView| d.id == id@;
    let mut i: usize = 0;
    while i < defs.len()
        invariant
            i <= defs.len(),
            views == def_views(defs@),
            p == (|d: UpgradeDefView| d.id == id@),
            forall|j: int| 0 <= j < i ==> !p(#[trigger] views[j]),
        decreases defs.len() - i,
    {
        if str_eq(defs[i].id, id) {
            proof {
                assert(is_first_where(views, p, i as int));
                lemma_first_where_is(views, p, i as int);
            }
            return Some(i);
        }
        i = i + 1;
    }
    proof {
        lemma_first_where_none(views, p);
    }
    None
}

/// Index of the purchased-tier record with the given id (first match).
pub fn find_upgrade_tier(ups: &Vec<UpgradeTier>, id: &str) -> (r: Option<usize>)
    ensures
        match r {
            Some(i) => tier_position(ups@.map_values(|u: UpgradeTier| u@), id@) == Some(i as int),
            None => tier_position(ups@.map_values(|u: UpgradeTier| u@), id@) is None,
        },
{
    let ghost views = ups@.map_values(|u: UpgradeTier| u@);
    let ghost p = |u: UpgradeTierView| u.id == id@;
    let mut i: usize = 0;
    while i < ups.len()
        invariant
            i <= ups.len(),
            views == ups@.map_values(|u: UpgradeTier| u@),
            p == (|u: UpgradeTierView| u.id == id@),
            forall|j: int| 0 <= j < i ==> !p(#[trigger] views[j]),
        decreases ups.len() - i,
    {
        if str_eq(ups[i].id.as_str(), id) {
            proof {
                assert(is_first_where(views, p, i as int));
                lemma_first_where_is(views, p, i as int);
            }
            return Some(i);
        }
        i = i + 1;
    }
    proof {
        lemma_first_where_none(views, p);
    }
    None
}

/// Why a purchase was refused.
#[derive(Debug, PartialEq, Eq, Structural)]
pub enum PurchaseError {
    /// No upgrade has the requested id.
    NotFound,
    /// The upgrade is already at its maximum tier.
    MaxTier,
    /// The purchase needs this much more Dark Essence.
    InsufficientEssence(u64),
}

/// The text shown to the player for a refused purchase.
pub open spec fn purchase_error_text(e: PurchaseError) -> Seq<char> {
    match e {
        PurchaseError::NotFound => "Upgrade not found"@,
        PurchaseError::MaxTier => "Upgrade already at max tier"@,
        PurchaseError::InsufficientEssence(needed) => "Need "@ + decimal_digits(needed as nat)
            + " more Dark Essence"@,
    }
}

impl PurchaseError {
    /// The text shown to the player for this error.
    pub fn message(&self) -> (s: String)
        ensures
            s@ == purchase_error_text(*self),
    {
        match self {
            PurchaseError::NotFound => String::from_str("Upgrade not found"),
            PurchaseError::MaxTier => String::from_str("Upgrade already at max tier"),
            PurchaseError::InsufficientEssence(needed) => {
                let mut s = String::from_str("Need ");
                push_decimal(&mut s, *needed);
                s.append(" more Dark Essence");
                s
            },
        }
    }
}

/// An upgrade together with the tier a purchase would move it from.
pub struct PurchaseQuote {
    pub def: UpgradeDefView,
    pub tier: u32,
}

/// The upgrade and current tier a purchase of `id` would be priced for, or
/// `None` when the purchase is refused before any price is needed (unknown
/// id, or already at the maximum tier).
pub open spec fn purchase_quote(m: MetaView, id: Seq<char>) -> Option<PurchaseQuote> {
    match def_position(upgrade_catalog(), id) {
        None => None,
        Some(i) => {
            let tier = current_tier(m.upgrades, id);
            if tier >= upgrade_catalog()[i].max_tier {
                None
            } else {
                Some(PurchaseQuote { def: upgrade_catalog()[i], tier })
            }
        },
    }
}

/// The outcome of buying the next tier of upgrade `id` at price `cost`:
/// the result and the meta-progression afterwards.
pub open spec fn purchase_outcome(m: MetaView, id: Seq<char>, cost: u64) -> (
    Result<(), PurchaseError>,
    MetaView,
) {
    match def_position(upgrade_catalog(), id) {
        None => (Err(PurchaseError::NotFound), m),
        Some(i) => {
            if current_tier(m.upgrades, id) >= upgrade_catalog()[i].max_tier {
                (Err(PurchaseError::MaxTier), m)
            } else if m.dark_essence < cost {
                (Err(PurchaseError::InsufficientEssence((cost - m.dark_essence) as u64)), m)
            } else {
                (
                    Ok(()),
                    MetaView {
                        dark_essence: (m.dark_essence - cost) as u64,
                        upgrades: with_tier_bought(m.upgrades, id, cost),
                        ..m
                    },
                )
            }
        },
    }
}

/// Attempts to buy the next tier of upgrade `upgrade_id`.
///
/// `cost_of` prices a tier of an upgrade (the game multiplies the base cost
/// by the cost multiplier raised to the current tier, in single precision).
/// It is asked only for an upgrade that exists and is below its maximum
/// tier, with that upgrade and its current tier.
pub fn purchase_upgrade<F: Fn(&UpgradeDef, u32) -> u64>(
    upgrade_id: &str,
    meta: &mut MetaProgression,
    cost_of: F,
) -> (result: Result<(), PurchaseError>)
    requires
        forall|d: &UpgradeDef, t: u32| cost_of.requires((d, t)),
    ensures
        purchase_quote(old(meta)@, upgrade_id@) is None ==> (result, final(meta)@)
            == purchase_outcome(old(meta)@, upgrade_id@, 0),
        purchase_quote(old(meta)@, upgrade_id@) is Some ==> exists|d: &UpgradeDef, c: u64|
            #![trigger cost_of.ensures((d, purchase_quote(old(meta)@, upgrade_id@)->0.tier), c)]
            d@ == purchase_quote(old(meta)@, upgrade_id@)->0.def && cost_of.ensures(
                (d, purchase_quote(old(meta)@, upgrade_id@)->0.tier),
                c,
            ) && (result, final(meta)@) == purchase_outcome(old(meta)@, upgrade_id@, c),
{
    let defs = all_upgrade_defs();
    let di = match find_upgrade_def(&defs, upgrade_id) {
        Some(i) => i,
        None => {
            return Err(PurchaseError::NotFound);
        },
    };
    let def = &defs[di];
    let tpos = find_upgrade_tier(&meta.upgrades, upgrade_id);
    let current = match tpos {
        Some(k) => meta.upgrades[k].tier,
        None => 0,
    };
    assert(current == current_tier(meta@.upgrades, upgrade_id@));
    if current >= def.max_tier {
        return Err(PurchaseError::MaxTier);
    }
    let cost = cost_of(def, current);
    proof {
        assert(def_views(defs@)[di as int] == def@);
        assert(purchase_quote(old(meta)@, upgrade_id@) == Some(PurchaseQuote { def: def@, tier: current }));
        assert(cost_of.ensures((def, current), cost));
    }
    if meta.dark_essence < cost {
        let r = Err(PurchaseError::InsufficientEssence(cost - meta.dark_essence));
        assert((r, meta@) == purchase_outcome(old(meta)@, upgrade_id@, cost));
        assert(exists|d: &UpgradeDef, c: u64|
            #![trigger cost_of.ensures((d, current), c)]
            d@ == def@ && cost_of.ensures((d, current), c) && (r, meta@)
                == purchase_outcome(old(meta)@, upgrade_id@, c));
        assert(exists|d: &UpgradeDef, c: u64|
            #![trigger cost_of.ensures((d, purchase_quote(old(meta)@, upgrade_id@)->0.tier), c)]
            d@ == purchase_quote(old(meta)@, upgrade_id@)->0.def && cost_of.ensures(
                (d, purchase_quote(old(meta)@, upgrade_id@)->0.tier),
                c,
            ) && (r, meta@) == purchase_outcome(old(meta)@, upgrade_id@, c));
        return r;
    }
    meta.dark_essence = meta.dark_essence - cost;
    match tpos {
        Some(k) => {
            let bumped = UpgradeTier {
                id: meta.upgrades[k].id.clone(),
                tier: meta.upgrades[k].tier + 1,
                cost,
            };
            meta.upgrades.set(k, bumped);
        },
        None => {
            meta.upgrades.push(UpgradeTier { id: upgrade_id.to_owned(), tier: 1, cost });
        },
    }
    proof {
        assert(meta@.upgrades =~= with_tier_bought(old(meta)@.upgrades, upgrade_id@, cost));
        assert(meta@.unlocks =~= old(meta)@.unlocks);
        assert((Ok::<(), PurchaseError>(()), meta@) == purchase_outcome(old(meta)@, upgrade_id@, cost));
        assert(exists|d: &UpgradeDef, c: u64|
            #![trigger cost_of.ensures((d, current), c)]
            d@ == def@ && cost_of.ensures((d, current), c) && (Ok::<(), PurchaseError>(()), meta@)
                == purchase_outcome(old(meta)@, upgrade_id@, c));
    }
    Ok(())
}


/// Every purchased tier stays within the maximum tier of its upgrade.
pub open spec fn tiers_within_caps(m: MetaView) -> bool {
    forall|k: int|
        #![trigger m.upgrades[k]]
        0 <= k < m.upgrades.len() ==> match def_position(upgrade_catalog(), m.upgrades[k].id) {
            Some(i) => m.upgrades[k].tier <= upgrade_catalog()[i].max_tier,
            None => true,
        }
}

/// The ids of the upgrade catalog are pairwise distinct, and there are twelve
/// upgrades.
pub proof fn lemma_catalog_ids_unique()
    ensures
        upgrade_catalog().len() == 12,
        forall|i: int, j: int|
            0 <= i < j < upgrade_catalog().len() ==> upgrade_catalog()[i].id
                != upgrade_catalog()[j].id,
{
    reveal_strlit("max_hp_up");
    reveal_strlit("dmg_up");
    reveal_strlit("armor_up");
    reveal_strlit("move_speed_up");
    reveal_strlit("crit_up");
    reveal_strlit("lifesteal_up");
    reveal_strlit("unlock_dagger");
    reveal_strlit("unlock_bow");
    reveal_strlit("unlock_staff");
    reveal_strlit("xp_boost");
    reveal_strlit("gold_boost");
    reveal_strlit("pickup_radius_up");
    let c = upgrade_catalog();
    assert forall|i: int, j: int| 0 <= i < j < c.len() implies c[i].id != c[j].id by {
        if c[i].id.len() == c[j].id.len() {
            assert(c[i].id[0] != c[j].id[0] || c[i].id[1] != c[j].id[1] || c[i].id[7]
                != c[j].id[7]);
        }
    }
}

/// The first record for `id` after buying a tier sits where it was, or at the
/// end when there was none, and records for other ids keep their first
/// positions.
proof fn lemma_bought_positions(ups: Seq<UpgradeTierView>, id: Seq<char>, cost: u64)
    requires
        tier_position(ups, id) matches Some(i) ==> ups[i].tier < u32::MAX,
    ensures
        tier_position(with_tier_bought(ups, id, cost), id) == Some(
            match tier_position(ups, id) {
                Some(i) => i,
                None => ups.len() as int,
            },
        ),
        forall|id2: Seq<char>|
            id2 != id ==> #[trigger] tier_position(with_tier_bought(ups, id, cost), id2)
                == tier_position(ups, id2),
{
    let p = |u: UpgradeTierView| u.id == id;
    let n = with_tier_bought(ups, id, cost);
    lemma_first_where_some(ups, p);
    match tier_position(ups, id) {
        Some(i) => {
            assert(is_first_where(n, p, i));
            lemma_first_where_is(n, p, i);
        },
        None => {
            assert forall|j: int| 0 <= j < ups.len() implies !p(#[trigger] ups[j]) by {
                if p(ups[j]) {
                    assert(exists|k: int| 0 <= k < ups.len() && #[trigger] p(ups[k]));
                }
            }
            assert(is_first_where(n, p, ups.len() as int));
            lemma_first_where_is(n, p, ups.len() as int);
        },
    }
    assert forall|id2: Seq<char>| id2 != id implies #[trigger] tier_position(n, id2)
        == tier_position(ups, id2) by {
        let p2 = |u: UpgradeTierView| u.id == id2;
        lemma_first_where_some(ups, p2);
        match tier_position(ups, id2) {
            Some(j) => {
                assert(is_first_where(n, p2, j));
                lemma_first_where_is(n, p2, j);
            },
            None => {
                assert forall|j: int| 0 <= j < n.len() implies !p2(#[trigger] n[j]) by {
                    if j < ups.len() && p2(ups[j]) {
                        assert(exists|k: int| 0 <= k < ups.len() && #[trigger] p2(ups[k]));
                    }
                }
                lemma_first_where_none(n, p2);
            },
        }
    }
}

/// A refused purchase changes nothing; an accepted one spends exactly the
/// price, raises the bought upgrade by one tier and leaves every other
/// upgrade's tier and every other field as it was.
pub proof fn lemma_purchase_effect(m: MetaView, id: Seq<char>, cost: u64)
    ensures
        purchase_outcome(m, id, cost).0 is Err ==> purchase_outcome(m, id, cost).1 == m,
        purchase_outcome(m, id, cost).0 is Ok ==> {
            let n = purchase_outcome(m, id, cost).1;
            &&& cost <= m.dark_essence
            &&& n.dark_essence == m.dark_essence - cost
            &&& current_tier(n.upgrades, id) == current_tier(m.upgrades, id) + 1
            &&& forall|id2: Seq<char>|
                id2 != id ==> #[trigger] current_tier(n.upgrades, id2) == current_tier(
                    m.upgrades,
                    id2,
                )
            &&& n.gold == m.gold && n.total_runs == m.total_runs && n.completed_runs
                == m.completed_runs && n.highest_wave == m.highest_wave && n.unlocks
                == m.unlocks
        },
{
    if purchase_outcome(m, id, cost).0 is Ok {
        let i = def_position(upgrade_catalog(), id)->0;
        assert(current_tier(m.upgrades, id) < upgrade_catalog()[i].max_tier);
        lemma_bought_positions(m.upgrades, id, cost);
        let n = purchase_outcome(m, id, cost).1;
        assert forall|id2: Seq<char>| id2 != id implies #[trigger] current_tier(n.upgrades, id2)
            == current_tier(m.upgrades, id2) by {
            assert(tier_position(with_tier_bought(m.upgrades, id, cost), id2) == tier_position(
                m.upgrades,
                id2,
            ));
            match tier_position(m.upgrades, id) {
                Some(k) => {
                    match tier_position(m.upgrades, id2) {
                        Some(j) => {
                            lemma_first_where_some(m.upgrades, |u: UpgradeTierView| u.id == id);
                            lemma_first_where_some(m.upgrades, |u: UpgradeTierView| u.id == id2);
                            assert(j != k);
                        },
                        None => {},
                    }
                },
                None => {
                    match tier_position(m.upgrades, id2) {
                        Some(j) => {
                            lemma_first_where_some(m.upgrades, |u: UpgradeTierView| u.id == id2);
                        },
                        None => {},
                    }
                },
            }
        }
    }
}

/// Buying never lets a tier exceed its upgrade's maximum.
pub proof fn lemma_purchase_keeps_tiers_within_caps(m: MetaView, id: Seq<char>, cost: u64)
    requires
        tiers_within_caps(m),
    ensures
        tiers_within_caps(purchase_outcome(m, id, cost).1),
{
    if purchase_outcome(m, id, cost).0 is Ok {
        let i = def_position(upgrade_catalog(), id)->0;
        let n = purchase_outcome(m, id, cost).1;
        let ups = m.upgrades;
        assert(current_tier(ups, id) < upgrade_catalog()[i].max_tier);
        lemma_first_where_some(ups, |u: UpgradeTierView| u.id == id);
        assert forall|k: int| 0 <= k < n.upgrades.len() implies match def_position(
            upgrade_catalog(),
            #[trigger] n.upgrades[k].id,
        ) {
            Some(i2) => n.upgrades[k].tier <= upgrade_catalog()[i2].max_tier,
            None => true,
        } by {
            match tier_position(ups, id) {
                Some(t) => {
                    if k != t {
                        assert(n.upgrades[k] == ups[k]);
                    } else {
                        assert(n.upgrades[k].id == id);
                    }
                },
                None => {
                    if k < ups.len() {
                        assert(n.upgrades[k] == ups[k]);
                    } else {
                        assert(n.upgrades[k].id == id);
                    }
                },
            }
        }
    }
}

} // verus!

verus! {

/// A click on the upgrade card showing `name`: the id of the catalog
/// upgrade with that name (first match), whose purchase the click requests.
pub fn handle_upgrade_card_clicks(name: &str) -> (r: Option<&'static str>)
    ensures
        match r {
            Some(id) => exists|i: int|
                is_first_where(upgrade_catalog(), |d: UpgradeDefView| d.name == name@, i)
                    && id@ == upgrade_catalog()[i].id,
            None => first_where(upgrade_catalog(), |d: UpgradeDefView| d.name == name@) is None,
        },
{
    let defs = all_upgrade_defs();
    let ghost views = def_views(defs@);
    let ghost p = |d: UpgradeDefView| d.name == name@;
    let mut i: usize = 0;
    while i < defs.len()
        invariant
            i <= defs.len(),
            views == def_views(defs@),
            views == upgrade_catalog(),
            p == (|d: UpgradeDefView| d.name == name@),
            forall|j: int| 0 <= j < i ==> !p(#[trigger] views[j]),
        decreases defs.len() - i,
    {
        if str_eq(defs[i].name, name) {
            assert(is_first_where(views, p, i as int));
            return Some(defs[i].id);
        }
        i = i + 1;
    }
    proof {
        lemma_first_where_none(views, p);
    }
    None
}

} // verus!

verus! {

/// `n` copies of `s`, one after another.
pub open spec fn repeated(s: Seq<StatBonus>, n: nat) -> Seq<StatBonus>
    decreases n,
{
    if n == 0 {
        Seq::empty()
    } else {
        repeated(s, (n - 1) as nat) + s
    }
}

/// The bonuses that the bought tiers grant, in order: for each purchased
/// upgrade found in the catalog, its per-tier bonuses once per tier bought.
pub open spec fn granted_bonuses(ups: Seq<UpgradeTierView>) -> Seq<StatBonus>
    decreases ups.len(),
{
    if ups.len() == 0 {
        Seq::empty()
    } else {
        granted_bonuses(ups.drop_last()) + match def_position(upgrade_catalog(), ups.last().id) {
            Some(i) => repeated(upgrade_catalog()[i].per_tier_stats, ups.last().tier as nat),
            None => Seq::empty(),
        }
    }
}

/// Adds one bonus to a grouping: to the stat's group if it has one, else as
/// a new group at the end.
pub open spec fn add_term(g: Seq<(StatType, Seq<u32>)>, b: StatBonus) -> Seq<(StatType, Seq<u32>)> {
    match first_where(g, |e: (StatType, Seq<u32>)| e.0 == b.stat) {
        Some(i) => g.update(i, (b.stat, g[i].1.push(b.value_bits))),
        None => g.push((b.stat, seq![b.value_bits])),
    }
}

/// Bonuses grouped by stat, in order of first appearance, each group with
/// its amounts in order.
pub open spec fn grouped(s: Seq<StatBonus>) -> Seq<(StatType, Seq<u32>)>
    decreases s.len(),
{
    if s.len() == 0 {
        Seq::empty()
    } else {
        add_term(grouped(s.drop_last()), s.last())
    }
}

/// A stat and the bit patterns of the single-precision amounts added to it,
/// in order; the accumulated bonus is their sum taken left to right.
pub struct AccumulatedStat {
    pub stat: StatType,
    pub terms_bits: Vec<u32>,
}

/// Stats and amounts of a list of accumulated stats.
pub open spec fn accumulated_views(a: Seq<AccumulatedStat>) -> Seq<(StatType, Seq<u32>)> {
    a.map_values(|s: AccumulatedStat| (s.stat, s.terms_bits@))
}

/// Adds one bonus to the accumulated stats.
fn add_bonus(acc: &mut Vec<AccumulatedStat>, b: StatBonus)
    ensures
        accumulated_views(final(acc)@) == add_term(accumulated_views(old(acc)@), b),
{
    let ghost g = accumulated_views(acc@);
    let ghost p = |e: (StatType, Seq<u32>)| e.0 == b.stat;
    let mut i: usize = 0;
    while i < acc.len()
        invariant
            i <= acc.len(),
            g == accumulated_views(acc@),
            g == accumulated_views(old(acc)@),
            p == (|e: (StatType, Seq<u32>)| e.0 == b.stat),
            forall|j: int| 0 <= j < i ==> !p(#[trigger] g[j]),
        decreases acc.len() - i,
    {
        if acc[i].stat == b.stat {
            proof {
                assert(p(g[i as int]));
                assert(is_first_where(g, p, i as int));
                lemma_first_where_is(g, p, i as int);
            }
            let mut e = acc.remove(i);
            e.terms_bits.push(b.value_bits);
            acc.insert(i, e);
            proof {
                assert(accumulated_views(acc@) =~= g.update(
                    i as int,
                    (b.stat, g[i as int].1.push(b.value_bits)),
                ));
            }
            return;
        }
        i = i + 1;
    }
    proof {
        lemma_first_where_none(g, p);
    }
    let mut terms: Vec<u32> = Vec::new();
    terms.push(b.value_bits);
    acc.push(AccumulatedStat { stat: b.stat, terms_bits: terms });
    proof {
        assert(accumulated_views(acc@) =~= g.push((b.stat, seq![b.value_bits])));
    }
}

/// The stat bonuses of all bought tiers, grouped by stat in order of first
/// appearance: every tier of every purchased upgrade in the catalog adds its
/// per-tier bonuses, once per tier.
pub fn accumulated_upgrade_stats(meta: &MetaProgression) -> (r: Vec<AccumulatedStat>)
    ensures
        accumulated_views(r@) == grouped(granted_bonuses(meta@.upgrades)),
{
    let defs = all_upgrade_defs();
    let ghost ups = meta@.upgrades;
    let mut acc: Vec<AccumulatedStat> = Vec::new();
    let ghost mut done: Seq<StatBonus> = Seq::empty();
    proof {
        assert(accumulated_views(acc@) =~= grouped(done));
        assert(ups.take(0) =~= Seq::<UpgradeTierView>::empty());
    }
    let mut i: usize = 0;
    while i < meta.upgrades.len()
        invariant
            i <= meta.upgrades.len(),
            ups == meta@.upgrades,
            def_views(defs@) == upgrade_catalog(),
            accumulated_views(acc@) == grouped(done),
            done == granted_bonuses(ups.take(i as int)),
        decreases meta.upgrades.len() - i,
    {
        let ghost before = done;
        proof {
            assert(ups.take(i as int + 1).drop_last() =~= ups.take(i as int));
            assert(ups.take(i as int + 1).last() == ups[i as int]);
        }
        match find_upgrade_def(&defs, meta.upgrades[i].id.as_str()) {
            Some(d) => {
                let stats = &defs[d].per_tier_stats;
                let tier = meta.upgrades[i].tier;
                let mut t: u32 = 0;
                while t < tier
                    invariant
                        t <= tier,
                        accumulated_views(acc@) == grouped(done),
                        done == before + repeated(stats@, t as nat),
                    decreases tier - t,
                {
                    let ghost start = done;
                    let mut j: usize = 0;
                    proof {
                        assert(done =~= start + stats@.take(0));
                    }
                    while j < stats.len()
                        invariant
                            j <= stats.len(),
                            accumulated_views(acc@) == grouped(done),
                            done == start + stats@.take(j as int),
                        decreases stats.len() - j,
                    {
                        let b = stats[j];
                        add_bonus(&mut acc, b);
                        proof {
                            let next = done.push(b);
                            assert(next.drop_last() =~= done);
                            assert(next.last() == b);
                            done = next;
                            assert(stats@.take(j as int + 1) =~= stats@.take(j as int).push(b));
                            assert(done =~= start + stats@.take(j as int + 1));
                        }
                        j = j + 1;
                    }
                    proof {
                        assert(stats@.take(stats.len() as int) =~= stats@);
                        assert(repeated(stats@, (t + 1) as nat) == repeated(stats@, t as nat) + stats@);
                        assert(done =~= before + repeated(stats@, (t + 1) as nat));
                    }
                    t = t + 1;
                }
                proof {
                    assert(upgrade_catalog()[d as int].per_tier_stats == stats@);
                    assert(done == granted_bonuses(ups.take(i as int + 1)));
                }
            },
            None => {
                proof {
                    assert(done =~= granted_bonuses(ups.take(i as int + 1)));
                }
            },
        }
        i = i + 1;
    }
    proof {
        assert(ups.take(meta.upgrades.len() as int) =~= ups);
    }
    acc
}

} // verus!

verus! {

/// Each stat has at most one group.
pub open spec fn stats_distinct(g: Seq<(StatType, Seq<u32>)>) -> bool {
    forall|i: int, j: int| 0 <= i < j < g.len() ==> #[trigger] g[i].0 != #[trigger] g[j].0
}

/// Accumulating bonuses never gives a stat two entries.
pub proof fn lemma_grouped_stats_distinct(s: Seq<StatBonus>)
    ensures
        stats_distinct(grouped(s)),
    decreases s.len(),
{
    if s.len() > 0 {
        let g = grouped(s.drop_last());
        let b = s.last();
        lemma_grouped_stats_distinct(s.drop_last());
        let p = |e: (StatType, Seq<u32>)| e.0 == b.stat;
        lemma_first_where_some(g, p);
        match first_where(g, p) {
            Some(i) => {
                let h = g.update(i, (b.stat, g[i].1.push(b.value_bits)));
                assert forall|a: int, c: int| 0 <= a < c < h.len() implies #[trigger] h[a].0
                    != #[trigger] h[c].0 by {
                    assert(g[a].0 != g[c].0);
                    assert(h[a].0 == g[a].0 && h[c].0 == g[c].0);
                }
            },
            None => {
                let h = g.push((b.stat, seq![b.value_bits]));
                assert forall|a: int, c: int| 0 <= a < c < h.len() implies #[trigger] h[a].0
                    != #[trigger] h[c].0 by {
                    if c == g.len() {
                        assert(!p(g[a]));
                    } else {
                        assert(g[a].0 != g[c].0);
                    }
                }
            },
        }
    }
}

} // verus!

verus! {

/// Number of amounts in all groups.
pub open spec fn total_terms(g: Seq<(StatType, Seq<u32>)>) -> nat
    decreases g.len(),
{
    if g.len() == 0 {
        0
    } else {
        total_terms(g.drop_last()) + g.last().1.len()
    }
}

/// Replacing one group changes the count by the difference in its size.
proof fn lemma_total_terms_update(g: Seq<(StatType, Seq<u32>)>, i: int, e: (StatType, Seq<u32>))
    requires
        0 <= i < g.len(),
    ensures
        total_terms(g.update(i, e)) == total_terms(g) - g[i].1.len() + e.1.len(),
    decreases g.len(),
{
    let h = g.update(i, e);
    if i == g.len() - 1 {
        assert(h.drop_last() =~= g.drop_last());
    } else {
        assert(h.drop_last() =~= g.drop_last().update(i, e));
        lemma_total_terms_update(g.drop_last(), i, e);
    }
}

/// Accumulating keeps every bonus amount exactly once: the groups hold as
/// many amounts as there were bonuses.
pub proof fn lemma_grouped_keeps_every_term(s: Seq<StatBonus>)
    ensures
        total_terms(grouped(s)) == s.len(),
    decreases s.len(),
{
    if s.len() > 0 {
        let g = grouped(s.drop_last());
        let b = s.last();
        lemma_grouped_keeps_every_term(s.drop_last());
        let p = |e: (StatType, Seq<u32>)| e.0 == b.stat;
        lemma_first_where_some(g, p);
        match first_where(g, p) {
            Some(i) => {
                lemma_total_terms_update(g, i, (b.stat, g[i].1.push(b.value_bits)));
            },
            None => {
                let h = g.push((b.stat, seq![b.value_bits]));
                assert(h.drop_last() =~= g);
            },
        }
    }
}

} // verus!

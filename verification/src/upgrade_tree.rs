//! What the upgrade tree screen shows: its sections, in a fixed category
//! order, and the state and texts of each upgrade card. Prices are computed
//! by the caller.

use vstd::prelude::*;
use crate::meta::{MetaProgression, MetaView};
use crate::text::{decimal_digits, push_decimal};
use crate::upgrades::{
    current_tier, def_position, def_views, find_upgrade_tier, purchase_outcome, upgrade_catalog,
    PurchaseError, UpgradeCategory, UpgradeDef, UpgradeDefView,
};

verus! {

/// How a card is drawn: the upgrade is at its maximum tier, can be bought
/// now (the card is a button), or cannot be bought yet.
#[derive(Clone, Copy, Debug, PartialEq, Eq, Structural)]
pub enum CardState {
    Maxed,
    Affordable,
    Unaffordable,
}

/// The state and texts of one upgrade card.
pub struct UpgradeCard {
    pub state: CardState,
    /// "MAXED", or "Tier t/max".
    pub tier_text: String,
    /// "Cost: c DE", shown while the upgrade is not maxed.
    pub cost_text: Option<String>,
}

/// The state of a card at tier `tier` of `max_tier`, priced `cost`, with
/// `essence` to spend.
pub open spec fn card_state(tier: u32, max_tier: u32, cost: u64, essence: u64) -> CardState {
    if tier >= max_tier {
        CardState::Maxed
    } else if essence >= cost {
        CardState::Affordable
    } else {
        CardState::Unaffordable
    }
}

/// The tier text of a card.
pub open spec fn tier_text_of(tier: u32, max_tier: u32) -> Seq<char> {
    if tier >= max_tier {
        "MAXED"@
    } else {
        "Tier "@ + decimal_digits(tier as nat) + "/"@ + decimal_digits(max_tier as nat)
    }
}

/// The card of upgrade `def` for the player's meta-progression, when the
/// next tier costs `cost`.
pub fn upgrade_card(def: &UpgradeDef, meta: &MetaProgression, cost: u64) -> (card: UpgradeCard)
    ensures
        ({
            let tier = current_tier(meta@.upgrades, def.id@);
            &&& card.state == card_state(tier, def.max_tier, cost, meta.dark_essence)
            &&& card.tier_text@ == tier_text_of(tier, def.max_tier)
            &&& match card.cost_text {
                Some(t) => tier < def.max_tier && t@ == "Cost: "@ + decimal_digits(cost as nat)
                    + " DE"@,
                None => tier >= def.max_tier,
            }
        }),
{
    let tier = match find_upgrade_tier(&meta.upgrades, def.id) {
        Some(k) => meta.upgrades[k].tier,
        None => 0,
    };
    assert(tier == current_tier(meta@.upgrades, def.id@));
    if tier >= def.max_tier {
        return UpgradeCard {
            state: CardState::Maxed,
            tier_text: String::from_str("MAXED"),
            cost_text: None,
        };
    }
    let state = if meta.dark_essence >= cost {
        CardState::Affordable
    } else {
        CardState::Unaffordable
    };
    let mut tier_text = String::from_str("Tier ");
    push_decimal(&mut tier_text, tier as u64);
    tier_text.append("/");
    push_decimal(&mut tier_text, def.max_tier as u64);
    let mut cost_text = String::from_str("Cost: ");
    push_decimal(&mut cost_text, cost);
    cost_text.append(" DE");
    UpgradeCard { state, tier_text, cost_text: Some(cost_text) }
}

/// A card below its maximum tier can be bought exactly when the Dark
/// Essence held covers the price, holding exactly the price included; more
/// essence never makes a buyable card unaffordable.
pub proof fn law_card_affordable_when_covered(tier: u32, max_tier: u32, cost: u64, essence: u64)
    requires
        tier < max_tier,
    ensures
        (card_state(tier, max_tier, cost, essence) == CardState::Affordable) <==> cost <= essence,
        card_state(tier, max_tier, cost, cost) == CardState::Affordable,
        card_state(tier, max_tier, cost, essence) == CardState::Affordable ==> forall|more: u64| more >= essence ==> #[trigger] card_state(tier, max_tier, cost, more)
                == CardState::Affordable,
{
}

/// The card of a catalog upgrade agrees with buying it at the card's
/// price: it is a buy button exactly when the purchase goes through, shows
/// the upgrade maxed exactly when the purchase is refused at the maximum
/// tier, and is unaffordable exactly when the purchase is refused for want
/// of Dark Essence.
pub proof fn law_card_agrees_with_purchase(m: MetaView, id: Seq<char>, cost: u64)
    requires
        def_position(upgrade_catalog(), id) is Some,
    ensures
        ({
            let d = upgrade_catalog()[def_position(upgrade_catalog(), id)->0];
            let state = card_state(current_tier(m.upgrades, id), d.max_tier, cost, m.dark_essence);
            let outcome = purchase_outcome(m, id, cost).0;
            &&& (state == CardState::Affordable) <==> outcome is Ok
            &&& (state == CardState::Maxed) <==> outcome == Err::<(), PurchaseError>(
                PurchaseError::MaxTier,
            )
            &&& (state == CardState::Unaffordable) <==> (outcome is Err && outcome->Err_0
                is InsufficientEssence)
        }),
{
}

/// The categories of the upgrade tree, in display order, with their titles.
pub open spec fn tree_categories() -> Seq<(UpgradeCategory, Seq<char>)> {
    seq![
        (UpgradeCategory::Stats, "Stats"@),
        (UpgradeCategory::Weapons, "Weapon Unlocks"@),
        (UpgradeCategory::Utility, "Utility"@),
        (UpgradeCategory::Classes, "Classes"@),
    ]
}

/// A section of the upgrade tree: a category, its title, and the positions
/// of its upgrades in the definition list, in list order.
pub struct TreeSection {
    pub category: UpgradeCategory,
    pub title: &'static str,
    pub defs: Vec<usize>,
}

/// Positions of the definitions of category `c` among the first `n`.
pub open spec fn positions_in(defs: Seq<UpgradeDefView>, c: UpgradeCategory, n: int) -> Seq<usize>
    decreases n,
{
    if n <= 0 {
        Seq::empty()
    } else if defs[n - 1].category == c {
        positions_in(defs, c, n - 1).push((n - 1) as usize)
    } else {
        positions_in(defs, c, n - 1)
    }
}

/// The sections of the tree, leaving out categories without upgrades.
pub open spec fn tree_sections(defs: Seq<UpgradeDefView>, k: int) -> Seq<
    (UpgradeCategory, Seq<char>, Seq<usize>),
>
    decreases k,
{
    if k <= 0 {
        Seq::empty()
    } else {
        let (c, title) = tree_categories()[k - 1];
        let ps = positions_in(defs, c, defs.len() as int);
        if ps.len() == 0 {
            tree_sections(defs, k - 1)
        } else {
            tree_sections(defs, k - 1).push((c, title, ps))
        }
    }
}

/// Views of a list of sections.
pub open spec fn section_views(s: Seq<TreeSection>) -> Seq<(UpgradeCategory, Seq<char>, Seq<usize>)> {
    s.map_values(|t: TreeSection| (t.category, t.title@, t.defs@))
}

/// The positions of the definitions of one category.
fn category_positions(defs: &Vec<UpgradeDef>, c: UpgradeCategory) -> (ps: Vec<usize>)
    ensures
        ps@ == positions_in(def_views(defs@), c, defs.len() as int),
{
    let ghost views = def_views(defs@);
    let mut ps: Vec<usize> = Vec::new();
    let mut i: usize = 0;
    while i < defs.len()
        invariant
            i <= defs.len(),
            views == def_views(defs@),
            ps@ == positions_in(views, c, i as int),
        decreases defs.len() - i,
    {
        if defs[i].category == c {
            ps.push(i);
        }
        i = i + 1;
    }
    ps
}

/// Adds the section of one category when it has upgrades.
fn push_section(
    out: &mut Vec<TreeSection>,
    defs: &Vec<UpgradeDef>,
    c: UpgradeCategory,
    title: &'static str,
)
    ensures
        ({
            let ps = positions_in(def_views(defs@), c, defs.len() as int);
            section_views(final(out)@) == if ps.len() == 0 {
                section_views(old(out)@)
            } else {
                section_views(old(out)@).push((c, title@, ps))
            }
        }),
{
    let ps = category_positions(defs, c);
    if ps.len() > 0 {
        let ghost before = out@;
        let ghost pv = ps@;
        out.push(TreeSection { category: c, title, defs: ps });
        assert(section_views(out@) =~= section_views(before).push((c, title@, pv)));
    }
}

/// The sections of the upgrade tree for the definitions `defs`: Stats,
/// Weapon Unlocks, Utility and Classes, each listing its upgrades in order,
/// and leaving out categories without upgrades.
pub fn upgrade_tree_sections(defs: &Vec<UpgradeDef>) -> (s: Vec<TreeSection>)
    ensures
        section_views(s@) == tree_sections(def_views(defs@), 4),
{
    let mut out: Vec<TreeSection> = Vec::new();
    assert(section_views(out@) =~= tree_sections(def_views(defs@), 0));
    push_section(&mut out, defs, UpgradeCategory::Stats, "Stats");
    assert(section_views(out@) == tree_sections(def_views(defs@), 1));
    push_section(&mut out, defs, UpgradeCategory::Weapons, "Weapon Unlocks");
    assert(section_views(out@) == tree_sections(def_views(defs@), 2));
    push_section(&mut out, defs, UpgradeCategory::Utility, "Utility");
    assert(section_views(out@) == tree_sections(def_views(defs@), 3));
    push_section(&mut out, defs, UpgradeCategory::Classes, "Classes");
    out
}

/// Title of the upgrade tree screen.
pub fn upgrade_tree_title(dark_essence: u64) -> (s: String)
    ensures
        s@ == "Meta-Progression \u{2014} Dark Essence: "@ + decimal_digits(dark_essence as nat),
{
    let mut s = String::from_str("Meta-Progression \u{2014} Dark Essence: ");
    push_decimal(&mut s, dark_essence);
    s
}

} // verus!

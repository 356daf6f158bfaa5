//! Meta-progression state that persists across runs.

use vstd::prelude::*;

verus! {

/// The purchased tier of one permanent upgrade.
#[derive(Clone)]
pub struct UpgradeTier {
    /// Id of the upgrade definition.
    pub id: String,
    /// Number of tiers bought so far.
    pub tier: u32,
    /// Dark Essence paid for the most recent tier.
    pub cost: u64,
}

/// Mathematical view of an [`UpgradeTier`].
pub struct UpgradeTierView {
    pub id: Seq<char>,
    pub tier: u32,
    pub cost: u64,
}

impl View for UpgradeTier {
    type V = UpgradeTierView;

    open spec fn view(&self) -> UpgradeTierView {
        UpgradeTierView { id: self.id@, tier: self.tier, cost: self.cost }
    }
}

impl UpgradeTier {
    /// A field-by-field copy.
    pub fn duplicate(&self) -> (r: UpgradeTier)
        ensures
            r@ == self@,
    {
        UpgradeTier { id: self.id.clone(), tier: self.tier, cost: self.cost }
    }
}

/// Global meta-progression: currencies, run statistics, unlocks and upgrades.
#[derive(Clone)]
pub struct MetaProgression {
    /// Dark Essence, the currency spent on permanent upgrades.
    pub dark_essence: u64,
    pub gold: u64,
    pub total_runs: u32,
    pub completed_runs: u32,
    pub highest_wave: u32,
    pub unlocks: Vec<String>,
    pub upgrades: Vec<UpgradeTier>,
}

/// Mathematical view of a [`MetaProgression`].
pub struct MetaView {
    pub dark_essence: u64,
    pub gold: u64,
    pub total_runs: u32,
    pub completed_runs: u32,
    pub highest_wave: u32,
    pub unlocks: Seq<Seq<char>>,
    pub upgrades: Seq<UpgradeTierView>,
}

impl View for MetaProgression {
    type V = MetaView;

    open spec fn view(&self) -> MetaView {
        MetaView {
            dark_essence: self.dark_essence,
            gold: self.gold,
            total_runs: self.total_runs,
            completed_runs: self.completed_runs,
            highest_wave: self.highest_wave,
            unlocks: self.unlocks@.map_values(|s: String| s@),
            upgrades: self.upgrades@.map_values(|u: UpgradeTier| u@),
        }
    }
}

/// The state of a fresh profile: no currency, no runs, nothing unlocked.
pub open spec fn empty_meta() -> MetaView {
    MetaView {
        dark_essence: 0,
        gold: 0,
        total_runs: 0,
        completed_runs: 0,
        highest_wave: 0,
        unlocks: Seq::empty(),
        upgrades: Seq::empty(),
    }
}

impl Default for MetaProgression {
    fn default() -> (r: MetaProgression)
        ensures
            r@ == empty_meta(),
    {
        let r = MetaProgression {
            dark_essence: 0,
            gold: 0,
            total_runs: 0,
            completed_runs: 0,
            highest_wave: 0,
            unlocks: Vec::new(),
            upgrades: Vec::new(),
        };
        proof {
            assert(r@.unlocks =~= Seq::<Seq<char>>::empty());
            assert(r@.upgrades =~= Seq::<UpgradeTierView>::empty());
        }
        r
    }
}

impl MetaProgression {
    /// Adds Dark Essence, saturating at the largest `u64`.
    pub fn add_dark_essence(&mut self, amount: u64)
        ensures
            final(self)@ == (MetaView {
                dark_essence: if old(self).dark_essence + amount > u64::MAX {
                    u64::MAX
                } else {
                    (old(self).dark_essence + amount) as u64
                },
                ..old(self)@
            }),
    {
        self.dark_essence = self.dark_essence.saturating_add(amount);
    }

    /// A field-by-field copy.
    pub fn duplicate(&self) -> (r: MetaProgression)
        ensures
            r@ == self@,
    {
        let mut unlocks: Vec<String> = Vec::new();
        let mut i: usize = 0;
        while i < self.unlocks.len()
            invariant
                i <= self.unlocks.len(),
                unlocks.len() == i,
                forall|j: int| 0 <= j < i ==> unlocks@[j]@ == self.unlocks@[j]@,
            decreases self.unlocks.len() - i,
        {
            unlocks.push(self.unlocks[i].clone());
            i = i + 1;
        }
        let mut upgrades: Vec<UpgradeTier> = Vec::new();
        let mut k: usize = 0;
        while k < self.upgrades.len()
            invariant
                k <= self.upgrades.len(),
                upgrades.len() == k,
                forall|j: int| 0 <= j < k ==> upgrades@[j]@ == self.upgrades@[j]@,
            decreases self.upgrades.len() - k,
        {
            upgrades.push(self.upgrades[k].duplicate());
            k = k + 1;
        }
        proof {
            assert(unlocks@.map_values(|s: String| s@) =~= self.unlocks@.map_values(|s: String| s@));
            assert(upgrades@.map_values(|u: UpgradeTier| u@) =~= self.upgrades@.map_values(|u: UpgradeTier| u@));
        }
        MetaProgression {
            dark_essence: self.dark_essence,
            gold: self.gold,
            total_runs: self.total_runs,
            completed_runs: self.completed_runs,
            highest_wave: self.highest_wave,
            unlocks,
            upgrades,
        }
    }
}

} // verus!

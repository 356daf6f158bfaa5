//! The 3D-model asset pipeline's bookkeeping: model slots and their
//! categories, the registry of loaded scenes, and weapon and pickup
//! bindings. Scene handles are opaque values of the caller's type `H`.

use vstd::prelude::*;
use crate::strmap::{has_key, lookup, StringMap};
use crate::text::{concat2, concat3, str_contains_char, str_starts_with};

verus! {

/// Kinds of models.
#[derive(Clone, Copy, Debug, PartialEq, Eq, Hash, Structural)]
pub enum ModelCategory {
    Character,
    Enemy,
    Weapon,
    Pickup,
    Environment,
    Projectile,
}

/// Key prefix of a category.
pub open spec fn category_key(c: ModelCategory) -> Seq<char> {
    match c {
        ModelCategory::Character => "character"@,
        ModelCategory::Enemy => "enemy"@,
        ModelCategory::Weapon => "weapon"@,
        ModelCategory::Pickup => "pickup"@,
        ModelCategory::Environment => "env"@,
        ModelCategory::Projectile => "projectile"@,
    }
}

impl ModelCategory {
    /// Key prefix of the category.
    pub fn as_str(&self) -> (s: &'static str)
        ensures
            s@ == category_key(*self),
    {
        match self {
            ModelCategory::Character => "character",
            ModelCategory::Enemy => "enemy",
            ModelCategory::Weapon => "weapon",
            ModelCategory::Pickup => "pickup",
            ModelCategory::Environment => "env",
            ModelCategory::Projectile => "projectile",
        }
    }
}

/// Bit pattern of the single-precision scale 1.0.
pub const UNIT_SCALE_BITS: u32 = 0x3f80_0000;

/// A model slot attached to an entity; `scale_bits` is the bit pattern of
/// the single-precision scale.
pub struct ModelSlot {
    pub category: ModelCategory,
    pub name: String,
    pub scale_bits: u32,
    pub spawned: bool,
}

impl ModelSlot {
    /// A slot at unit scale, not yet spawned.
    pub fn new(category: ModelCategory, name: &str) -> (s: ModelSlot)
        ensures
            s.category == category && s.name@ == name@ && s.scale_bits == UNIT_SCALE_BITS
                && !s.spawned,
    {
        ModelSlot { category, name: name.to_owned(), scale_bits: UNIT_SCALE_BITS, spawned: false }
    }

    /// The same slot with another scale.
    pub fn with_scale(self, scale_bits: u32) -> (s: ModelSlot)
        ensures
            s.category == self.category && s.name@ == self.name@ && s.scale_bits == scale_bits
                && s.spawned == self.spawned,
    {
        ModelSlot { scale_bits, ..self }
    }

    /// The slot of a character model.
    pub fn from_character(cm: CharacterModel) -> (s: ModelSlot)
        ensures
            s.category == ModelCategory::Character && s.name@ == character_model_name(cm)
                && s.scale_bits == UNIT_SCALE_BITS && !s.spawned,
    {
        let name = match cm {
            CharacterModel::Warrior => "Warrior",
            CharacterModel::Paladin => "Paladin",
            CharacterModel::Rogue => "Rogue",
            CharacterModel::Hunter => "Hunter",
            CharacterModel::Mage => "Mage",
        };
        ModelSlot::new(ModelCategory::Character, name)
    }

    /// The slot of an enemy model.
    pub fn from_enemy(em: EnemyModel) -> (s: ModelSlot)
        ensures
            s.category == ModelCategory::Enemy && s.name@ == enemy_model_name(em) && s.scale_bits
                == UNIT_SCALE_BITS && !s.spawned,
    {
        let name = match em {
            EnemyModel::Grunt => "Grunt",
            EnemyModel::Ranged => "Ranged",
            EnemyModel::Charger => "Charger",
            EnemyModel::Elite => "Elite",
            EnemyModel::Boss => "Boss",
        };
        ModelSlot::new(ModelCategory::Enemy, name)
    }
}

/// Character models.
#[derive(Clone, Copy, Debug, PartialEq, Eq, Structural)]
pub enum CharacterModel {
    Warrior,
    Paladin,
    Rogue,
    Hunter,
    Mage,
}

/// Name of a character model's slot.
pub open spec fn character_model_name(cm: CharacterModel) -> Seq<char> {
    match cm {
        CharacterModel::Warrior => "Warrior"@,
        CharacterModel::Paladin => "Paladin"@,
        CharacterModel::Rogue => "Rogue"@,
        CharacterModel::Hunter => "Hunter"@,
        CharacterModel::Mage => "Mage"@,
    }
}

/// Enemy models.
#[derive(Clone, Copy, Debug, PartialEq, Eq, Structural)]
pub enum EnemyModel {
    Grunt,
    Ranged,
    Charger,
    Elite,
    Boss,
}

/// Name of an enemy model's slot.
pub open spec fn enemy_model_name(em: EnemyModel) -> Seq<char> {
    match em {
        EnemyModel::Grunt => "Grunt"@,
        EnemyModel::Ranged => "Ranged"@,
        EnemyModel::Charger => "Charger"@,
        EnemyModel::Elite => "Elite"@,
        EnemyModel::Boss => "Boss"@,
    }
}

/// The registry key of a model: its category, a slash, and its name.
pub open spec fn slot_key(category: Seq<char>, name: Seq<char>) -> Seq<char> {
    category + "/"@ + name
}

/// The registry key `category/name`.
pub fn model_key(category: &str, name: &str) -> (k: String)
    ensures
        k@ == slot_key(category@, name@),
{
    concat3(category, "/", name)
}

/// Loaded scenes by model key.
pub struct ModelSlotRegistry<H> {
    pub scenes: StringMap<H>,
}

impl<H> ModelSlotRegistry<H> {
    /// An empty registry.
    pub fn new() -> (r: ModelSlotRegistry<H>)
        ensures
            r.scenes.view_entries().len() == 0,
            r.scenes.well_formed(),
    {
        ModelSlotRegistry { scenes: StringMap::new() }
    }

    /// The scene of model `category/name`.
    pub fn get(&self, category: &str, name: &str) -> (r: Option<&H>)
        ensures
            match r {
                Some(h) => lookup(self.scenes.view_entries(), slot_key(category@, name@)) == Some(
                    *h,
                ),
                None => lookup(self.scenes.view_entries(), slot_key(category@, name@)) is None,
            },
    {
        let key = model_key(category, name);
        self.scenes.get(key.as_str())
    }

    /// Whether model `category/name` is loaded.
    pub fn has(&self, category: &str, name: &str) -> (b: bool)
        ensures
            b == has_key(self.scenes.view_entries(), slot_key(category@, name@)),
    {
        let key = model_key(category, name);
        self.scenes.contains_key(key.as_str())
    }

    /// Whether some loaded model's key starts with `category`.
    pub fn has_category(&self, category: &str) -> (b: bool)
        ensures
            b == exists|i: int|
                0 <= i < self.scenes.view_entries().len() && #[trigger] is_prefix(
                    category@,
                    self.scenes.view_entries()[i].0,
                ),
    {
        let mut i: usize = 0;
        while i < self.scenes.entries.len()
            invariant
                i <= self.scenes.entries.len(),
                forall|j: int|
                    0 <= j < i ==> !#[trigger] is_prefix(category@, self.scenes.view_entries()[j].0),
            decreases self.scenes.entries.len() - i,
        {
            if str_starts_with(self.scenes.entries[i].0.as_str(), category) {
                assert(is_prefix(category@, self.scenes.view_entries()[i as int].0));
                return true;
            }
            i = i + 1;
        }
        false
    }

    /// Number of loaded models.
    pub fn count(&self) -> (n: usize)
        ensures
            n == self.scenes.view_entries().len(),
    {
        self.scenes.len()
    }
}

/// `p` is a prefix of `s`.
pub open spec fn is_prefix(p: Seq<char>, s: Seq<char>) -> bool {
    p.len() <= s.len() && s.subrange(0, p.len() as int) == p
}

/// Weapon and pickup kinds bound to model slots.
pub struct ModelBindingRegistry {
    /// Weapon kind names (e.g. "Sword") to their model slots.
    pub weapon_bindings: StringMap<ModelSlot>,
    /// Pickup kind names (e.g. "Health") to their model slots.
    pub pickup_bindings: StringMap<ModelSlot>,
    /// Per-instance overrides for specific items.
    pub item_overrides: StringMap<ModelSlot>,
}

impl ModelBindingRegistry {
    /// No bindings.
    pub fn new() -> (r: ModelBindingRegistry)
        ensures
            r.well_formed(),
            r.weapon_bindings.view_entries().len() == 0,
            r.pickup_bindings.view_entries().len() == 0,
            r.item_overrides.view_entries().len() == 0,
    {
        ModelBindingRegistry {
            weapon_bindings: StringMap::new(),
            pickup_bindings: StringMap::new(),
            item_overrides: StringMap::new(),
        }
    }

    /// No kind is bound twice.
    pub open spec fn well_formed(&self) -> bool {
        self.weapon_bindings.well_formed() && self.pickup_bindings.well_formed()
            && self.item_overrides.well_formed()
    }

    /// Binds a weapon kind to a slot, replacing any earlier binding.
    pub fn bind_weapon(&mut self, weapon_kind: &str, slot: ModelSlot)
        requires
            old(self).well_formed(),
        ensures
            final(self).well_formed(),
            lookup(final(self).weapon_bindings.view_entries(), weapon_kind@) == Some(slot),
            forall|k: Seq<char>|
                k != weapon_kind@ ==> #[trigger] lookup(final(self).weapon_bindings.view_entries(), k)
                    == lookup(old(self).weapon_bindings.view_entries(), k),
            final(self).pickup_bindings == old(self).pickup_bindings,
            final(self).item_overrides == old(self).item_overrides,
    {
        self.weapon_bindings.insert(weapon_kind.to_owned(), slot);
    }

    /// Binds a pickup kind to a slot, replacing any earlier binding.
    pub fn bind_pickup(&mut self, pickup_kind: &str, slot: ModelSlot)
        requires
            old(self).well_formed(),
        ensures
            final(self).well_formed(),
            lookup(final(self).pickup_bindings.view_entries(), pickup_kind@) == Some(slot),
            forall|k: Seq<char>|
                k != pickup_kind@ ==> #[trigger] lookup(final(self).pickup_bindings.view_entries(), k)
                    == lookup(old(self).pickup_bindings.view_entries(), k),
            final(self).weapon_bindings == old(self).weapon_bindings,
            final(self).item_overrides == old(self).item_overrides,
    {
        self.pickup_bindings.insert(pickup_kind.to_owned(), slot);
    }

    /// The slot bound to a weapon kind.
    pub fn weapon_slot(&self, weapon_kind: &str) -> (r: Option<&ModelSlot>)
        ensures
            match r {
                Some(s) => lookup(self.weapon_bindings.view_entries(), weapon_kind@) == Some(*s),
                None => lookup(self.weapon_bindings.view_entries(), weapon_kind@) is None,
            },
    {
        self.weapon_bindings.get(weapon_kind)
    }

    /// The slot bound to a pickup kind.
    pub fn pickup_slot(&self, pickup_kind: &str) -> (r: Option<&ModelSlot>)
        ensures
            match r {
                Some(s) => lookup(self.pickup_bindings.view_entries(), pickup_kind@) == Some(*s),
                None => lookup(self.pickup_bindings.view_entries(), pickup_kind@) is None,
            },
    {
        self.pickup_bindings.get(pickup_kind)
    }
}

/// A binding of kind `k` to a slot of category `c` named `n`, at unit scale.
pub open spec fn bound_to(
    b: Seq<(Seq<char>, ModelSlot)>,
    k: Seq<char>,
    c: ModelCategory,
    n: Seq<char>,
) -> bool {
    lookup(b, k) matches Some(s) && s.category == c && s.name@ == n && s.scale_bits
        == UNIT_SCALE_BITS && !s.spawned
}

/// The weapon kinds that have a built-in binding.
pub open spec fn default_weapon_kind(k: Seq<char>) -> bool {
    k == "Dagger"@ || k == "Sword"@ || k == "Bow"@ || k == "Staff"@ || k == "Aura"@ || k
        == "Whip"@ || k == "MagicMissile"@
}

/// The pickup kinds that have a built-in binding.
pub open spec fn default_pickup_kind(k: Seq<char>) -> bool {
    k == "Health"@ || k == "Gold"@ || k == "TemporaryBoost"@
}

/// Binds the built-in weapons and pickups to their models; every other
/// binding and every item override is kept.
pub fn register_default_bindings(bindings: &mut ModelBindingRegistry)
    requires
        old(bindings).well_formed(),
    ensures
        final(bindings).well_formed(),
        bound_to(final(bindings).weapon_bindings.view_entries(), "Dagger"@, ModelCategory::Weapon, "Dagger"@),
        bound_to(final(bindings).weapon_bindings.view_entries(), "Sword"@, ModelCategory::Weapon, "Sword"@),
        bound_to(final(bindings).weapon_bindings.view_entries(), "Bow"@, ModelCategory::Weapon, "Bow"@),
        bound_to(final(bindings).weapon_bindings.view_entries(), "Staff"@, ModelCategory::Weapon, "Staff"@),
        bound_to(final(bindings).weapon_bindings.view_entries(), "Aura"@, ModelCategory::Weapon, "Aura"@),
        bound_to(final(bindings).weapon_bindings.view_entries(), "Whip"@, ModelCategory::Weapon, "Whip"@),
        bound_to(final(bindings).weapon_bindings.view_entries(), "MagicMissile"@, ModelCategory::Projectile, "MagicMissile"@),
        bound_to(final(bindings).pickup_bindings.view_entries(), "Health"@, ModelCategory::Pickup, "Health"@),
        bound_to(final(bindings).pickup_bindings.view_entries(), "Gold"@, ModelCategory::Pickup, "Gold"@),
        bound_to(final(bindings).pickup_bindings.view_entries(), "TemporaryBoost"@, ModelCategory::Pickup, "TemporaryBoost"@),
        forall|k: Seq<char>|
            !default_weapon_kind(k) ==> #[trigger] lookup(final(bindings).weapon_bindings.view_entries(), k)
                == lookup(old(bindings).weapon_bindings.view_entries(), k),
        forall|k: Seq<char>|
            !default_pickup_kind(k) ==> #[trigger] lookup(final(bindings).pickup_bindings.view_entries(), k)
                == lookup(old(bindings).pickup_bindings.view_entries(), k),
        final(bindings).item_overrides == old(bindings).item_overrides,
{
    proof {
        reveal_strlit("Dagger");
        reveal_strlit("Sword");
        reveal_strlit("Bow");
        reveal_strlit("Staff");
        reveal_strlit("Aura");
        reveal_strlit("Whip");
        reveal_strlit("MagicMissile");
        reveal_strlit("Health");
        reveal_strlit("Gold");
        reveal_strlit("TemporaryBoost");
    }
    bindings.bind_weapon("Dagger", ModelSlot::new(ModelCategory::Weapon, "Dagger"));
    assert(bound_to(bindings.weapon_bindings.view_entries(), "Dagger"@, ModelCategory::Weapon, "Dagger"@));
    bindings.bind_weapon("Sword", ModelSlot::new(ModelCategory::Weapon, "Sword"));
    assert(bound_to(bindings.weapon_bindings.view_entries(), "Dagger"@, ModelCategory::Weapon, "Dagger"@));
    assert(bound_to(bindings.weapon_bindings.view_entries(), "Sword"@, ModelCategory::Weapon, "Sword"@));
    bindings.bind_weapon("Bow", ModelSlot::new(ModelCategory::Weapon, "Bow"));
    assert(bound_to(bindings.weapon_bindings.view_entries(), "Dagger"@, ModelCategory::Weapon, "Dagger"@));
    assert(bound_to(bindings.weapon_bindings.view_entries(), "Sword"@, ModelCategory::Weapon, "Sword"@));
    assert(bound_to(bindings.weapon_bindings.view_entries(), "Bow"@, ModelCategory::Weapon, "Bow"@));
    bindings.bind_weapon("Staff", ModelSlot::new(ModelCategory::Weapon, "Staff"));
    assert(bound_to(bindings.weapon_bindings.view_entries(), "Dagger"@, ModelCategory::Weapon, "Dagger"@));
    assert(bound_to(bindings.weapon_bindings.view_entries(), "Sword"@, ModelCategory::Weapon, "Sword"@));
    assert(bound_to(bindings.weapon_bindings.view_entries(), "Bow"@, ModelCategory::Weapon, "Bow"@));
    assert(bound_to(bindings.weapon_bindings.view_entries(), "Staff"@, ModelCategory::Weapon, "Staff"@));
    bindings.bind_weapon("Aura", ModelSlot::new(ModelCategory::Weapon, "Aura"));
    assert(bound_to(bindings.weapon_bindings.view_entries(), "Dagger"@, ModelCategory::Weapon, "Dagger"@));
    assert(bound_to(bindings.weapon_bindings.view_entries(), "Sword"@, ModelCategory::Weapon, "Sword"@));
    assert(bound_to(bindings.weapon_bindings.view_entries(), "Bow"@, ModelCategory::Weapon, "Bow"@));
    assert(bound_to(bindings.weapon_bindings.view_entries(), "Staff"@, ModelCategory::Weapon, "Staff"@));
    assert(bound_to(bindings.weapon_bindings.view_entries(), "Aura"@, ModelCategory::Weapon, "Aura"@));
    bindings.bind_weapon("Whip", ModelSlot::new(ModelCategory::Weapon, "Whip"));
    assert(bound_to(bindings.weapon_bindings.view_entries(), "Dagger"@, ModelCategory::Weapon, "Dagger"@));
    assert(bound_to(bindings.weapon_bindings.view_entries(), "Sword"@, ModelCategory::Weapon, "Sword"@));
    assert(bound_to(bindings.weapon_bindings.view_entries(), "Bow"@, ModelCategory::Weapon, "Bow"@));
    assert(bound_to(bindings.weapon_bindings.view_entries(), "Staff"@, ModelCategory::Weapon, "Staff"@));
    assert(bound_to(bindings.weapon_bindings.view_entries(), "Aura"@, ModelCategory::Weapon, "Aura"@));
    assert(bound_to(bindings.weapon_bindings.view_entries(), "Whip"@, ModelCategory::Weapon, "Whip"@));
    assert("MagicMissile"@.len() == 12 && "Dagger"@.len() == 6 && "Sword"@.len() == 5);
    bindings.bind_weapon("MagicMissile", ModelSlot::new(ModelCategory::Projectile, "MagicMissile"));
    assert(bound_to(bindings.weapon_bindings.view_entries(), "Dagger"@, ModelCategory::Weapon, "Dagger"@));
    assert(bound_to(bindings.weapon_bindings.view_entries(), "Sword"@, ModelCategory::Weapon, "Sword"@));
    assert(bound_to(bindings.weapon_bindings.view_entries(), "Bow"@, ModelCategory::Weapon, "Bow"@));
    assert(bound_to(bindings.weapon_bindings.view_entries(), "Staff"@, ModelCategory::Weapon, "Staff"@));
    assert(bound_to(bindings.weapon_bindings.view_entries(), "Aura"@, ModelCategory::Weapon, "Aura"@));
    assert(bound_to(bindings.weapon_bindings.view_entries(), "Whip"@, ModelCategory::Weapon, "Whip"@));
    assert(bound_to(bindings.weapon_bindings.view_entries(), "MagicMissile"@, ModelCategory::Projectile, "MagicMissile"@));
    bindings.bind_pickup("Health", ModelSlot::new(ModelCategory::Pickup, "Health"));
    assert(bound_to(bindings.pickup_bindings.view_entries(), "Health"@, ModelCategory::Pickup, "Health"@));
    bindings.bind_pickup("Gold", ModelSlot::new(ModelCategory::Pickup, "Gold"));
    assert(bound_to(bindings.pickup_bindings.view_entries(), "Health"@, ModelCategory::Pickup, "Health"@));
    assert(bound_to(bindings.pickup_bindings.view_entries(), "Gold"@, ModelCategory::Pickup, "Gold"@));
    bindings.bind_pickup("TemporaryBoost", ModelSlot::new(ModelCategory::Pickup, "TemporaryBoost"));
    assert(bound_to(bindings.pickup_bindings.view_entries(), "Health"@, ModelCategory::Pickup, "Health"@));
    assert(bound_to(bindings.pickup_bindings.view_entries(), "Gold"@, ModelCategory::Pickup, "Gold"@));
    assert(bound_to(bindings.pickup_bindings.view_entries(), "TemporaryBoost"@, ModelCategory::Pickup, "TemporaryBoost"@));
}

/// The slots given to weapon and pickup entities that have none: a sword
/// for weapons while no weapon model is loaded, a health pickup for pickups
/// while no pickup model is loaded (`None` when models of the category are
/// loaded).
pub fn auto_bind_item_models<H>(registry: &ModelSlotRegistry<H>) -> (r: (
    Option<ModelSlot>,
    Option<ModelSlot>,
))
    ensures
        match r.0 {
            Some(s) => !(exists|i: int|
                0 <= i < registry.scenes.view_entries().len() && #[trigger] is_prefix(
                    "weapon"@,
                    registry.scenes.view_entries()[i].0,
                )) && s.category == ModelCategory::Weapon && s.name@ == "Sword"@,
            None => exists|i: int|
                0 <= i < registry.scenes.view_entries().len() && #[trigger] is_prefix(
                    "weapon"@,
                    registry.scenes.view_entries()[i].0,
                ),
        },
        match r.1 {
            Some(s) => !(exists|i: int|
                0 <= i < registry.scenes.view_entries().len() && #[trigger] is_prefix(
                    "pickup"@,
                    registry.scenes.view_entries()[i].0,
                )) && s.category == ModelCategory::Pickup && s.name@ == "Health"@,
            None => exists|i: int|
                0 <= i < registry.scenes.view_entries().len() && #[trigger] is_prefix(
                    "pickup"@,
                    registry.scenes.view_entries()[i].0,
                ),
        },
{
    let weapons = if !registry.has_category(ModelCategory::Weapon.as_str()) {
        Some(ModelSlot::new(ModelCategory::Weapon, "Sword"))
    } else {
        None
    };
    let pickups = if !registry.has_category(ModelCategory::Pickup.as_str()) {
        Some(ModelSlot::new(ModelCategory::Pickup, "Health"))
    } else {
        None
    };
    (weapons, pickups)
}

/// The scene to load for a model path: the path itself when it already
/// names a part (contains `#`), else its first scene.
pub open spec fn scene_path_of(path: Seq<char>) -> Seq<char> {
    if path.contains('#') {
        path
    } else {
        path + "#Scene0"@
    }
}

/// The scene to load for a model path.
pub fn scene_path(path: &str) -> (s: String)
    ensures
        s@ == scene_path_of(path@),
{
    if str_contains_char(path, '#') {
        path.to_owned()
    } else {
        concat2(path, "#Scene0")
    }
}

} // verus!

verus! {

/// The scene to spawn for an entity's model slot: none once the slot's
/// model was spawned, else the loaded scene of `category/name`, if any
/// (entities without one keep their placeholder).
pub fn scene_for_slot<'a, H>(registry: &'a ModelSlotRegistry<H>, slot: &ModelSlot) -> (r: Option<&'a H>)
    ensures
        slot.spawned ==> r is None,
        !slot.spawned ==> match r {
            Some(h) => lookup(
                registry.scenes.view_entries(),
                slot_key(category_key(slot.category), slot.name@),
            ) == Some(*h),
            None => lookup(
                registry.scenes.view_entries(),
                slot_key(category_key(slot.category), slot.name@),
            ) is None,
        },
{
    if slot.spawned {
        return None;
    }
    registry.get(slot.category.as_str(), slot.name.as_str())
}

} // verus!

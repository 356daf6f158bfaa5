//! The asset pipeline's configuration (which model files to load for which
//! model) and the queue that follows their loading. Scene handles are opaque
//! values of the caller's type `H`; the engine that loads them reports each
//! pending model's state.

use vstd::prelude::*;
use crate::models::{model_key, scene_path, scene_path_of, slot_key, ModelSlotRegistry};
use crate::strmap::{
    entry_views, has_key, key_is, keys_distinct, lemma_key_position, lemma_lookup_has_key, lookup,
    StringMap,
};
use crate::search::first_where;

verus! {

/// Animation clips per state: model name to the clip's path.
pub struct AnimationConfig {
    pub idle: StringMap<String>,
    pub run: StringMap<String>,
    pub attack: StringMap<String>,
    pub hit: StringMap<String>,
}

impl AnimationConfig {
    /// No state has a clip.
    pub open spec fn is_empty(&self) -> bool {
        self.idle.view_entries().len() == 0 && self.run.view_entries().len() == 0
            && self.attack.view_entries().len() == 0 && self.hit.view_entries().len() == 0
    }
}

impl Default for AnimationConfig {
    fn default() -> (c: AnimationConfig)
        ensures
            c.is_empty(),
    {
        AnimationConfig {
            idle: StringMap::new(),
            run: StringMap::new(),
            attack: StringMap::new(),
            hit: StringMap::new(),
        }
    }
}

/// Which model file to load for which model, per category.
pub struct AssetPipelineConfig {
    /// Character class name to model path.
    pub characters: StringMap<String>,
    /// Enemy variant name to model path.
    pub enemies: StringMap<String>,
    /// Weapon kind to model path.
    pub weapons: StringMap<String>,
    /// Pickup kind to model path.
    pub pickups: StringMap<String>,
    /// Environment piece name to model path.
    pub environment: StringMap<String>,
    /// Animation clip paths per state.
    pub animations: AnimationConfig,
    /// Model used where a specific one is missing.
    pub fallback_model: Option<String>,
    /// `false` keeps the placeholder shapes even when models are configured.
    pub enabled: bool,
}

impl Default for AssetPipelineConfig {
    fn default() -> (c: AssetPipelineConfig)
        ensures
            c.characters.view_entries().len() == 0,
            c.enemies.view_entries().len() == 0,
            c.weapons.view_entries().len() == 0,
            c.pickups.view_entries().len() == 0,
            c.environment.view_entries().len() == 0,
            c.animations.is_empty(),
            c.fallback_model is None,
            c.enabled,
    {
        AssetPipelineConfig {
            characters: StringMap::new(),
            enemies: StringMap::new(),
            weapons: StringMap::new(),
            pickups: StringMap::new(),
            environment: StringMap::new(),
            animations: AnimationConfig::default(),
            fallback_model: None,
            enabled: true,
        }
    }
}

/// Names and paths of a map of strings.
pub open spec fn string_entries(m: StringMap<String>) -> Seq<(Seq<char>, Seq<char>)> {
    m.entries@.map_values(|p: (String, String)| (p.0@, p.1@))
}

/// A map of strings holding exactly the given entries, in order.
pub open spec fn holds(m: StringMap<String>, e: Seq<(Seq<char>, Seq<char>)>) -> bool {
    m.well_formed() && string_entries(m) == e
}

/// Two names that differ in length or in one of their first two characters.
pub open spec fn differ_early(a: Seq<char>, b: Seq<char>) -> bool {
    a.len() != b.len() || a[0] != b[0] || a[1] != b[1]
}

/// Literal names and paths as character sequences.
pub open spec fn literal_entries(e: Seq<(&'static str, &'static str)>) -> Seq<(Seq<char>, Seq<char>)> {
    e.map_values(|p: (&'static str, &'static str)| (p.0@, p.1@))
}

/// A map of strings from literal entries; the names must be distinct.
fn string_map(e: Vec<(&'static str, &'static str)>) -> (m: StringMap<String>)
    requires
        forall|i: int, j: int|
            0 <= i < j < e.len() ==> differ_early(#[trigger] e@[i].0@, #[trigger] e@[j].0@),
    ensures
        m.well_formed(),
        string_entries(m) == literal_entries(e@),
{
    let mut entries: Vec<(String, String)> = Vec::new();
    let mut i: usize = 0;
    while i < e.len()
        invariant
            i <= e.len(),
            entries.len() == i,
            forall|j: int| 0 <= j < i ==> #[trigger] entries@[j].0@ == e@[j].0@ && entries@[j].1@
                == e@[j].1@,
        decreases e.len() - i,
    {
        let (k, v) = e[i];
        entries.push((k.to_owned(), v.to_owned()));
        i = i + 1;
    }
    let m = StringMap { entries };
    proof {
        assert(string_entries(m) =~= literal_entries(e@));
        assert forall|a: int, b: int|
            0 <= a < b < m.view_entries().len() implies #[trigger] m.view_entries()[a].0
            != #[trigger] m.view_entries()[b].0 by {
            assert(m.view_entries()[a].0 == e@[a].0@);
            assert(m.view_entries()[b].0 == e@[b].0@);
            assert(differ_early(e@[a].0@, e@[b].0@));
        }
    }
    m
}

} // verus!

verus! {

/// The configuration written out as a template for the user to edit.
pub fn generate_template_config() -> (c: AssetPipelineConfig)
    ensures
        holds(c.characters, seq![
            ("Warrior"@, "models/warrior.glb"@),
            ("Paladin"@, "models/paladin.glb"@),
            ("Rogue"@, "models/rogue.glb"@),
            ("Hunter"@, "models/hunter.glb"@),
            ("Mage"@, "models/mage.glb"@),
        ]),
        holds(c.enemies, seq![
            ("Grunt"@, "models/enemies/grunt.glb"@),
            ("Ranged"@, "models/enemies/ranged.glb"@),
            ("Charger"@, "models/enemies/charger.glb"@),
            ("Elite"@, "models/enemies/elite.glb"@),
            ("Boss"@, "models/enemies/boss.glb"@),
        ]),
        holds(c.weapons, seq![
            ("Dagger"@, "models/weapons/dagger.glb"@),
            ("Sword"@, "models/weapons/sword.glb"@),
            ("Bow"@, "models/weapons/bow.glb"@),
            ("Staff"@, "models/weapons/staff.glb"@),
            ("Aura"@, "models/weapons/aura.glb"@),
            ("Whip"@, "models/weapons/whip.glb"@),
            ("MagicMissile"@, "models/weapons/magic_missile.glb"@),
        ]),
        holds(c.pickups, seq![
            ("Health"@, "models/pickups/health.glb"@),
            ("Gold"@, "models/pickups/gold.glb"@),
            ("TemporaryBoost"@, "models/pickups/temp_boost.glb"@),
        ]),
        holds(c.environment, Seq::empty()),
        holds(c.animations.idle, seq![
            ("Warrior"@, "models/warrior.glb#Animation0"@),
            ("Mage"@, "models/mage.glb#Animation0"@),
        ]),
        holds(c.animations.run, seq![
            ("Warrior"@, "models/warrior.glb#Animation1"@),
            ("Mage"@, "models/mage.glb#Animation1"@),
        ]),
        holds(c.animations.attack, seq![("Sword"@, "models/weapons/sword.glb#Animation0"@)]),
        holds(c.animations.hit, seq![("default"@, "models/shared/hit.glb#Animation0"@)]),
        c.fallback_model matches Some(f) && f@ == "models/fallback.glb"@,
        c.enabled,
{
    proof {
        reveal_strlit("Aura");
        reveal_strlit("Boss");
        reveal_strlit("Bow");
        reveal_strlit("Charger");
        reveal_strlit("Dagger");
        reveal_strlit("Elite");
        reveal_strlit("Gold");
        reveal_strlit("Grunt");
        reveal_strlit("Health");
        reveal_strlit("Hunter");
        reveal_strlit("Mage");
        reveal_strlit("MagicMissile");
        reveal_strlit("Paladin");
        reveal_strlit("Ranged");
        reveal_strlit("Rogue");
        reveal_strlit("Staff");
        reveal_strlit("Sword");
        reveal_strlit("TemporaryBoost");
        reveal_strlit("Warrior");
        reveal_strlit("Whip");
        reveal_strlit("default");
    }
    let characters_list = vec![("Warrior", "models/warrior.glb"), ("Paladin", "models/paladin.glb"), ("Rogue", "models/rogue.glb"), ("Hunter", "models/hunter.glb"), ("Mage", "models/mage.glb")];
    assert(forall|i: int, j: int|
        0 <= i < j < characters_list.len() ==> differ_early(#[trigger] characters_list@[i].0@, #[trigger] characters_list@[j].0@));
    let characters = string_map(characters_list);
    assert(literal_entries(characters_list@) =~= seq![("Warrior"@, "models/warrior.glb"@), ("Paladin"@, "models/paladin.glb"@), ("Rogue"@, "models/rogue.glb"@), ("Hunter"@, "models/hunter.glb"@), ("Mage"@, "models/mage.glb"@)]);
    let enemies_list = vec![("Grunt", "models/enemies/grunt.glb"), ("Ranged", "models/enemies/ranged.glb"), ("Charger", "models/enemies/charger.glb"), ("Elite", "models/enemies/elite.glb"), ("Boss", "models/enemies/boss.glb")];
    assert(forall|i: int, j: int|
        0 <= i < j < enemies_list.len() ==> differ_early(#[trigger] enemies_list@[i].0@, #[trigger] enemies_list@[j].0@));
    let enemies = string_map(enemies_list);
    assert(literal_entries(enemies_list@) =~= seq![("Grunt"@, "models/enemies/grunt.glb"@), ("Ranged"@, "models/enemies/ranged.glb"@), ("Charger"@, "models/enemies/charger.glb"@), ("Elite"@, "models/enemies/elite.glb"@), ("Boss"@, "models/enemies/boss.glb"@)]);
    let weapons_list = vec![("Dagger", "models/weapons/dagger.glb"), ("Sword", "models/weapons/sword.glb"), ("Bow", "models/weapons/bow.glb"), ("Staff", "models/weapons/staff.glb"), ("Aura", "models/weapons/aura.glb"), ("Whip", "models/weapons/whip.glb"), ("MagicMissile", "models/weapons/magic_missile.glb")];
    assert(forall|i: int, j: int|
        0 <= i < j < weapons_list.len() ==> differ_early(#[trigger] weapons_list@[i].0@, #[trigger] weapons_list@[j].0@));
    let weapons = string_map(weapons_list);
    assert(literal_entries(weapons_list@) =~= seq![("Dagger"@, "models/weapons/dagger.glb"@), ("Sword"@, "models/weapons/sword.glb"@), ("Bow"@, "models/weapons/bow.glb"@), ("Staff"@, "models/weapons/staff.glb"@), ("Aura"@, "models/weapons/aura.glb"@), ("Whip"@, "models/weapons/whip.glb"@), ("MagicMissile"@, "models/weapons/magic_missile.glb"@)]);
    let pickups_list = vec![("Health", "models/pickups/health.glb"), ("Gold", "models/pickups/gold.glb"), ("TemporaryBoost", "models/pickups/temp_boost.glb")];
    assert(forall|i: int, j: int|
        0 <= i < j < pickups_list.len() ==> differ_early(#[trigger] pickups_list@[i].0@, #[trigger] pickups_list@[j].0@));
    let pickups = string_map(pickups_list);
    assert(literal_entries(pickups_list@) =~= seq![("Health"@, "models/pickups/health.glb"@), ("Gold"@, "models/pickups/gold.glb"@), ("TemporaryBoost"@, "models/pickups/temp_boost.glb"@)]);
    let idle_list = vec![("Warrior", "models/warrior.glb#Animation0"), ("Mage", "models/mage.glb#Animation0")];
    assert(forall|i: int, j: int|
        0 <= i < j < idle_list.len() ==> differ_early(#[trigger] idle_list@[i].0@, #[trigger] idle_list@[j].0@));
    let idle = string_map(idle_list);
    assert(literal_entries(idle_list@) =~= seq![("Warrior"@, "models/warrior.glb#Animation0"@), ("Mage"@, "models/mage.glb#Animation0"@)]);
    let run_list = vec![("Warrior", "models/warrior.glb#Animation1"), ("Mage", "models/mage.glb#Animation1")];
    assert(forall|i: int, j: int|
        0 <= i < j < run_list.len() ==> differ_early(#[trigger] run_list@[i].0@, #[trigger] run_list@[j].0@));
    let run = string_map(run_list);
    assert(literal_entries(run_list@) =~= seq![("Warrior"@, "models/warrior.glb#Animation1"@), ("Mage"@, "models/mage.glb#Animation1"@)]);
    let attack_list = vec![("Sword", "models/weapons/sword.glb#Animation0")];
    let attack = string_map(attack_list);
    assert(literal_entries(attack_list@) =~= seq![("Sword"@, "models/weapons/sword.glb#Animation0"@)]);
    let hit_list = vec![("default", "models/shared/hit.glb#Animation0")];
    let hit = string_map(hit_list);
    assert(literal_entries(hit_list@) =~= seq![("default"@, "models/shared/hit.glb#Animation0"@)]);
    let environment: StringMap<String> = StringMap::new();
    assert(string_entries(environment) =~= Seq::empty());
    AssetPipelineConfig {
        characters,
        enemies,
        weapons,
        pickups,
        environment,
        animations: AnimationConfig { idle, run, attack, hit },
        fallback_model: Some("models/fallback.glb".to_owned()),
        enabled: true,
    }
}

} // verus!

verus! {

/// Each model of a category: its registry key and the scene to load.
pub open spec fn load_entries(prefix: Seq<char>, e: Seq<(Seq<char>, Seq<char>)>) -> Seq<
    (Seq<char>, Seq<char>),
> {
    e.map_values(|p: (Seq<char>, Seq<char>)| (slot_key(prefix, p.0), scene_path_of(p.1)))
}

/// Every configured model, category by category: its registry key and the
/// scene to load.
pub open spec fn models_to_load(c: AssetPipelineConfig) -> Seq<(Seq<char>, Seq<char>)> {
    load_entries("character"@, string_entries(c.characters)) + load_entries(
        "enemy"@,
        string_entries(c.enemies),
    ) + load_entries("weapon"@, string_entries(c.weapons)) + load_entries(
        "pickup"@,
        string_entries(c.pickups),
    ) + load_entries("env"@, string_entries(c.environment))
}

/// Keys and scene paths of a list of pairs of strings.
pub open spec fn pair_views(v: Seq<(String, String)>) -> Seq<(Seq<char>, Seq<char>)> {
    v.map_values(|p: (String, String)| (p.0@, p.1@))
}

/// Appends the key and scene of each model of one category.
fn append_models(out: &mut Vec<(String, String)>, prefix: &str, m: &StringMap<String>)
    ensures
        pair_views(final(out)@) == pair_views(old(out)@) + load_entries(prefix@, string_entries(*m)),
{
    let ghost start = pair_views(out@);
    let ghost want = load_entries(prefix@, string_entries(*m));
    let mut i: usize = 0;
    while i < m.entries.len()
        invariant
            i <= m.entries.len(),
            want == load_entries(prefix@, string_entries(*m)),
            pair_views(out@) == start + want.subrange(0, i as int),
        decreases m.entries.len() - i,
    {
        let key = model_key(prefix, m.entries[i].0.as_str());
        let path = scene_path(m.entries[i].1.as_str());
        let ghost before = out@;
        out.push((key, path));
        proof {
            assert(pair_views(out@) =~= pair_views(before).push(want[i as int]));
            assert(want.subrange(0, i as int + 1) =~= want.subrange(0, i as int).push(want[i as int]));
        }
        i = i + 1;
    }
    proof {
        assert(want.subrange(0, want.len() as int) =~= want);
    }
}

/// The models to start loading: none without a configuration or when the
/// pipeline is disabled, else every configured model with its registry key
/// (`category/name`) and the scene to load.
pub fn initiate_model_loading(config: Option<&AssetPipelineConfig>) -> (r: Vec<(String, String)>)
    ensures
        pair_views(r@) == match config {
            Some(c) => if c.enabled {
                models_to_load(*c)
            } else {
                Seq::empty()
            },
            None => Seq::empty(),
        },
{
    let mut out: Vec<(String, String)> = Vec::new();
    match config {
        None => {
            assert(pair_views(out@) =~= Seq::empty());
            out
        },
        Some(c) => {
            if !c.enabled {
                assert(pair_views(out@) =~= Seq::empty());
                return out;
            }
            assert(pair_views(out@) =~= Seq::empty());
            append_models(&mut out, "character", &c.characters);
            append_models(&mut out, "enemy", &c.enemies);
            append_models(&mut out, "weapon", &c.weapons);
            append_models(&mut out, "pickup", &c.pickups);
            append_models(&mut out, "env", &c.environment);
            assert(pair_views(out@) =~= models_to_load(*c));
            out
        },
    }
}

} // verus!

verus! {

/// What the engine reports of a model being loaded; a failure carries the
/// engine's error message.
#[derive(Clone, Debug)]
pub enum LoadStatus {
    NotLoaded,
    Loading,
    Loaded,
    Failed(String),
}

/// A model in this state is still being waited for.
pub open spec fn waiting(s: LoadStatus) -> bool {
    s is NotLoaded || s is Loading
}

/// The models being loaded, those loaded and not yet handed to the scene
/// registry, and those that failed (name to message).
pub struct ModelLoadQueue<H> {
    pub pending: StringMap<H>,
    pub ready: StringMap<H>,
    pub failed: StringMap<String>,
}

impl<H> ModelLoadQueue<H> {
    /// No key occurs twice in any of the three maps.
    pub open spec fn well_formed(&self) -> bool {
        self.pending.well_formed() && self.ready.well_formed() && self.failed.well_formed()
    }

    /// Starts waiting for model `key`, loaded through `handle`.
    pub fn queue_model(&mut self, key: String, handle: H)
        requires
            old(self).well_formed(),
        ensures
            final(self).well_formed(),
            lookup(final(self).pending.view_entries(), key@) == Some(handle),
            forall|k: Seq<char>|
                k != key@ ==> #[trigger] lookup(final(self).pending.view_entries(), k) == lookup(
                    old(self).pending.view_entries(),
                    k,
                ),
            final(self).ready == old(self).ready,
            final(self).failed == old(self).failed,
    {
        self.pending.insert(key, handle);
    }
}

impl<H> Default for ModelLoadQueue<H> {
    fn default() -> (q: ModelLoadQueue<H>)
        ensures
            q.well_formed(),
            q.pending.view_entries().len() == 0,
            q.ready.view_entries().len() == 0,
            q.failed.view_entries().len() == 0,
    {
        ModelLoadQueue { pending: StringMap::new(), ready: StringMap::new(), failed: StringMap::new() }
    }
}

/// Whether no model is being waited for.
pub fn all_models_loaded<H>(queue: &ModelLoadQueue<H>) -> (b: bool)
    ensures
        b == (queue.pending.view_entries().len() == 0),
{
    queue.pending.len() == 0
}

/// The reported state of the pending model with key `k`, if it is pending.
pub open spec fn status_of<H>(e: Seq<(Seq<char>, H)>, st: Seq<LoadStatus>, k: Seq<char>) -> Option<
    LoadStatus,
> {
    match first_where(e, key_is::<H>(k)) {
        Some(i) => Some(st[i]),
        None => None,
    }
}

/// What stays pending under key `k` after a poll.
pub open spec fn pending_after<H>(e: Seq<(Seq<char>, H)>, st: Seq<LoadStatus>, k: Seq<char>) -> Option<H> {
    match status_of(e, st, k) {
        Some(s) => if waiting(s) {
            lookup(e, k)
        } else {
            None
        },
        None => None,
    }
}

/// What is ready under key `k` after a poll: a model that finished
/// loading, else what was ready before.
pub open spec fn ready_after<H>(
    e: Seq<(Seq<char>, H)>,
    st: Seq<LoadStatus>,
    ready: Seq<(Seq<char>, H)>,
    k: Seq<char>,
) -> Option<H> {
    if status_of(e, st, k) == Some(LoadStatus::Loaded) {
        lookup(e, k)
    } else {
        lookup(ready, k)
    }
}

/// The failure message recorded under key `k` after a poll: the engine's
/// message for a model that failed, else what was recorded before.
pub open spec fn failed_after<H>(
    e: Seq<(Seq<char>, H)>,
    st: Seq<LoadStatus>,
    failed: Seq<(Seq<char>, String)>,
    k: Seq<char>,
) -> Option<String> {
    match status_of(e, st, k) {
        Some(LoadStatus::Failed(msg)) => Some(msg),
        _ => lookup(failed, k),
    }
}

/// Some reported model is still being waited for.
pub open spec fn still_loading(st: Seq<LoadStatus>) -> bool {
    exists|i: int| 0 <= i < st.len() && waiting(#[trigger] st[i])
}

} // verus!

verus! {

/// Sorts polled models: those loaded go into `ready`, failed ones into
/// `failed` with the engine's message, and those still waited for are
/// returned.
fn sort_polled<H>(
    taken: Vec<(String, H)>,
    states: Vec<LoadStatus>,
    ready: &mut StringMap<H>,
    failed: &mut StringMap<String>,
) -> (still: StringMap<H>)
    requires
        keys_distinct(entry_views(taken@)),
        states.len() == taken.len(),
        old(ready).well_formed(),
        old(failed).well_formed(),
    ensures
        still.well_formed(),
        final(ready).well_formed(),
        final(failed).well_formed(),
        forall|k: Seq<char>|
            #[trigger] lookup(still.view_entries(), k) == pending_after(entry_views(taken@), states@, k),
        forall|k: Seq<char>|
            #[trigger] lookup(final(ready).view_entries(), k) == ready_after(
                entry_views(taken@),
                states@,
                old(ready).view_entries(),
                k,
            ),
        forall|k: Seq<char>|
            #[trigger] lookup(final(failed).view_entries(), k) == failed_after(
                entry_views(taken@),
                states@,
                old(failed).view_entries(),
                k,
            ),
        (still.view_entries().len() == 0) == !still_loading(states@),
{
    let ghost e0 = entry_views(taken@);
    let ghost st0 = states@;
    let ghost rd0 = ready.view_entries();
    let ghost f0 = failed.view_entries();
    let n = taken.len();
    let mut taken = taken;
    let mut states = states;
    let mut still: StringMap<H> = StringMap::new();
    let mut i: usize = n;
    while i > 0
        invariant
            i <= n,
            n == e0.len(),
            st0.len() == n,
            keys_distinct(e0),
            entry_views(taken@) == e0.subrange(0, i as int),
            states@ == st0.subrange(0, i as int),
            still.well_formed(),
            ready.well_formed(),
            failed.well_formed(),
            forall|j: int|
                i <= j < n ==> #[trigger] lookup(still.view_entries(), e0[j].0) == if waiting(
                    st0[j],
                ) {
                    Some(e0[j].1)
                } else {
                    None
                },
            forall|k: Seq<char>|
                #[trigger] has_key(still.view_entries(), k) ==> exists|j: int|
                    i <= j < n && #[trigger] e0[j].0 == k,
            forall|j: int|
                i <= j < n && st0[j] == LoadStatus::Loaded ==> #[trigger] lookup(
                    ready.view_entries(),
                    e0[j].0,
                ) == Some(e0[j].1),
            forall|k: Seq<char>|
                #[trigger] lookup(ready.view_entries(), k) != lookup(rd0, k) ==> exists|j: int|
                    i <= j < n && #[trigger] e0[j].0 == k && st0[j] == LoadStatus::Loaded,
            forall|j: int|
                i <= j < n && st0[j] is Failed ==> #[trigger] lookup(failed.view_entries(), e0[j].0)
                    == Some(st0[j]->Failed_0),
            forall|k: Seq<char>|
                #[trigger] lookup(failed.view_entries(), k) != lookup(f0, k) ==> exists|j: int|
                    i <= j < n && #[trigger] e0[j].0 == k && st0[j] is Failed,
            (still.view_entries().len() == 0) == (forall|j: int|
                i <= j < n ==> !waiting(#[trigger] st0[j])),
        decreases i,
    {
        i = i - 1;
        let ghost tv = entry_views(taken@);
        assert(tv.last() == e0[i as int]);
        assert(states@.last() == st0[i as int]);
        let (key, handle) = taken.pop().unwrap();
        let status = states.pop().unwrap();
        proof {
            assert(entry_views(taken@) =~= e0.subrange(0, i as int));
            assert(states@ =~= st0.subrange(0, i as int));
            assert(key@ == e0[i as int].0 && handle == e0[i as int].1);
            assert(status == st0[i as int]);
        }
        let ghost still0 = still.view_entries();
        let ghost ready0 = ready.view_entries();
        let ghost failed0 = failed.view_entries();
        proof {
            let k0 = e0[i as int].0;
            lemma_lookup_has_key(still0, k0);
            if has_key(still0, k0) {
                let j = choose|j: int| i + 1 <= j < n && #[trigger] e0[j].0 == k0;
                assert(e0[i as int].0 != e0[j].0);
            }
        }
        match status {
            LoadStatus::Loaded => {
                ready.insert(key, handle);
                proof {
                    assert forall|j: int|
                        i <= j < n && st0[j] == LoadStatus::Loaded implies #[trigger] lookup(
                        ready.view_entries(),
                        e0[j].0,
                    ) == Some(e0[j].1) by {
                        if j != i {
                            assert(e0[i as int].0 != e0[j].0);
                        }
                    }
                    assert forall|k: Seq<char>|
                        #[trigger] lookup(ready.view_entries(), k) != lookup(rd0, k) implies exists|j: int|
                        i <= j < n && #[trigger] e0[j].0 == k && st0[j] == LoadStatus::Loaded by {
                        if k == e0[i as int].0 {
                            assert(e0[i as int].0 == k);
                        } else {
                            assert(lookup(ready0, k) != lookup(rd0, k));
                        }
                    }
                }
            },
            LoadStatus::Failed(msg) => {
                failed.insert(key, msg);
                proof {
                    assert forall|j: int|
                        i <= j < n && st0[j] is Failed implies #[trigger] lookup(
                        failed.view_entries(),
                        e0[j].0,
                    ) == Some(st0[j]->Failed_0) by {
                        if j != i {
                            assert(e0[i as int].0 != e0[j].0);
                        }
                    }
                    assert forall|k: Seq<char>|
                        #[trigger] lookup(failed.view_entries(), k) != lookup(f0, k) implies exists|j: int|
                        i <= j < n && #[trigger] e0[j].0 == k && st0[j] is Failed by {
                        if k == e0[i as int].0 {
                            assert(e0[i as int].0 == k);
                        } else {
                            assert(lookup(failed0, k) != lookup(f0, k));
                        }
                    }
                }
            },
            _ => {
                still.insert(key, handle);
                proof {
                    assert forall|j: int| i <= j < n implies #[trigger] lookup(still.view_entries(), e0[j].0)
                        == if waiting(st0[j]) {
                        Some(e0[j].1)
                    } else {
                        None
                    } by {
                        if j != i {
                            assert(e0[i as int].0 != e0[j].0);
                        }
                    }
                    assert forall|k: Seq<char>| #[trigger] has_key(still.view_entries(), k) implies exists|j: int|
                        i <= j < n && #[trigger] e0[j].0 == k by {
                        if k == e0[i as int].0 {
                            assert(e0[i as int].0 == k);
                        } else {
                            assert(has_key(still0, k));
                        }
                    }
                    assert(has_key(still.view_entries(), e0[i as int].0));
                    assert(still.view_entries().len() > 0);
                    assert(waiting(st0[i as int]));
                }
            },
        }
    }
    proof {
        assert forall|k: Seq<char>| #[trigger] lookup(still.view_entries(), k) == pending_after(
            e0,
            st0,
            k,
        ) by {
            lemma_lookup_has_key(e0, k);
            lemma_lookup_has_key(still.view_entries(), k);
            if has_key(e0, k) {
                let j = choose|j: int| 0 <= j < e0.len() && #[trigger] e0[j].0 == k;
                lemma_key_position(e0, j);
            } else {
                if has_key(still.view_entries(), k) {
                    let j = choose|j: int| 0 <= j < n && #[trigger] e0[j].0 == k;
                    assert(has_key(e0, k));
                }
            }
        }
        assert forall|k: Seq<char>| #[trigger] lookup(ready.view_entries(), k) == ready_after(
            e0,
            st0,
            rd0,
            k,
        ) by {
            lemma_lookup_has_key(e0, k);
            if has_key(e0, k) {
                let j = choose|j: int| 0 <= j < e0.len() && #[trigger] e0[j].0 == k;
                lemma_key_position(e0, j);
                if lookup(ready.view_entries(), k) != lookup(rd0, k) {
                    let m = choose|m: int| 0 <= m < n && #[trigger] e0[m].0 == k && st0[m] == LoadStatus::Loaded;
                    if m != j {
                        if m < j {
                            assert(e0[m].0 != e0[j].0);
                        } else {
                            assert(e0[j].0 != e0[m].0);
                        }
                    }
                }
            } else {
                if lookup(ready.view_entries(), k) != lookup(rd0, k) {
                    let m = choose|m: int| 0 <= m < n && #[trigger] e0[m].0 == k && st0[m] == LoadStatus::Loaded;
                    assert(has_key(e0, k));
                }
            }
        }
        assert forall|k: Seq<char>| #[trigger] lookup(failed.view_entries(), k) == failed_after(
            e0,
            st0,
            f0,
            k,
        ) by {
            lemma_lookup_has_key(e0, k);
            if has_key(e0, k) {
                let j = choose|j: int| 0 <= j < e0.len() && #[trigger] e0[j].0 == k;
                lemma_key_position(e0, j);
                if lookup(failed.view_entries(), k) != lookup(f0, k) {
                    let m = choose|m: int| 0 <= m < n && #[trigger] e0[m].0 == k && st0[m] is Failed;
                    if m != j {
                        if m < j {
                            assert(e0[m].0 != e0[j].0);
                        } else {
                            assert(e0[j].0 != e0[m].0);
                        }
                    }
                }
            } else {
                if lookup(failed.view_entries(), k) != lookup(f0, k) {
                    let m = choose|m: int| 0 <= m < n && #[trigger] e0[m].0 == k && st0[m] is Failed;
                    assert(has_key(e0, k));
                }
            }
        }
    }
    still
}

/// Moves every entry of `from` into `to`, replacing what `to` held under
/// the same keys.
fn move_into<H>(from: Vec<(String, H)>, to: &mut StringMap<H>)
    requires
        keys_distinct(entry_views(from@)),
        old(to).well_formed(),
    ensures
        final(to).well_formed(),
        forall|k: Seq<char>|
            #[trigger] lookup(final(to).view_entries(), k) == match lookup(entry_views(from@), k) {
                Some(h) => Some(h),
                None => lookup(old(to).view_entries(), k),
            },
{
    let ghost e0 = entry_views(from@);
    let ghost t0 = to.view_entries();
    let n = from.len();
    let mut from = from;
    while from.len() > 0
        invariant
            from.len() <= n,
            n == e0.len(),
            keys_distinct(e0),
            entry_views(from@) == e0.subrange(0, from.len() as int),
            to.well_formed(),
            forall|j: int|
                from.len() <= j < n ==> #[trigger] lookup(to.view_entries(), e0[j].0) == Some(e0[j].1),
            forall|k: Seq<char>|
                #[trigger] lookup(to.view_entries(), k) != lookup(t0, k) ==> exists|j: int|
                    from.len() <= j < n && #[trigger] e0[j].0 == k,
        decreases from.len(),
    {
        let i = from.len() - 1;
        let ghost fv = entry_views(from@);
        assert(fv.last() == e0[i as int]);
        let ghost to0 = to.view_entries();
        let (key, handle) = from.pop().unwrap();
        proof {
            assert(entry_views(from@) =~= e0.subrange(0, i as int));
        }
        to.insert(key, handle);
        proof {
            assert forall|j: int| i <= j < n implies #[trigger] lookup(to.view_entries(), e0[j].0) == Some(
                e0[j].1,
            ) by {
                if j != i {
                    assert(e0[i as int].0 != e0[j].0);
                }
            }
            assert forall|k: Seq<char>| #[trigger] lookup(to.view_entries(), k) != lookup(t0, k) implies exists|j: int|
                i <= j < n && #[trigger] e0[j].0 == k by {
                if k == e0[i as int].0 {
                    assert(e0[i as int].0 == k);
                } else {
                    assert(lookup(to0, k) != lookup(t0, k));
                }
            }
        }
    }
    proof {
        assert forall|k: Seq<char>| #[trigger] lookup(to.view_entries(), k) == match lookup(e0, k) {
            Some(h) => Some(h),
            None => lookup(t0, k),
        } by {
            lemma_lookup_has_key(e0, k);
            if has_key(e0, k) {
                let j = choose|j: int| 0 <= j < e0.len() && #[trigger] e0[j].0 == k;
                lemma_key_position(e0, j);
            } else {
                if lookup(to.view_entries(), k) != lookup(t0, k) {
                    let j = choose|j: int| 0 <= j < n && #[trigger] e0[j].0 == k;
                    assert(has_key(e0, k));
                }
            }
        }
    }
}

} // verus!

verus! {

/// The scene registry after the ready models moved into it.
pub open spec fn registered_after<H>(
    e: Seq<(Seq<char>, H)>,
    st: Seq<LoadStatus>,
    ready: Seq<(Seq<char>, H)>,
    scenes: Seq<(Seq<char>, H)>,
    k: Seq<char>,
) -> Option<H> {
    match ready_after(e, st, ready, k) {
        Some(h) => Some(h),
        None => lookup(scenes, k),
    }
}

/// One poll of the loading queue, given the state the engine reports for
/// each pending model (`states[i]` for the `i`-th pending entry). Loaded
/// models become ready, failed ones are recorded with the engine's message,
/// the rest stay pending;
/// once nothing is pending, every ready model moves into the scene
/// registry. An empty queue is left as it is.
pub fn poll_model_loading<H>(
    queue: &mut ModelLoadQueue<H>,
    registry: &mut ModelSlotRegistry<H>,
    states: Vec<LoadStatus>,
)
    requires
        old(queue).well_formed(),
        old(registry).scenes.well_formed(),
        states.len() == old(queue).pending.view_entries().len(),
    ensures
        final(queue).well_formed(),
        final(registry).scenes.well_formed(),
        old(queue).pending.view_entries().len() == 0 ==> *final(queue) == *old(queue)
            && *final(registry) == *old(registry),
        old(queue).pending.view_entries().len() > 0 ==> {
            let e = old(queue).pending.view_entries();
            let rd = old(queue).ready.view_entries();
            &&& forall|k: Seq<char>|
                #[trigger] lookup(final(queue).failed.view_entries(), k) == failed_after(
                    e,
                    states@,
                    old(queue).failed.view_entries(),
                    k,
                )
            &&& forall|k: Seq<char>|
                #[trigger] lookup(final(queue).pending.view_entries(), k) == pending_after(
                    e,
                    states@,
                    k,
                )
            &&& (final(queue).pending.view_entries().len() == 0) == !still_loading(states@)
            &&& still_loading(states@) ==> *final(registry) == *old(registry) && forall|
                k: Seq<char>,
            | #[trigger]
                lookup(final(queue).ready.view_entries(), k) == ready_after(e, states@, rd, k)
            &&& !still_loading(states@) ==> final(queue).ready.view_entries().len() == 0 && forall|
                k: Seq<char>,
            | #[trigger]
                lookup(final(registry).scenes.view_entries(), k) == registered_after(
                    e,
                    states@,
                    rd,
                    old(registry).scenes.view_entries(),
                    k,
                )
        },
{
    if queue.pending.entries.len() == 0 {
        return;
    }
    let mut taken: Vec<(String, H)> = Vec::new();
    std::mem::swap(&mut taken, &mut queue.pending.entries);
    let still = sort_polled(taken, states, &mut queue.ready, &mut queue.failed);
    queue.pending = still;
    if queue.pending.entries.len() == 0 {
        let mut ready_entries: Vec<(String, H)> = Vec::new();
        std::mem::swap(&mut ready_entries, &mut queue.ready.entries);
        move_into(ready_entries, &mut registry.scenes);
    }
}

} // verus!

verus! {

/// The keys of a list of models to load.
pub open spec fn load_keys(l: Seq<(Seq<char>, Seq<char>)>) -> Seq<Seq<char>> {
    l.map_values(|p: (Seq<char>, Seq<char>)| p.0)
}

/// Keys built on a prefix of three or more characters start with that
/// prefix's first and third characters.
proof fn lemma_key_tag(prefix: Seq<char>, name: Seq<char>)
    requires
        prefix.len() >= 3,
    ensures
        slot_key(prefix, name)[0] == prefix[0],
        slot_key(prefix, name)[2] == prefix[2],
{
    let k = slot_key(prefix, name);
    assert(k == prefix + "/"@ + name);
    assert((prefix + "/"@)[0] == prefix[0]);
    assert((prefix + "/"@)[2] == prefix[2]);
}

/// Keys of one category differ when their names do.
proof fn lemma_key_names(prefix: Seq<char>, a: Seq<char>, b: Seq<char>)
    requires
        a != b,
    ensures
        slot_key(prefix, a) != slot_key(prefix, b),
{
    reveal_strlit("/");
    let ka = slot_key(prefix, a);
    let kb = slot_key(prefix, b);
    let n = prefix.len() + 1;
    if ka == kb {
        assert(ka.subrange(n as int, ka.len() as int) =~= a);
        assert(kb.subrange(n as int, kb.len() as int) =~= b);
    }
}

/// The models of one category have distinct keys, each starting with the
/// category prefix's first and third characters.
proof fn lemma_category_keys(prefix: Seq<char>, m: StringMap<String>)
    requires
        prefix.len() >= 3,
        m.well_formed(),
    ensures
        load_keys(load_entries(prefix, string_entries(m))).no_duplicates(),
        forall|i: int|
            0 <= i < load_entries(prefix, string_entries(m)).len() ==> #[trigger] load_entries(
                prefix,
                string_entries(m),
            )[i].0[0] == prefix[0] && load_entries(prefix, string_entries(m))[i].0[2] == prefix[2],
{
    let e = string_entries(m);
    let l = load_entries(prefix, e);
    let ks = load_keys(l);
    assert forall|i: int| 0 <= i < l.len() implies #[trigger] l[i].0[0] == prefix[0] && l[i].0[2]
        == prefix[2] by {
        lemma_key_tag(prefix, e[i].0);
    }
    assert forall|a: int, b: int| 0 <= a < ks.len() && 0 <= b < ks.len() && a != b implies ks[a]
        != ks[b] by {
        assert(m.view_entries()[a].0 == e[a].0 && m.view_entries()[b].0 == e[b].0);
        if a < b {
            assert(m.view_entries()[a].0 != m.view_entries()[b].0);
        } else {
            assert(m.view_entries()[b].0 != m.view_entries()[a].0);
        }
        lemma_key_names(prefix, e[a].0, e[b].0);
    }
}

/// Joining two key lists without duplicates whose keys differ pairwise
/// gives a list without duplicates.
proof fn lemma_concat_distinct(a: Seq<(Seq<char>, Seq<char>)>, b: Seq<(Seq<char>, Seq<char>)>)
    requires
        load_keys(a).no_duplicates(),
        load_keys(b).no_duplicates(),
        forall|i: int, j: int| 0 <= i < a.len() && 0 <= j < b.len() ==> #[trigger] a[i].0 != #[trigger] b[j].0,
    ensures
        load_keys(a + b).no_duplicates(),
{
    let ks = load_keys(a + b);
    assert forall|x: int, y: int| 0 <= x < ks.len() && 0 <= y < ks.len() && x != y implies ks[x]
        != ks[y] by {
        if x < a.len() && y < a.len() {
            assert(ks[x] == load_keys(a)[x] && ks[y] == load_keys(a)[y]);
        } else if x >= a.len() && y >= a.len() {
            assert(ks[x] == load_keys(b)[x - a.len()] && ks[y] == load_keys(b)[y - a.len()]);
        } else if x < a.len() {
            assert(ks[x] == a[x].0 && ks[y] == b[y - a.len()].0);
        } else {
            assert(ks[y] == a[y].0 && ks[x] == b[x - a.len()].0);
        }
    }
}

/// Every model that loading starts has its own key: names are distinct
/// within a category, and the category prefixes tell categories apart.
pub proof fn lemma_load_keys_distinct(c: AssetPipelineConfig)
    requires
        c.characters.well_formed(),
        c.enemies.well_formed(),
        c.weapons.well_formed(),
        c.pickups.well_formed(),
        c.environment.well_formed(),
    ensures
        load_keys(models_to_load(c)).no_duplicates(),
{
    reveal_strlit("character");
    reveal_strlit("enemy");
    reveal_strlit("weapon");
    reveal_strlit("pickup");
    reveal_strlit("env");
    let a = load_entries("character"@, string_entries(c.characters));
    let b = load_entries("enemy"@, string_entries(c.enemies));
    let w = load_entries("weapon"@, string_entries(c.weapons));
    let p = load_entries("pickup"@, string_entries(c.pickups));
    let v = load_entries("env"@, string_entries(c.environment));
    lemma_category_keys("character"@, c.characters);
    lemma_category_keys("enemy"@, c.enemies);
    lemma_category_keys("weapon"@, c.weapons);
    lemma_category_keys("pickup"@, c.pickups);
    lemma_category_keys("env"@, c.environment);
    assert forall|i: int, j: int| 0 <= i < a.len() && 0 <= j < b.len() implies #[trigger] a[i].0
        != #[trigger] b[j].0 by {
        assert(a[i].0[0] == 'c' && b[j].0[0] == 'e');
    }
    lemma_concat_distinct(a, b);
    let ab = a + b;
    assert forall|i: int, j: int| 0 <= i < ab.len() && 0 <= j < w.len() implies #[trigger] ab[i].0
        != #[trigger] w[j].0 by {
        if i < a.len() {
            assert(ab[i] == a[i]);
            assert(a[i].0[0] == 'c');
        } else {
            assert(ab[i] == b[i - a.len()]);
            assert(b[i - a.len()].0[0] == 'e');
        }
        assert(w[j].0[0] == 'w');
    }
    lemma_concat_distinct(ab, w);
    let abw = ab + w;
    assert forall|i: int, j: int| 0 <= i < abw.len() && 0 <= j < p.len() implies #[trigger] abw[i].0
        != #[trigger] p[j].0 by {
        if i < a.len() {
            assert(abw[i] == a[i]);
            assert(a[i].0[0] == 'c');
        } else if i < a.len() + b.len() {
            assert(abw[i] == b[i - a.len()]);
            assert(b[i - a.len()].0[0] == 'e');
        } else {
            assert(abw[i] == w[i - a.len() - b.len()]);
            assert(w[i - a.len() - b.len()].0[0] == 'w');
        }
        assert(p[j].0[0] == 'p');
    }
    lemma_concat_distinct(abw, p);
    let abwp = abw + p;
    assert forall|i: int, j: int| 0 <= i < abwp.len() && 0 <= j < v.len() implies #[trigger] abwp[i].0
        != #[trigger] v[j].0 by {
        assert(v[j].0[0] == 'e' && v[j].0[2] == 'v');
        if i < a.len() {
            assert(abwp[i] == a[i]);
            assert(a[i].0[0] == 'c');
        } else if i < a.len() + b.len() {
            assert(abwp[i] == b[i - a.len()]);
            assert(b[i - a.len()].0[2] == 'e');
        } else if i < a.len() + b.len() + w.len() {
            assert(abwp[i] == w[i - a.len() - b.len()]);
            assert(w[i - a.len() - b.len()].0[0] == 'w');
        } else {
            assert(abwp[i] == p[i - a.len() - b.len() - w.len()]);
            assert(p[i - a.len() - b.len() - w.len()].0[0] == 'p');
        }
    }
    lemma_concat_distinct(abwp, v);
    assert(models_to_load(c) == abwp + v);
}

} // verus!

//! What is saved to disk, and when saving and loading happen. Encoding and
//! file access are done by the caller.

use vstd::prelude::*;
use crate::meta::{empty_meta, MetaProgression, MetaView};
use crate::profiles::{copy_profiles, copy_strings, profile_views, PlayerProfile, PlayerProfiles, ProfileView};
use crate::state::AppState;

verus! {

/// Serializable player data for a single character.
#[derive(Clone)]
pub struct PlayerSaveData {
    /// Current character level.
    pub level: u32,
    /// Experience points accumulated toward the next level.
    pub xp: u64,
    /// Gold currency carried by this character.
    pub gold: u64,
    /// Names of dungeons this character has completed.
    pub completed_dungeons: Vec<String>,
}

impl Default for PlayerSaveData {
    fn default() -> (r: PlayerSaveData)
        ensures
            r.level == 1 && r.xp == 0 && r.gold == 0 && r.completed_dungeons@.len() == 0,
    {
        PlayerSaveData { level: 1, xp: 0, gold: 0, completed_dungeons: Vec::new() }
    }
}

impl PlayerSaveData {
    /// A field-by-field copy.
    pub fn duplicate(&self) -> (r: PlayerSaveData)
        ensures
            r.level == self.level && r.xp == self.xp && r.gold == self.gold
                && r.completed_dungeons@.map_values(|s: String| s@)
                == self.completed_dungeons@.map_values(|s: String| s@),
    {
        PlayerSaveData {
            level: self.level,
            xp: self.xp,
            gold: self.gold,
            completed_dungeons: copy_strings(&self.completed_dungeons),
        }
    }
}

/// Schema version written into new saves.
pub const SAVE_VERSION: u32 = 2;

/// Full game save data: all profiles and the global meta-progression.
#[derive(Clone)]
pub struct SaveData {
    /// Schema version for forward/backward compatibility.
    pub version: u32,
    /// All saved player character profiles.
    pub profiles: Vec<PlayerProfile>,
    /// Id handed to the next profile created.
    pub next_profile_id: u32,
    /// Global meta-progression state.
    pub meta: MetaProgression,
}

/// Mathematical view of a [`SaveData`].
pub struct SaveView {
    pub version: u32,
    pub profiles: Seq<ProfileView>,
    pub next_profile_id: u32,
    pub meta: MetaView,
}

impl View for SaveData {
    type V = SaveView;

    open spec fn view(&self) -> SaveView {
        SaveView {
            version: self.version,
            profiles: profile_views(self.profiles@),
            next_profile_id: self.next_profile_id,
            meta: self.meta@,
        }
    }
}

/// The save of a player who has not played yet.
pub open spec fn fresh_save() -> SaveView {
    SaveView {
        version: SAVE_VERSION,
        profiles: Seq::empty(),
        next_profile_id: 1,
        meta: empty_meta(),
    }
}

impl Default for SaveData {
    fn default() -> (r: SaveData)
        ensures
            r@ == fresh_save(),
    {
        let r = SaveData {
            version: SAVE_VERSION,
            profiles: Vec::new(),
            next_profile_id: 1,
            meta: MetaProgression::default(),
        };
        proof {
            assert(r@.profiles =~= Seq::<ProfileView>::empty());
        }
        r
    }
}

impl SaveData {
    /// A field-by-field copy.
    pub fn duplicate(&self) -> (r: SaveData)
        ensures
            r@ == self@,
    {
        SaveData {
            version: self.version,
            profiles: copy_profiles(&self.profiles),
            next_profile_id: self.next_profile_id,
            meta: self.meta.duplicate(),
        }
    }
}

/// The save data loaded into memory, if any.
pub struct SaveState {
    /// The loaded save data, or `None` if nothing was loaded yet.
    pub data: Option<SaveData>,
}

impl Default for SaveState {
    fn default() -> (r: SaveState)
        ensures
            r.data is None,
    {
        SaveState { data: None }
    }
}

/// Flag that requests an autosave.
pub struct PendingSave(pub bool);

impl Default for PendingSave {
    fn default() -> (r: PendingSave)
        ensures
            !r.0,
    {
        PendingSave(false)
    }
}

/// The save written for the given profiles, next id and meta-progression.
pub open spec fn saved(profiles: Seq<ProfileView>, next_id: u32, meta: MetaView) -> SaveView {
    SaveView { version: SAVE_VERSION, profiles, next_profile_id: next_id, meta }
}

/// Builds the save data for the current profiles and meta-progression.
pub fn build_save_data(profiles: &PlayerProfiles, meta: &MetaProgression) -> (data: SaveData)
    ensures
        data@ == saved(profile_views(profiles.profiles@), profiles.next_id, meta@),
{
    SaveData {
        version: SAVE_VERSION,
        profiles: copy_profiles(&profiles.profiles),
        next_profile_id: profiles.next_id,
        meta: meta.duplicate(),
    }
}

/// Requests an autosave (on death or dungeon completion).
pub fn mark_pending(pending: &mut PendingSave)
    ensures
        final(pending).0,
{
    pending.0 = true;
}

/// A pending save is written in the game-over screen or the main menu.
pub open spec fn save_due(state: AppState, pending: bool) -> bool {
    (state == AppState::GameOver || state == AppState::MainMenu) && pending
}

/// Decides whether to write the save now: only in the game-over screen or
/// the main menu, and only when a save is pending; the request is then
/// consumed. Returns whether the caller must write the save.
pub fn autosave_due(state: AppState, pending: &mut PendingSave) -> (write: bool)
    ensures
        write == save_due(state, old(pending).0),
        final(pending).0 == (old(pending).0 && !write),
{
    if state == AppState::GameOver || state == AppState::MainMenu {
        if pending.0 {
            pending.0 = false;
            return true;
        }
    }
    false
}

/// The save is read in the main menu while nothing is loaded.
pub open spec fn load_due(state: AppState, loaded: bool) -> bool {
    state == AppState::MainMenu && !loaded
}

/// Loading happens once: on entering the main menu while nothing is loaded.
pub fn autoload_due(state: AppState, save_state: &SaveState) -> (load: bool)
    ensures
        load == load_due(state, save_state.data is Some),
{
    state == AppState::MainMenu && save_state.data.is_none()
}

/// Installs what was read from disk (a fresh save when nothing could be
/// read): it becomes the loaded save, and the profiles and meta-progression
/// are taken from it. Returns the number of characters loaded.
pub fn apply_loaded_save(
    save_state: &mut SaveState,
    profiles: &mut PlayerProfiles,
    meta: &mut MetaProgression,
    loaded: Option<SaveData>,
) -> (count: usize)
    ensures
        final(save_state).data is Some,
        final(save_state).data->0@ == match loaded {
            Some(d) => d@,
            None => fresh_save(),
        },
        restores(final(save_state).data->0@, *final(profiles), final(meta)@),
        count == final(save_state).data->0@.profiles.len(),
{
    let data = match loaded {
        Some(d) => d,
        None => SaveData::default(),
    };
    profiles.profiles = copy_profiles(&data.profiles);
    profiles.next_id = data.next_profile_id;
    *meta = data.meta.duplicate();
    let count = data.profiles.len();
    save_state.data = Some(data);
    count
}

/// The profiles and meta-progression installed from save `d`.
pub open spec fn restores(d: SaveView, profiles: PlayerProfiles, meta: MetaView) -> bool {
    &&& profile_views(profiles.profiles@) == d.profiles
    &&& profiles.next_id == d.next_profile_id
    &&& meta == d.meta
}

/// What a save gives back when it is loaded: installing the save that
/// [`build_save_data`] built restores the profiles, the next id and the
/// meta-progression it was built from.
pub proof fn lemma_save_round_trip(
    profiles: PlayerProfiles,
    meta: MetaView,
    restored: PlayerProfiles,
    restored_meta: MetaView,
)
    requires
        restores(
            saved(profile_views(profiles.profiles@), profiles.next_id, meta),
            restored,
            restored_meta,
        ),
    ensures
        profile_views(restored.profiles@) == profile_views(profiles.profiles@),
        restored.next_id == profiles.next_id,
        restored_meta == meta,
{
}

/// A requested save is written once: after a write, no state writes again
/// until another save is requested.
pub proof fn lemma_autosave_once(state: AppState, later: AppState, pending: bool)
    requires
        save_due(state, pending),
    ensures
        !save_due(later, pending && !save_due(state, pending)),
{
}

/// Where the game writes its save: a save requested on dying or on
/// returning to the menu is written in the game-over screen and in the main
/// menu alike; it is never written while loading, choosing a character or
/// playing (in the world, a dungeon or a run, paused or not), and nothing is
/// written when no save is pending.
pub proof fn law_autosave_screens(state: AppState, pending: bool)
    ensures
        save_due(AppState::GameOver, true),
        save_due(AppState::MainMenu, true),
        !save_due(state, false),
        state == AppState::Loading || state == AppState::CharacterSelect || state
            == AppState::World || state == AppState::Dungeon || state == AppState::Playing
            || state == AppState::Paused ==> !save_due(state, pending),
{
}

/// Where the game reads its save: on reaching the main menu with nothing
/// loaded yet, and in no other state.
pub proof fn law_autoload_screen(state: AppState, loaded: bool)
    ensures
        load_due(AppState::MainMenu, false),
        state != AppState::MainMenu ==> !load_due(state, loaded),
{
}

/// The save is loaded once: once a save is installed, no state loads again.
pub proof fn lemma_autoload_once(state: AppState)
    ensures
        !load_due(state, true),
{
}

} // verus!

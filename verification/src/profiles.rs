//! Character profiles and the character-creation screen's rules: typing a
//! name, creating, picking and deleting characters.

use vstd::prelude::*;
use crate::text::{
    byte_len, byte_len_of, lemma_utf8_len_drop_last, lemma_utf8_len_push_ascii, pop_char, push_char,
    utf8_len,
};

verus! {

/// Playable classes.
#[derive(Clone, Copy, Debug, PartialEq, Eq, Hash, Structural)]
pub enum CharacterClass {
    Warrior,
    Paladin,
    Rogue,
    Hunter,
    Mage,
}

/// Name shown for a class.
pub open spec fn class_display_name(c: CharacterClass) -> Seq<char> {
    match c {
        CharacterClass::Warrior => "Warrior"@,
        CharacterClass::Paladin => "Paladin"@,
        CharacterClass::Rogue => "Rogue"@,
        CharacterClass::Hunter => "Hunter"@,
        CharacterClass::Mage => "Mage"@,
    }
}

impl CharacterClass {
    /// Name shown for the class.
    pub fn display_name(&self) -> (s: &'static str)
        ensures
            s@ == class_display_name(*self),
    {
        match self {
            CharacterClass::Warrior => "Warrior",
            CharacterClass::Paladin => "Paladin",
            CharacterClass::Rogue => "Rogue",
            CharacterClass::Hunter => "Hunter",
            CharacterClass::Mage => "Mage",
        }
    }

    /// Every class, in the order the selection screen shows them.
    pub fn all() -> (v: Vec<CharacterClass>)
        ensures
            v@ == seq![
                CharacterClass::Warrior,
                CharacterClass::Paladin,
                CharacterClass::Rogue,
                CharacterClass::Hunter,
                CharacterClass::Mage,
            ],
    {
        let mut v = Vec::new();
        v.push(CharacterClass::Warrior);
        v.push(CharacterClass::Paladin);
        v.push(CharacterClass::Rogue);
        v.push(CharacterClass::Hunter);
        v.push(CharacterClass::Mage);
        proof {
            assert(v@ =~= seq![
                CharacterClass::Warrior,
                CharacterClass::Paladin,
                CharacterClass::Rogue,
                CharacterClass::Hunter,
                CharacterClass::Mage,
            ]);
        }
        v
    }
}

/// A saved character.
#[derive(Clone)]
pub struct PlayerProfile {
    pub id: u32,
    pub name: String,
    pub class: CharacterClass,
    pub level: u32,
    pub xp: u64,
    /// Bit pattern of the single-precision play time in seconds.
    pub play_time_bits: u32,
    pub gold: u64,
    pub completed_dungeons: Vec<String>,
}

/// Mathematical view of a [`PlayerProfile`].
pub struct ProfileView {
    pub id: u32,
    pub name: Seq<char>,
    pub class: CharacterClass,
    pub level: u32,
    pub xp: u64,
    pub play_time_bits: u32,
    pub gold: u64,
    pub completed_dungeons: Seq<Seq<char>>,
}

impl View for PlayerProfile {
    type V = ProfileView;

    open spec fn view(&self) -> ProfileView {
        ProfileView {
            id: self.id,
            name: self.name@,
            class: self.class,
            level: self.level,
            xp: self.xp,
            play_time_bits: self.play_time_bits,
            gold: self.gold,
            completed_dungeons: self.completed_dungeons@.map_values(|s: String| s@),
        }
    }
}

/// Copies a list of strings.
pub fn copy_strings(v: &Vec<String>) -> (r: Vec<String>)
    ensures
        r@.map_values(|s: String| s@) == v@.map_values(|s: String| s@),
{
    let mut r: Vec<String> = Vec::new();
    let mut i: usize = 0;
    while i < v.len()
        invariant
            i <= v.len(),
            r.len() == i,
            forall|j: int| 0 <= j < i ==> r@[j]@ == v@[j]@,
        decreases v.len() - i,
    {
        r.push(v[i].clone());
        i = i + 1;
    }
    proof {
        assert(r@.map_values(|s: String| s@) =~= v@.map_values(|s: String| s@));
    }
    r
}

impl PlayerProfile {
    /// A field-by-field copy.
    pub fn duplicate(&self) -> (r: PlayerProfile)
        ensures
            r@ == self@,
    {
        PlayerProfile {
            id: self.id,
            name: self.name.clone(),
            class: self.class,
            level: self.level,
            xp: self.xp,
            play_time_bits: self.play_time_bits,
            gold: self.gold,
            completed_dungeons: copy_strings(&self.completed_dungeons),
        }
    }
}

/// Views of a list of profiles.
pub open spec fn profile_views(v: Seq<PlayerProfile>) -> Seq<ProfileView> {
    v.map_values(|p: PlayerProfile| p@)
}

/// Copies a list of profiles.
pub fn copy_profiles(v: &Vec<PlayerProfile>) -> (r: Vec<PlayerProfile>)
    ensures
        profile_views(r@) == profile_views(v@),
{
    let mut r: Vec<PlayerProfile> = Vec::new();
    let mut i: usize = 0;
    while i < v.len()
        invariant
            i <= v.len(),
            r.len() == i,
            forall|j: int| 0 <= j < i ==> r@[j]@ == v@[j]@,
        decreases v.len() - i,
    {
        r.push(v[i].duplicate());
        i = i + 1;
    }
    proof {
        assert(profile_views(r@) =~= profile_views(v@));
    }
    r
}

/// All characters the player has created.
#[derive(Clone)]
pub struct PlayerProfiles {
    pub profiles: Vec<PlayerProfile>,
    /// Id handed to the next character created.
    pub next_id: u32,
}

impl Default for PlayerProfiles {
    fn default() -> (r: PlayerProfiles)
        ensures
            r.profiles@.len() == 0,
            r.next_id == 0,
    {
        PlayerProfiles { profiles: Vec::new(), next_id: 0 }
    }
}

/// Ids are pairwise distinct and all below the next id to hand out.
pub open spec fn profiles_well_formed(profiles: Seq<ProfileView>, next_id: u32) -> bool {
    &&& forall|i: int| 0 <= i < profiles.len() ==> #[trigger] profiles[i].id < next_id
    &&& forall|i: int, j: int|
        0 <= i < j < profiles.len() ==> #[trigger] profiles[i].id != #[trigger] profiles[j].id
}

/// What the character-creation screen has collected so far.
pub struct CharacterCreationState {
    pub selected_class: Option<CharacterClass>,
    pub player_name: String,
    /// Id of the saved character being played, if any.
    pub editing_existing: Option<u32>,
}

impl Default for CharacterCreationState {
    fn default() -> (r: CharacterCreationState)
        ensures
            r.selected_class is None,
            r.player_name@.len() == 0,
            r.editing_existing is None,
    {
        CharacterCreationState {
            selected_class: None,
            player_name: String::new(),
            editing_existing: None,
        }
    }
}

/// Longest name, in bytes, that typing can extend.
pub const MAX_NAME_BYTES: usize = 20;

/// Number of name keys: the letters A to Z, then the digits 0 to 9.
pub const NAME_KEY_COUNT: u8 = 36;

/// The character typed by the name key at `index` (0 to 25 for A to Z, 26
/// to 35 for 0 to 9); letters are upper case while shift is held.
pub open spec fn key_char(index: u8, shift: bool) -> char {
    if index >= 26 {
        (48 + (index - 26)) as char
    } else if shift {
        (65 + index) as char
    } else {
        (97 + index) as char
    }
}

/// Appends `c` when the name is shorter than the limit.
pub open spec fn append_capped(name: Seq<char>, c: char) -> Seq<char> {
    if byte_len_of(name) < MAX_NAME_BYTES {
        name.push(c)
    } else {
        name
    }
}

/// The name after typing the keys `letters` in order.
pub open spec fn typed_letters(name: Seq<char>, letters: Seq<u8>, shift: bool) -> Seq<char>
    decreases letters.len(),
{
    if letters.len() == 0 {
        name
    } else {
        append_capped(
            typed_letters(name, letters.drop_last(), shift),
            key_char(letters.last(), shift),
        )
    }
}

/// The name before a backspace is applied.
pub open spec fn typed_name(name: Seq<char>, letters: Seq<u8>, shift: bool, space: bool) -> Seq<
    char,
> {
    let a = typed_letters(name, letters, shift);
    if space {
        append_capped(a, ' ')
    } else {
        a
    }
}

/// The name after one frame of keyboard input.
pub open spec fn edited_name(
    name: Seq<char>,
    letters: Seq<u8>,
    shift: bool,
    space: bool,
    backspace: bool,
) -> Seq<char> {
    let b = typed_name(name, letters, shift, space);
    if backspace && b.len() > 0 {
        b.drop_last()
    } else {
        b
    }
}

/// Applies one frame of name typing: the alphanumeric keys just pressed
/// (`letters`, indices 0..26 for A..Z then 26..36 for 0..9, in key order),
/// shift, space and backspace. Characters are added only while the name is
/// shorter than [`MAX_NAME_BYTES`] bytes; backspace removes the last one.
/// Returns whether the name should be redrawn.
pub fn handle_name_input(
    state: &mut CharacterCreationState,
    letters: &Vec<u8>,
    shift: bool,
    space: bool,
    backspace: bool,
) -> (changed: bool)
    requires
        forall|i: int| 0 <= i < letters@.len() ==> letters@[i] < NAME_KEY_COUNT,
    ensures
        final(state).player_name@ == edited_name(
            old(state).player_name@,
            letters@,
            shift,
            space,
            backspace,
        ),
        changed == (backspace || typed_name(old(state).player_name@, letters@, shift, space)
            != old(state).player_name@),
        final(state).selected_class == old(state).selected_class,
        final(state).editing_existing == old(state).editing_existing,
{
    let ghost name0 = state.player_name@;
    let mut changed = false;
    let mut i: usize = 0;
    while i < letters.len()
        invariant
            i <= letters.len(),
            forall|k: int| 0 <= k < letters@.len() ==> letters@[k] < NAME_KEY_COUNT,
            state.player_name@ == typed_letters(name0, letters@.subrange(0, i as int), shift),
            changed == (state.player_name@ != name0),
            state.player_name@.len() >= name0.len(),
            state.selected_class == old(state).selected_class,
            state.editing_existing == old(state).editing_existing,
        decreases letters.len() - i,
    {
        let idx = letters[i];
        let c: char = if idx >= 26 {
            (48u8 + (idx - 26)) as char
        } else if shift {
            (65u8 + idx) as char
        } else {
            (97u8 + idx) as char
        };
        proof {
            assert(letters@.subrange(0, i + 1).drop_last() =~= letters@.subrange(0, i as int));
            assert(letters@.subrange(0, i + 1).last() == idx);
        }
        if byte_len(&state.player_name) < MAX_NAME_BYTES {
            push_char(&mut state.player_name, c);
            changed = true;
        }
        i = i + 1;
    }
    proof {
        assert(letters@.subrange(0, letters@.len() as int) =~= letters@);
    }
    if space {
        if byte_len(&state.player_name) < MAX_NAME_BYTES {
            push_char(&mut state.player_name, ' ');
            changed = true;
        }
    }
    if backspace {
        pop_char(&mut state.player_name);
        changed = true;
    }
    changed
}

/// Text of the name field: the name, or a prompt while it is empty.
pub open spec fn name_field_text(name: Seq<char>) -> Seq<char> {
    if name.len() == 0 {
        "Enter name..."@
    } else {
        name
    }
}

/// Text of the name field for the current name.
pub fn name_display(name: &String) -> (s: String)
    ensures
        s@ == name_field_text(name@),
{
    if name.as_str().unicode_len() == 0 {
        String::from_str("Enter name...")
    } else {
        name.clone()
    }
}


/// The profile created for a new character.
pub open spec fn new_profile(id: u32, name: Seq<char>, class: CharacterClass) -> ProfileView {
    ProfileView {
        id,
        name,
        class,
        level: 1,
        xp: 0,
        play_time_bits: 0,
        gold: 0,
        completed_dungeons: Seq::empty(),
    }
}

/// Creates the character described by the creation screen: it takes the
/// next id, starts at level 1 with nothing earned, and is named after its
/// class when no name was typed. Nothing happens while no class is chosen.
/// Returns the new character's id.
pub fn confirm_character(state: &CharacterCreationState, profiles: &mut PlayerProfiles) -> (created:
    Option<u32>)
    requires
        state.selected_class is Some ==> old(profiles).next_id < u32::MAX,
    ensures
        match state.selected_class {
            None => created is None && profile_views(final(profiles).profiles@) == profile_views(
                old(profiles).profiles@,
            ) && final(profiles).next_id == old(profiles).next_id,
            Some(class) => {
                &&& created == Some(old(profiles).next_id)
                &&& final(profiles).next_id == old(profiles).next_id + 1
                &&& profile_views(final(profiles).profiles@) == profile_views(
                    old(profiles).profiles@,
                ).push(
                    new_profile(
                        old(profiles).next_id,
                        if state.player_name@.len() == 0 {
                            class_display_name(class)
                        } else {
                            state.player_name@
                        },
                        class,
                    ),
                )
            },
        },
{
    let class = match state.selected_class {
        Some(c) => c,
        None => {
            return None;
        },
    };
    let name = if state.player_name.as_str().unicode_len() == 0 {
        String::from_str(class.display_name())
    } else {
        state.player_name.clone()
    };
    let id = profiles.next_id;
    profiles.next_id = profiles.next_id + 1;
    profiles.profiles.push(
        PlayerProfile {
            id,
            name,
            class,
            level: 1,
            xp: 0,
            gold: 0,
            completed_dungeons: Vec::new(),
            play_time_bits: 0,
        },
    );
    proof {
        let nv = new_profile(
            id,
            if state.player_name@.len() == 0 {
                class_display_name(class)
            } else {
                state.player_name@
            },
            class,
        );
        assert(profiles.profiles@.last()@.completed_dungeons =~= Seq::<Seq<char>>::empty());
        assert(profiles.profiles@.last()@ == nv);
        assert(profile_views(profiles.profiles@) =~= profile_views(old(profiles).profiles@).push(nv));
    }
    Some(id)
}

/// Position of the profile with the given id (first match).
pub fn find_profile(profiles: &Vec<PlayerProfile>, id: u32) -> (r: Option<usize>)
    ensures
        match r {
            Some(i) => i < profiles@.len() && profiles@[i as int].id == id && forall|j: int|
                0 <= j < i ==> #[trigger] profiles@[j].id != id,
            None => forall|j: int| 0 <= j < profiles@.len() ==> #[trigger] profiles@[j].id != id,
        },
{
    let mut i: usize = 0;
    while i < profiles.len()
        invariant
            i <= profiles.len(),
            forall|j: int| 0 <= j < i ==> #[trigger] profiles@[j].id != id,
        decreases profiles.len() - i,
    {
        if profiles[i].id == id {
            return Some(i);
        }
        i = i + 1;
    }
    None
}

/// Picks a saved character to play: the creation state takes its class,
/// name and id. Returns whether a character with that id exists (nothing
/// changes otherwise).
pub fn play_existing_character(
    profiles: &PlayerProfiles,
    state: &mut CharacterCreationState,
    id: u32,
) -> (found: bool)
    ensures
        found == exists|j: int|
            0 <= j < profiles.profiles@.len() && #[trigger] profiles.profiles@[j].id == id,
        !found ==> final(state).selected_class == old(state).selected_class
            && final(state).player_name@ == old(state).player_name@
            && final(state).editing_existing == old(state).editing_existing,
        found ==> exists|j: int|
            0 <= j < profiles.profiles@.len() && #[trigger] profiles.profiles@[j].id == id
                && (forall|k: int| 0 <= k < j ==> #[trigger] profiles.profiles@[k].id != id)
                && final(state).selected_class == Some(profiles.profiles@[j].class)
                && final(state).player_name@ == profiles.profiles@[j].name@
                && final(state).editing_existing == Some(id),
{
    match find_profile(&profiles.profiles, id) {
        Some(i) => {
            let p = &profiles.profiles[i];
            state.selected_class = Some(p.class);
            state.player_name = p.name.clone();
            state.editing_existing = Some(p.id);
            true
        },
        None => false,
    }
}

/// The profiles left after deleting the character `id`.
pub open spec fn without_profile(profiles: Seq<ProfileView>, id: u32) -> Seq<ProfileView> {
    profiles.filter(|p: ProfileView| p.id != id)
}

/// Deletes every profile with the given id, keeping the others in order.
pub fn delete_character(profiles: &mut PlayerProfiles, id: u32)
    ensures
        profile_views(final(profiles).profiles@) == without_profile(
            profile_views(old(profiles).profiles@),
            id,
        ),
        final(profiles).next_id == old(profiles).next_id,
{
    let ghost before = profile_views(profiles.profiles@);
    let ghost keep = |p: ProfileView| p.id != id;
    let mut kept: Vec<PlayerProfile> = Vec::new();
    let mut i: usize = 0;
    while i < profiles.profiles.len()
        invariant
            i <= profiles.profiles.len(),
            before == profile_views(profiles.profiles@),
            profiles.next_id == old(profiles).next_id,
            keep == (|p: ProfileView| p.id != id),
            profile_views(kept@) =~= before.take(i as int).filter(keep),
        decreases profiles.profiles.len() - i,
    {
        proof {
            reveal_with_fuel(Seq::<_>::filter, 1);
            assert(before.take(i + 1).drop_last() =~= before.take(i as int));
        }
        if profiles.profiles[i].id != id {
            kept.push(profiles.profiles[i].duplicate());
        }
        i = i + 1;
    }
    proof {
        assert(before.take(i as int) =~= before);
    }
    profiles.profiles = kept;
}

/// Creating a character keeps ids distinct and below the next id.
pub proof fn lemma_confirm_keeps_ids_unique(
    profiles: Seq<ProfileView>,
    next_id: u32,
    created: ProfileView,
)
    requires
        profiles_well_formed(profiles, next_id),
        created.id == next_id,
        next_id < u32::MAX,
    ensures
        profiles_well_formed(profiles.push(created), (next_id + 1) as u32),
{
    let n = profiles.push(created);
    assert forall|i: int, j: int| 0 <= i < j < n.len() implies #[trigger] n[i].id
        != #[trigger] n[j].id by {
        if j < profiles.len() {
            assert(n[i] == profiles[i] && n[j] == profiles[j]);
        } else {
            assert(n[i] == profiles[i]);
        }
    }
}

/// Deleting a character keeps ids distinct, and no profile with the deleted
/// id remains.
pub proof fn lemma_delete_keeps_ids_unique(profiles: Seq<ProfileView>, next_id: u32, id: u32)
    requires
        profiles_well_formed(profiles, next_id),
    ensures
        profiles_well_formed(without_profile(profiles, id), next_id),
        forall|j: int|
            0 <= j < without_profile(profiles, id).len() ==> #[trigger] without_profile(
                profiles,
                id,
            )[j].id != id,
{
    let keep = |p: ProfileView| p.id != id;
    let f = profiles.filter(keep);
    lemma_filter_all(profiles, keep, |p: ProfileView| p.id < next_id);
    assert forall|j: int| 0 <= j < f.len() implies #[trigger] f[j].id < next_id && f[j].id != id by {
        profiles.lemma_filter_pred(keep, j);
    }
    lemma_filter_distinct_ids(profiles, keep);
}

/// A property of every element holds of every kept element.
proof fn lemma_filter_all<A>(s: Seq<A>, keep: spec_fn(A) -> bool, prop: spec_fn(A) -> bool)
    requires
        forall|k: int| 0 <= k < s.len() ==> prop(#[trigger] s[k]),
    ensures
        forall|i: int| 0 <= i < s.filter(keep).len() ==> prop(#[trigger] s.filter(keep)[i]),
    decreases s.len(),
{
    reveal_with_fuel(Seq::<_>::filter, 1);
    if s.len() > 0 {
        let t = s.drop_last();
        assert forall|k: int| 0 <= k < t.len() implies prop(#[trigger] t[k]) by {
            assert(t[k] == s[k]);
        }
        lemma_filter_all(t, keep, prop);
        let ft = t.filter(keep);
        if keep(s.last()) {
            assert forall|i: int| 0 <= i < s.filter(keep).len() implies prop(
                #[trigger] s.filter(keep)[i],
            ) by {
                assert(s.filter(keep) == ft.push(s.last()));
                if i < ft.len() {
                    assert(s.filter(keep)[i] == ft[i]);
                }
            }
        }
    }
}

/// Filtering a list with distinct ids keeps them distinct.
proof fn lemma_filter_distinct_ids(s: Seq<ProfileView>, keep: spec_fn(ProfileView) -> bool)
    requires
        forall|i: int, j: int| 0 <= i < j < s.len() ==> #[trigger] s[i].id != #[trigger] s[j].id,
    ensures
        forall|i: int, j: int|
            0 <= i < j < s.filter(keep).len() ==> #[trigger] s.filter(keep)[i].id
                != #[trigger] s.filter(keep)[j].id,
    decreases s.len(),
{
    reveal_with_fuel(Seq::<_>::filter, 1);
    if s.len() > 0 {
        let t = s.drop_last();
        assert forall|i: int, j: int| 0 <= i < j < t.len() implies #[trigger] t[i].id
            != #[trigger] t[j].id by {
            assert(t[i] == s[i] && t[j] == s[j]);
        }
        lemma_filter_distinct_ids(t, keep);
        let ft = t.filter(keep);
        if keep(s.last()) {
            let f = s.filter(keep);
            assert(f == ft.push(s.last()));
            assert forall|i: int, j: int| 0 <= i < j < f.len() implies #[trigger] f[i].id
                != #[trigger] f[j].id by {
                if j == ft.len() {
                    let last_id = s.last().id;
                    assert forall|k: int| 0 <= k < t.len() implies (|p: ProfileView| p.id
                        != last_id)(#[trigger] t[k]) by {
                        assert(s[k] == t[k]);
                    }
                    lemma_filter_all(t, keep, |p: ProfileView| p.id != last_id);
                    assert((|p: ProfileView| p.id != last_id)(ft[i]));
                } else {
                    assert(f[i] == ft[i] && f[j] == ft[j]);
                }
            }
        }
    }
}

} // verus!

verus! {

/// Appending an ASCII character below the limit keeps a name within it.
proof fn lemma_append_capped_short(name: Seq<char>, c: char)
    requires
        utf8_len(name) <= MAX_NAME_BYTES,
        (c as u32) < 128,
    ensures
        utf8_len(append_capped(name, c)) <= MAX_NAME_BYTES,
{
    if byte_len_of(name) < MAX_NAME_BYTES {
        lemma_utf8_len_push_ascii(name, c);
    }
}

/// Typed keys keep a name within the limit.
proof fn lemma_typed_letters_short(name: Seq<char>, letters: Seq<u8>, shift: bool)
    requires
        utf8_len(name) <= MAX_NAME_BYTES,
        forall|i: int| 0 <= i < letters.len() ==> letters[i] < NAME_KEY_COUNT,
    ensures
        utf8_len(typed_letters(name, letters, shift)) <= MAX_NAME_BYTES,
    decreases letters.len(),
{
    if letters.len() > 0 {
        lemma_typed_letters_short(name, letters.drop_last(), shift);
        let c = key_char(letters.last(), shift);
        assert((c as u32) < 128);
        lemma_append_capped_short(typed_letters(name, letters.drop_last(), shift), c);
    }
}

/// Typing keeps a name within [`MAX_NAME_BYTES`] bytes: letters, digits
/// and the space are one byte each and are added only below the limit, and
/// backspace only shortens.
pub proof fn lemma_typing_keeps_name_short(
    name: Seq<char>,
    letters: Seq<u8>,
    shift: bool,
    space: bool,
    backspace: bool,
)
    requires
        utf8_len(name) <= MAX_NAME_BYTES,
        forall|i: int| 0 <= i < letters.len() ==> letters[i] < NAME_KEY_COUNT,
    ensures
        utf8_len(edited_name(name, letters, shift, space, backspace)) <= MAX_NAME_BYTES,
{
    lemma_typed_letters_short(name, letters, shift);
    let a = typed_letters(name, letters, shift);
    if space {
        lemma_append_capped_short(a, ' ');
    }
    let b = typed_name(name, letters, shift, space);
    if backspace && b.len() > 0 {
        lemma_utf8_len_drop_last(b);
    }
}

} // verus!

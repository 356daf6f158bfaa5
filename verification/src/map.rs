//! World-map rules: which zone a position lies in, zone-change transitions,
//! cleared-zone tracking and respawn bookkeeping, entering dungeons, and
//! planning what a zone spawns (enemies, decorations, ground patches,
//! pebbles, grass).

use vstd::prelude::*;
use rand::Rng;
use crate::search::{first_where, is_first_where, lemma_first_where_is, lemma_first_where_none};
use crate::zone::{
    all_zones, composition, tier_range, world_zones, zone_display_name, zone_label_text,
    zone_views, EnemyVariant, ZoneDef, ZoneId, ZoneView,
};

verus! {

/// Position of the first zone with the given id.
pub open spec fn zone_position(zones: Seq<ZoneView>, id: ZoneId) -> Option<int> {
    first_where(zones, |z: ZoneView| z.id == id)
}

/// Fetches the definition of a zone by scanning [`all_zones`].
pub fn zone_def_by_id(id: &ZoneId) -> (r: Option<ZoneDef>)
    ensures
        match zone_position(world_zones(), *id) {
            Some(i) => r is Some && r->0@ == world_zones()[i],
            None => r is None,
        },
{
    let mut zones = all_zones();
    let ghost views = zone_views(zones@);
    let ghost p = |z: ZoneView| z.id == *id;
    let mut i: usize = 0;
    while i < zones.len()
        invariant
            i <= zones.len(),
            views == zone_views(zones@),
            views == world_zones(),
            p == (|z: ZoneView| z.id == *id),
            forall|j: int| 0 <= j < i ==> !p(#[trigger] views[j]),
        decreases zones.len() - i,
    {
        if zones[i].id == *id {
            proof {
                assert(is_first_where(views, p, i as int));
                lemma_first_where_is(views, p, i as int);
            }
            let z = zones.swap_remove(i);
            return Some(z);
        }
        i = i + 1;
    }
    proof {
        lemma_first_where_none(views, p);
    }
    None
}

/// The world-unit square `[x, x+1) x [z, z+1)` lies in zone `z`'s area: the
/// zone spans `2 * offset .. 2 * (offset + tiles)` on each axis.
pub open spec fn zone_contains(zone: ZoneView, x: int, z: int) -> bool {
    &&& 2 * zone.offset_x <= x < 2 * zone.offset_x + 2 * zone.tile_w
    &&& 2 * zone.offset_z <= z < 2 * zone.offset_z + 2 * zone.tile_h
}

/// The zone a position lies in: the first whose area contains it.
pub open spec fn zone_at_spec(x: int, z: int) -> Option<ZoneId> {
    match first_where(world_zones(), |zv: ZoneView| zone_contains(zv, x, z)) {
        Some(i) => Some(world_zones()[i].id),
        None => None,
    }
}

/// The zone containing the position whose world coordinates round down to
/// `(x, z)` (zone borders lie on whole units, so rounding down decides
/// membership exactly), or `None` between zones.
pub fn zone_at(x: i64, z: i64) -> (r: Option<ZoneId>)
    ensures
        r == zone_at_spec(x as int, z as int),
{
    let zones = all_zones();
    let ghost views = zone_views(zones@);
    let ghost p = |zv: ZoneView| zone_contains(zv, x as int, z as int);
    proof {
        lemma_world_zone_bounds();
    }
    let mut i: usize = 0;
    while i < zones.len()
        invariant
            i <= zones.len(),
            views == zone_views(zones@),
            views == world_zones(),
            forall|j: int|
                0 <= j < views.len() ==> #[trigger] views[j].tile_w == 20 && views[j].tile_h == 20
                    && -25 <= views[j].offset_x <= 25 && -25 <= views[j].offset_z <= 25,
            p == (|zv: ZoneView| zone_contains(zv, x as int, z as int)),
            forall|j: int| 0 <= j < i ==> !p(#[trigger] views[j]),
        decreases zones.len() - i,
    {
        let zd = &zones[i];
        proof {
            assert(views[i as int] == zd@);
            assert(views[i as int].tile_w == 20);
            assert(zd.tile_w == 20 && zd.tile_h == 20);
            assert(-25 <= zd.offset_x <= 25 && -25 <= zd.offset_z <= 25);
        }
        let x_min: i64 = zd.offset_x as i64 * 2;
        let x_max: i64 = x_min + zd.tile_w as i64 * 2;
        let z_min: i64 = zd.offset_z as i64 * 2;
        let z_max: i64 = z_min + zd.tile_h as i64 * 2;
        if x >= x_min && x < x_max && z >= z_min && z < z_max {
            proof {
                assert(is_first_where(views, p, i as int));
                lemma_first_where_is(views, p, i as int);
            }
            return Some(zd.id);
        }
        i = i + 1;
    }
    proof {
        lemma_first_where_none(views, p);
    }
    None
}

/// Every zone is 20 by 20 tiles and lies within 25 tiles of the origin.
proof fn lemma_world_zone_bounds()
    ensures
        world_zones().len() == 5,
        forall|j: int|
            0 <= j < world_zones().len() ==> #[trigger] world_zones()[j].tile_w == 20
                && world_zones()[j].tile_h == 20 && -25 <= world_zones()[j].offset_x <= 25 && -25
                <= world_zones()[j].offset_z <= 25,
{
    let zs = world_zones();
    assert forall|j: int| 0 <= j < zs.len() implies #[trigger] zs[j].tile_w == 20 && zs[j].tile_h
        == 20 && -25 <= zs[j].offset_x <= 25 && -25 <= zs[j].offset_z <= 25 by {
        if j == 0 {
        } else if j == 1 {
        } else if j == 2 {
        } else if j == 3 {
        } else {
        }
    }
}

/// The zone areas do not overlap, so the zone of a position does not
/// depend on the order in which zones are scanned.
pub proof fn lemma_zones_disjoint(x: int, z: int)
    ensures
        forall|i: int, j: int|
            0 <= i < j < world_zones().len() ==> !(zone_contains(world_zones()[i], x, z)
                && zone_contains(world_zones()[j], x, z)),
        forall|i: int|
            0 <= i < world_zones().len() && zone_contains(world_zones()[i], x, z) ==> zone_at_spec(
                x,
                z,
            ) == Some(world_zones()[i].id),
{
    let zs = world_zones();
    assert forall|i: int| 0 <= i < zs.len() && zone_contains(zs[i], x, z) implies zone_at_spec(
        x,
        z,
    ) == Some(zs[i].id) by {
        let p = |zv: ZoneView| zone_contains(zv, x, z);
        assert(is_first_where(zs, p, i));
        lemma_first_where_is(zs, p, i);
    }
}

/// The player's current zone (`None` between zones or in a dungeon).
pub struct CurrentZone(pub Option<ZoneId>);

impl Default for CurrentZone {
    fn default() -> (r: CurrentZone)
        ensures
            r.0 is None,
    {
        CurrentZone(None)
    }
}

/// Updates the current zone from the player's position rounded down to
/// whole world units.
pub fn track_player_zone(current: &mut CurrentZone, x: i64, z: i64)
    ensures
        final(current).0 == zone_at_spec(x as int, z as int),
{
    current.0 = zone_at(x, z);
}

/// Phases of the zone-transition overlay.
#[derive(Clone, Copy, Debug, PartialEq, Eq, Structural)]
pub enum TransitionPhase {
    /// No transition running.
    Idle,
    FadeIn,
    Hold,
    FadeOut,
}

/// Zone transition state for the loading screen overlay; the timer is the
/// bit pattern of a single-precision number of seconds.
pub struct ZoneTransitionState {
    pub active: bool,
    pub zone_name: String,
    pub zone_label: String,
    pub timer_bits: u32,
    pub phase: TransitionPhase,
    pub previous_zone: Option<ZoneId>,
}

impl Default for ZoneTransitionState {
    fn default() -> (r: ZoneTransitionState)
        ensures
            !r.active && r.zone_name@.len() == 0 && r.zone_label@.len() == 0 && r.timer_bits == 0
                && r.phase == TransitionPhase::Idle && r.previous_zone is None,
    {
        ZoneTransitionState {
            active: false,
            zone_name: String::new(),
            zone_label: String::new(),
            timer_bits: 0,
            phase: TransitionPhase::Idle,
            previous_zone: None,
        }
    }
}

/// The overlay's own fields agree between two states.
pub open spec fn same_overlay(a: ZoneTransitionState, b: ZoneTransitionState) -> bool {
    &&& a.active == b.active
    &&& a.zone_name@ == b.zone_name@
    &&& a.zone_label@ == b.zone_label@
    &&& a.timer_bits == b.timer_bits
    &&& a.phase == b.phase
}

/// The overlay as started for entering zone `z`.
pub open spec fn overlay_started(t: ZoneTransitionState, z: ZoneId) -> bool {
    &&& t.active
    &&& t.zone_name@ == zone_display_name(z)
    &&& t.zone_label@ == zone_label_text(z)
    &&& t.timer_bits == 0
    &&& t.phase == TransitionPhase::FadeIn
}

/// Starts the transition overlay when the player enters a zone other than
/// the one last seen; leaving a zone for the space between zones shows
/// nothing. The zone seen is remembered either way.
pub fn detect_zone_change(current: &CurrentZone, transition: &mut ZoneTransitionState)
    ensures
        final(transition).previous_zone == current.0,
        old(transition).previous_zone == current.0 ==> same_overlay(*final(transition), *old(transition)),
        old(transition).previous_zone != current.0 ==> match current.0 {
            Some(z) => overlay_started(*final(transition), z),
            None => same_overlay(*final(transition), *old(transition)),
        },
{
    if transition.previous_zone != current.0 {
        if let Some(zone_id) = current.0 {
            transition.active = true;
            transition.zone_name = zone_id.display_name().to_owned();
            transition.zone_label = zone_id.zone_label().to_owned();
            transition.timer_bits = 0;
            transition.phase = TransitionPhase::FadeIn;
        }
        transition.previous_zone = current.0;
    }
}

/// What to do with the overlay after a transition step.
#[derive(Clone, Copy, Debug, PartialEq, Eq, Structural)]
pub enum OverlayAction {
    /// Remove the overlay.
    Despawn,
    /// Keep the overlay and draw it with the phase's current opacity.
    Show,
}

/// Activity, phase and overlay action after one step of the overlay.
pub open spec fn next_overlay(active: bool, phase: TransitionPhase, phase_over: bool) -> (
    bool,
    TransitionPhase,
    OverlayAction,
) {
    if !active {
        (active, phase, OverlayAction::Despawn)
    } else {
        match phase {
            TransitionPhase::FadeIn => if phase_over {
                (true, TransitionPhase::Hold, OverlayAction::Show)
            } else {
                (true, TransitionPhase::FadeIn, OverlayAction::Show)
            },
            TransitionPhase::Hold => if phase_over {
                (true, TransitionPhase::FadeOut, OverlayAction::Show)
            } else {
                (true, TransitionPhase::Hold, OverlayAction::Show)
            },
            TransitionPhase::FadeOut => if phase_over {
                (false, TransitionPhase::Idle, OverlayAction::Despawn)
            } else {
                (true, TransitionPhase::FadeOut, OverlayAction::Show)
            },
            TransitionPhase::Idle => (true, TransitionPhase::Idle, OverlayAction::Despawn),
        }
    }
}

/// A phase whose time is not up goes on: an active overlay that is fading
/// in, holding the zone name or fading out keeps its phase, stays active
/// and keeps showing until its phase is over.
pub proof fn law_overlay_waits_for_phase_end(phase: TransitionPhase)
    requires
        phase != TransitionPhase::Idle,
    ensures
        next_overlay(true, phase, false) == (true, phase, OverlayAction::Show),
{
}

/// The overlay runs its phases in order, one per phase end: fade in, hold,
/// fade out, then it is removed and the transition ends. It shows in every
/// phase before that.
pub proof fn law_overlay_phase_order()
    ensures
        next_overlay(true, TransitionPhase::FadeIn, true) == (
            true,
            TransitionPhase::Hold,
            OverlayAction::Show,
        ),
        next_overlay(true, TransitionPhase::Hold, true) == (
            true,
            TransitionPhase::FadeOut,
            OverlayAction::Show,
        ),
        next_overlay(true, TransitionPhase::FadeOut, true) == (
            false,
            TransitionPhase::Idle,
            OverlayAction::Despawn,
        ),
{
}

/// The overlay is shown exactly while a transition is under way: the step
/// shows it when, and only when, the transition is still active afterwards
/// in a phase of its own; an inactive transition removes it and stays
/// inactive.
pub proof fn law_overlay_shown_while_active(active: bool, phase: TransitionPhase, phase_over: bool)
    ensures
        (next_overlay(active, phase, phase_over).2 == OverlayAction::Show) <==> (next_overlay(
            active,
            phase,
            phase_over,
        ).0 && next_overlay(active, phase, phase_over).1 != TransitionPhase::Idle),
        !active ==> next_overlay(active, phase, phase_over).0 == false
            && next_overlay(active, phase, phase_over).2 == OverlayAction::Despawn,
        next_overlay(active, phase, phase_over).1 != phase ==> phase_over,
{
}

/// One step of the overlay: fade in (half a second), hold (a second and a
/// half), fade out (half a second), then remove. `phase_over` tells whether
/// the time spent in the current phase has reached that phase's length;
/// moving to the next phase restarts the timer.
pub fn advance_zone_transition(transition: &mut ZoneTransitionState, phase_over: bool) -> (action:
    OverlayAction)
    ensures
        action == next_overlay(old(transition).active, old(transition).phase, phase_over).2,
        final(transition).active == next_overlay(old(transition).active, old(transition).phase, phase_over).0,
        final(transition).phase == next_overlay(old(transition).active, old(transition).phase, phase_over).1,
        final(transition).timer_bits == if old(transition).active && phase_over && (old(transition).phase == TransitionPhase::FadeIn || old(transition).phase == TransitionPhase::Hold) {
            0
        } else {
            old(transition).timer_bits
        },
        final(transition).zone_name@ == old(transition).zone_name@,
        final(transition).zone_label@ == old(transition).zone_label@,
        final(transition).previous_zone == old(transition).previous_zone,
{
    if !transition.active {
        return OverlayAction::Despawn;
    }
    match transition.phase {
        TransitionPhase::FadeIn => {
            if phase_over {
                transition.phase = TransitionPhase::Hold;
                transition.timer_bits = 0;
            }
            OverlayAction::Show
        },
        TransitionPhase::Hold => {
            if phase_over {
                transition.phase = TransitionPhase::FadeOut;
                transition.timer_bits = 0;
            }
            OverlayAction::Show
        },
        TransitionPhase::FadeOut => {
            if phase_over {
                transition.active = false;
                transition.phase = TransitionPhase::Idle;
                OverlayAction::Despawn
            } else {
                OverlayAction::Show
            }
        },
        TransitionPhase::Idle => OverlayAction::Despawn,
    }
}


/// Zones whose enemies have all been cleared. Together with the respawn
/// timers it satisfies [`zones_tracked`]: each cleared zone is listed once,
/// and exactly the cleared zones have a timer.
pub struct ZoneCleared {
    pub cleared: Vec<ZoneId>,
}

impl Default for ZoneCleared {
    fn default() -> (r: ZoneCleared)
        ensures
            r.cleared@.len() == 0,
    {
        ZoneCleared { cleared: Vec::new() }
    }
}

/// Respawn timers per zone: the zone and the bit pattern of the
/// single-precision seconds left; see [`zones_tracked`] for how they stay
/// in step with the cleared zones.
pub struct WorldEnemyRespawnTimer {
    pub timers: Vec<(ZoneId, u32)>,
}

impl Default for WorldEnemyRespawnTimer {
    fn default() -> (r: WorldEnemyRespawnTimer)
        ensures
            r.timers@.len() == 0,
    {
        WorldEnemyRespawnTimer { timers: Vec::new() }
    }
}

/// Bit pattern of the 30 seconds a cleared zone waits before respawning.
pub const RESPAWN_DELAY_BITS: u32 = 0x41f0_0000;

/// The zones of a timer list.
pub open spec fn timer_zones(t: Seq<(ZoneId, u32)>) -> Seq<ZoneId> {
    t.map_values(|e: (ZoneId, u32)| e.0)
}

/// Whether `z` occurs in `zones`.
pub fn contains_zone(zones: &Vec<ZoneId>, z: ZoneId) -> (r: bool)
    ensures
        r == zones@.contains(z),
{
    let mut i: usize = 0;
    while i < zones.len()
        invariant
            i <= zones.len(),
            forall|j: int| 0 <= j < i ==> zones@[j] != z,
        decreases zones.len() - i,
    {
        if zones[i] == z {
            assert(zones@[i as int] == z);
            return true;
        }
        i = i + 1;
    }
    false
}

/// Whether a timer runs for `z`.
pub fn has_timer(timers: &Vec<(ZoneId, u32)>, z: ZoneId) -> (r: bool)
    ensures
        r == timer_zones(timers@).contains(z),
{
    let mut i: usize = 0;
    while i < timers.len()
        invariant
            i <= timers.len(),
            forall|j: int| 0 <= j < i ==> timers@[j].0 != z,
        decreases timers.len() - i,
    {
        if timers[i].0 == z {
            assert(timer_zones(timers@)[i as int] == z);
            return true;
        }
        i = i + 1;
    }
    proof {
        assert forall|j: int| 0 <= j < timer_zones(timers@).len() implies timer_zones(
            timers@,
        )[j] != z by {
            assert(timer_zones(timers@)[j] == timers@[j].0);
        }
    }
    false
}

/// Number of positions (rounded down to whole world units) inside a zone.
pub open spec fn count_inside(zone: ZoneView, positions: Seq<(i64, i64)>) -> nat
    decreases positions.len(),
{
    if positions.len() == 0 {
        0
    } else {
        count_inside(zone, positions.drop_last()) + if zone_contains(
            zone,
            positions.last().0 as int,
            positions.last().1 as int,
        ) {
            1nat
        } else {
            0nat
        }
    }
}

/// Counts the enemies standing in a zone.
pub fn count_enemies_in_zone(zone: &ZoneDef, positions: &Vec<(i64, i64)>) -> (n: usize)
    ensures
        n == count_inside(zone@, positions@),
{
    let x_min: i128 = zone.offset_x as i128 * 2;
    let x_max: i128 = x_min + zone.tile_w as i128 * 2;
    let z_min: i128 = zone.offset_z as i128 * 2;
    let z_max: i128 = z_min + zone.tile_h as i128 * 2;
    let mut n: usize = 0;
    let mut i: usize = 0;
    while i < positions.len()
        invariant
            i <= positions.len(),
            n <= i,
            n == count_inside(zone@, positions@.subrange(0, i as int)),
            x_min == 2 * zone.offset_x && x_max == x_min + 2 * zone.tile_w,
            z_min == 2 * zone.offset_z && z_max == z_min + 2 * zone.tile_h,
        decreases positions.len() - i,
    {
        proof {
            assert(positions@.subrange(0, i + 1).drop_last() =~= positions@.subrange(0, i as int));
        }
        let (x, z) = positions[i];
        let x = x as i128;
        let z = z as i128;
        if x >= x_min && x < x_max && z >= z_min && z < z_max {
            n = n + 1;
        }
        i = i + 1;
    }
    proof {
        assert(positions@.subrange(0, i as int) =~= positions@);
    }
    n
}

/// Zones that become cleared in a check: zones of the map without a running
/// timer, not yet marked cleared and with no enemy inside, in map order.
pub open spec fn newly_cleared(
    zones: Seq<ZoneView>,
    cleared: Seq<ZoneId>,
    timers: Seq<ZoneId>,
    enemies: Seq<(i64, i64)>,
) -> Seq<ZoneId>
    decreases zones.len(),
{
    if zones.len() == 0 {
        Seq::empty()
    } else {
        let earlier = newly_cleared(zones.drop_last(), cleared, timers, enemies);
        let z = zones.last();
        if z.id != ZoneId::Void && !timers.contains(z.id) && count_inside(z, enemies) == 0
            && !cleared.contains(z.id) {
            earlier.push(z.id)
        } else {
            earlier
        }
    }
}

/// Marks every zone with no enemies left as cleared and starts its 30-second
/// respawn timer; zones with a running timer or already cleared are left
/// alone. `enemies` are enemy positions rounded down to whole world units.
pub fn check_zone_cleared(
    enemies: &Vec<(i64, i64)>,
    cleared: &mut ZoneCleared,
    respawn_timer: &mut WorldEnemyRespawnTimer,
)
    ensures
        final(cleared).cleared@ == old(cleared).cleared@ + newly_cleared(
            world_zones(),
            old(cleared).cleared@,
            timer_zones(old(respawn_timer).timers@),
            enemies@,
        ),
        final(respawn_timer).timers@ == old(respawn_timer).timers@ + newly_cleared(
            world_zones(),
            old(cleared).cleared@,
            timer_zones(old(respawn_timer).timers@),
            enemies@,
        ).map_values(|z: ZoneId| (z, RESPAWN_DELAY_BITS)),
        zones_tracked(old(cleared).cleared@, old(respawn_timer).timers@) ==> zones_tracked(
            final(cleared).cleared@,
            final(respawn_timer).timers@,
        ),
{
    proof {
        if zones_tracked(cleared.cleared@, respawn_timer.timers@) {
            lemma_check_keeps_zones_tracked(cleared.cleared@, respawn_timer.timers@, enemies@);
        }
    }
    let zones = all_zones();
    let ghost views = zone_views(zones@);
    let ghost c0 = cleared.cleared@;
    let ghost t0 = timer_zones(respawn_timer.timers@);
    let ghost tv0 = respawn_timer.timers@;
    proof {
        lemma_world_zone_bounds();
        lemma_world_zone_ids_distinct();
    }
    let mut i: usize = 0;
    while i < zones.len()
        invariant
            i <= zones.len(),
            views == zone_views(zones@),
            views == world_zones(),
            forall|j: int|
                0 <= j < views.len() ==> #[trigger] views[j].tile_w == 20 && views[j].tile_h == 20
                    && -25 <= views[j].offset_x <= 25 && -25 <= views[j].offset_z <= 25,
            forall|a: int, b: int|
                0 <= a < b < views.len() ==> #[trigger] views[a].id != #[trigger] views[b].id,
            t0 == timer_zones(tv0),
            cleared.cleared@ == c0 + newly_cleared(views.subrange(0, i as int), c0, t0, enemies@),
            respawn_timer.timers@ == tv0 + newly_cleared(
                views.subrange(0, i as int),
                c0,
                t0,
                enemies@,
            ).map_values(|z: ZoneId| (z, RESPAWN_DELAY_BITS)),
            forall|z: ZoneId|
                #[trigger] newly_cleared(views.subrange(0, i as int), c0, t0, enemies@).contains(z)
                    ==> exists|j: int| 0 <= j < i && #[trigger] views[j].id == z,
        decreases zones.len() - i,
    {
        let ghost pre = newly_cleared(views.subrange(0, i as int), c0, t0, enemies@);
        let zd = &zones[i];
        proof {
            assert(views[i as int] == zd@);
            assert(views[i as int].tile_w == 20);
            assert(views.subrange(0, i + 1).drop_last() =~= views.subrange(0, i as int));
            assert(views.subrange(0, i + 1).last() == zd@);
        }
        let zone_id = zd.id;
        if zone_id != ZoneId::Void {
            if !has_timer(&respawn_timer.timers, zone_id) {
                let count = count_enemies_in_zone(zd, enemies);
                if count == 0 && !contains_zone(&cleared.cleared, zone_id) {
                    proof {
                        assert(!pre.contains(zone_id)) by {
                            if pre.contains(zone_id) {
                                let j = choose|j: int| 0 <= j < i && #[trigger] views[j].id == zone_id;
                                assert(views[j].id == views[i as int].id);
                            }
                        }
                        assert(!c0.contains(zone_id)) by {
                            if c0.contains(zone_id) {
                                let k = choose|k: int| 0 <= k < c0.len() && c0[k] == zone_id;
                                assert((c0 + pre)[k] == zone_id);
                            }
                        }
                        assert(!t0.contains(zone_id)) by {
                            if t0.contains(zone_id) {
                                let k = choose|k: int| 0 <= k < t0.len() && t0[k] == zone_id;
                                assert(t0.len() == tv0.len());
                                assert(respawn_timer.timers@[k] == tv0[k]);
                                assert(t0[k] == tv0[k].0);
                                assert(timer_zones(respawn_timer.timers@)[k] == zone_id);
                            }
                        }
                    }
                    cleared.cleared.push(zone_id);
                    respawn_timer.timers.push((zone_id, RESPAWN_DELAY_BITS));
                    proof {
                        let post = newly_cleared(views.subrange(0, i + 1), c0, t0, enemies@);
                        assert(post == pre.push(zone_id));
                        assert(cleared.cleared@ =~= c0 + post);
                        assert(post.map_values(|z: ZoneId| (z, RESPAWN_DELAY_BITS)) =~= pre.map_values(
                            |z: ZoneId| (z, RESPAWN_DELAY_BITS),
                        ).push((zone_id, RESPAWN_DELAY_BITS)));
                        assert(respawn_timer.timers@ =~= tv0 + post.map_values(
                            |z: ZoneId| (z, RESPAWN_DELAY_BITS),
                        ));
                        assert forall|z: ZoneId| #[trigger] post.contains(z) implies exists|j: int|
                            0 <= j < i + 1 && #[trigger] views[j].id == z by {
                            if z == zone_id {
                                assert(views[i as int].id == z);
                            } else {
                                let k = choose|k: int| 0 <= k < post.len() && post[k] == z;
                                assert(pre[k] == z);
                                assert(pre.contains(z));
                            }
                        }
                    }
                } else {
                    proof {
                        assert(c0.contains(zone_id) || count_inside(zd@, enemies@) != 0) by {
                            if count == 0 {
                                let k = choose|k: int|
                                    0 <= k < cleared.cleared@.len() && cleared.cleared@[k] == zone_id;
                                if k >= c0.len() {
                                    let j = choose|j: int| 0 <= j < i && #[trigger] views[j].id == zone_id;
                                    assert(pre[k - c0.len()] == zone_id);
                                    assert(pre.contains(zone_id));
                                    assert(views[j].id == views[i as int].id);
                                } else {
                                    assert(c0[k] == zone_id);
                                }
                            }
                        }
                    }
                }
            } else {
                proof {
                    assert(t0.contains(zone_id)) by {
                        let k = choose|k: int|
                            0 <= k < timer_zones(respawn_timer.timers@).len() && timer_zones(
                                respawn_timer.timers@,
                            )[k] == zone_id;
                        assert(timer_zones(respawn_timer.timers@)[k] == respawn_timer.timers@[k].0);
                        if k >= tv0.len() {
                            let m = k - tv0.len();
                            assert(pre.map_values(|z: ZoneId| (z, RESPAWN_DELAY_BITS))[m].0 == pre[m]);
                            assert(pre.contains(zone_id));
                            let j = choose|j: int| 0 <= j < i && #[trigger] views[j].id == zone_id;
                            assert(views[j].id == views[i as int].id);
                        } else {
                            assert(t0.len() == tv0.len());
                            assert(respawn_timer.timers@[k] == tv0[k]);
                            assert(t0[k] == tv0[k].0);
                        }
                    }
                }
            }
        }
        i = i + 1;
    }
    proof {
        assert(views.subrange(0, i as int) =~= views);
    }
}

/// The five zones have distinct ids.
proof fn lemma_world_zone_ids_distinct()
    ensures
        forall|a: int, b: int|
            0 <= a < b < world_zones().len() ==> #[trigger] world_zones()[a].id
                != #[trigger] world_zones()[b].id,
{
}


/// A random integer in `lo..=hi`, drawn by calling
/// `rand::thread_rng().gen_range(lo..=hi)`; trusted only to lie in that
/// range (which value comes out is chance). `gen_range` panics on an empty
/// range, which `lo <= hi` rules out.
#[verifier::external_body]
fn random_u32_inclusive(lo: u32, hi: u32) -> (r: u32)
    requires
        lo <= hi,
    ensures
        lo <= r <= hi,
{
    rand::thread_rng().gen_range(lo..=hi)
}

/// The variant a roll picks: walking the mix in order, the first variant
/// whose cumulative weight exceeds the roll (Grunt if none does).
pub open spec fn pick_variant(mix: Seq<(EnemyVariant, u32)>, roll: int) -> EnemyVariant
    decreases mix.len(),
{
    if mix.len() == 0 {
        EnemyVariant::Grunt
    } else if roll < mix[0].1 {
        mix[0].0
    } else {
        pick_variant(mix.drop_first(), roll - mix[0].1)
    }
}

/// Sum of the weights of a mix.
pub open spec fn total_weight(mix: Seq<(EnemyVariant, u32)>) -> int
    decreases mix.len(),
{
    if mix.len() == 0 {
        0
    } else {
        mix[0].1 + total_weight(mix.drop_first())
    }
}

/// Sum of the first `k` weights.
pub open spec fn weight_prefix(mix: Seq<(EnemyVariant, u32)>, k: int) -> int
    decreases k,
{
    if k <= 0 {
        0
    } else {
        weight_prefix(mix, k - 1) + mix[k - 1].1
    }
}

proof fn lemma_pick_skip(mix: Seq<(EnemyVariant, u32)>, roll: int, k: int)
    requires
        0 <= k < mix.len(),
        roll >= weight_prefix(mix, k + 1),
    ensures
        pick_variant(mix.skip(k), roll - weight_prefix(mix, k)) == pick_variant(
            mix.skip(k + 1),
            roll - weight_prefix(mix, k + 1),
        ),
{
    assert(mix.skip(k)[0] == mix[k]);
    assert(mix.skip(k).drop_first() =~= mix.skip(k + 1));
}

proof fn lemma_total_is_prefix(mix: Seq<(EnemyVariant, u32)>)
    ensures
        total_weight(mix) == weight_prefix(mix, mix.len() as int),
    decreases mix.len(),
{
    if mix.len() > 0 {
        lemma_total_is_prefix(mix.drop_first());
        lemma_prefix_shift(mix, mix.len() as int);
    }
}

proof fn lemma_prefix_shift(mix: Seq<(EnemyVariant, u32)>, k: int)
    requires
        1 <= k <= mix.len(),
    ensures
        weight_prefix(mix, k) == mix[0].1 + weight_prefix(mix.drop_first(), k - 1),
    decreases k,
{
    if k > 1 {
        lemma_prefix_shift(mix, k - 1);
        assert(mix.drop_first()[k - 2] == mix[k - 1]);
        assert(weight_prefix(mix.drop_first(), k - 1) == weight_prefix(mix.drop_first(), k - 2)
            + mix.drop_first()[k - 2].1);
    } else {
        assert(weight_prefix(mix.drop_first(), 0) == 0);
        assert(weight_prefix(mix, 0) == 0);
    }
}

/// Picks the variant for a roll by walking the mix's cumulative weights.
pub fn select_variant(mix: &Vec<(EnemyVariant, u32)>, roll: u32) -> (v: EnemyVariant)
    requires
        total_weight(mix@) <= u32::MAX,
    ensures
        v == pick_variant(mix@, roll as int),
{
    let mut cumulative: u32 = 0;
    let mut i: usize = 0;
    proof {
        lemma_total_is_prefix(mix@);
        assert(mix@.skip(0) =~= mix@);
    }
    while i < mix.len()
        invariant
            i <= mix.len(),
            cumulative == weight_prefix(mix@, i as int),
            roll >= cumulative,
            total_weight(mix@) == weight_prefix(mix@, mix@.len() as int),
            total_weight(mix@) <= u32::MAX,
            pick_variant(mix@, roll as int) == pick_variant(mix@.skip(i as int), roll - cumulative),
        decreases mix.len() - i,
    {
        proof {
            lemma_prefix_monotone(mix@, i + 1, mix@.len() as int);
        }
        cumulative = cumulative + mix[i].1;
        if roll < cumulative {
            proof {
                assert(mix@.skip(i as int)[0] == mix@[i as int]);
            }
            return mix[i].0;
        }
        proof {
            lemma_pick_skip(mix@, roll as int, i as int);
        }
        i = i + 1;
    }
    proof {
        assert(mix@.skip(i as int) =~= Seq::<(EnemyVariant, u32)>::empty());
    }
    EnemyVariant::Grunt
}

proof fn lemma_prefix_monotone(mix: Seq<(EnemyVariant, u32)>, a: int, b: int)
    requires
        0 <= a <= b <= mix.len(),
    ensures
        weight_prefix(mix, a) <= weight_prefix(mix, b),
    decreases b - a,
{
    if a < b {
        lemma_prefix_monotone(mix, a, b - 1);
    }
}

/// How many enemies a zone spawns at most and at least.
pub open spec fn spawn_count_range(z: ZoneId) -> (u32, u32) {
    match z {
        ZoneId::Grasslands => (3, 6),
        ZoneId::Desert => (4, 7),
        ZoneId::Forest => (4, 6),
        ZoneId::Tundra => (5, 8),
        ZoneId::Swamp => (4, 7),
        ZoneId::Void => (3, 5),
    }
}

/// Index into a zone's five enemy colours (Grunt, Ranged, Charger, Elite,
/// Boss); other variants use the Grunt colour.
pub open spec fn color_index_of(v: EnemyVariant) -> usize {
    match v {
        EnemyVariant::Grunt => 0,
        EnemyVariant::Ranged => 1,
        EnemyVariant::Charger => 2,
        EnemyVariant::Elite => 3,
        EnemyVariant::Boss => 4,
        _ => 0,
    }
}

/// The integer part of one enemy to spawn: what it is and on which tile.
/// The caller adds the sub-tile jitter and the real-valued health and speed.
#[derive(Clone, Copy, Debug, PartialEq, Eq, Structural)]
pub struct EnemySpawn {
    pub variant: EnemyVariant,
    pub tier: u32,
    /// Experience the enemy is worth: 5 plus 5 per tier.
    pub xp_reward: u64,
    pub tile_x: usize,
    pub tile_z: usize,
    pub color_index: usize,
}

/// The random values drawn for one enemy: the weight roll, the tier and
/// the tile.
#[derive(Clone, Copy, Debug, PartialEq, Eq, Structural)]
pub struct EnemyDraw {
    pub roll: u32,
    pub tier: u32,
    pub tile_x: usize,
    pub tile_z: usize,
}

/// The enemy that a draw gives in zone `z`: the variant the roll picks from
/// the zone's mix, the drawn tier and tile, 5 plus 5 per tier experience,
/// and the variant's colour.
pub open spec fn enemy_of(z: ZoneId, d: EnemyDraw) -> EnemySpawn {
    let v = pick_variant(composition(z), d.roll as int);
    EnemySpawn {
        variant: v,
        tier: d.tier,
        xp_reward: (5 + 5 * d.tier) as u64,
        tile_x: d.tile_x,
        tile_z: d.tile_z,
        color_index: color_index_of(v),
    }
}

/// A draw lies in the ranges the game draws from: a roll below the mix's
/// total weight, a tier in the zone's tier range, a tile away from the
/// zone's border.
pub open spec fn draw_in_range(z: ZoneId, zone: ZoneView, d: EnemyDraw) -> bool {
    &&& d.roll < total_weight(composition(z))
    &&& tier_range(z).0 <= d.tier <= tier_range(z).1
    &&& 1 <= d.tile_x < zone.tile_w - 1
    &&& 1 <= d.tile_z < zone.tile_h - 1
}

/// Every draw lies in the zone's ranges.
pub open spec fn draws_in_range(z: ZoneId, zone: ZoneView, draws: Seq<EnemyDraw>) -> bool {
    forall|k: int| 0 <= k < draws.len() ==> draw_in_range(z, zone, #[trigger] draws[k])
}

/// The enemies that a list of draws gives in zone `z`.
pub open spec fn plan_of(z: ZoneId, draws: Seq<EnemyDraw>) -> Seq<EnemySpawn> {
    draws.map_values(|d: EnemyDraw| enemy_of(z, d))
}

/// What a roll of 0 to 9 spawns in each zone: the Grasslands only grunts;
/// the Desert ranged enemies on 0-3 and chargers on 4-9; the Forest grunts
/// on 0-6 and elites on 7-9; the Tundra grunts on 0-1, ranged enemies on
/// 2-4 and elites on 5-9; the Swamp chargers on 0-4 and ranged enemies on
/// 5-9. Every zone but the Void weighs its mix to 10.
pub proof fn law_zone_rolls(roll: int)
    requires
        0 <= roll < 10,
    ensures
        pick_variant(composition(ZoneId::Grasslands), roll) == EnemyVariant::Grunt,
        pick_variant(composition(ZoneId::Desert), roll) == if roll < 4 {
            EnemyVariant::Ranged
        } else {
            EnemyVariant::Charger
        },
        pick_variant(composition(ZoneId::Forest), roll) == if roll < 7 {
            EnemyVariant::Grunt
        } else {
            EnemyVariant::Elite
        },
        pick_variant(composition(ZoneId::Tundra), roll) == if roll < 2 {
            EnemyVariant::Grunt
        } else if roll < 5 {
            EnemyVariant::Ranged
        } else {
            EnemyVariant::Elite
        },
        pick_variant(composition(ZoneId::Swamp), roll) == if roll < 5 {
            EnemyVariant::Charger
        } else {
            EnemyVariant::Ranged
        },
        forall|z: ZoneId| z != ZoneId::Void ==> #[trigger] total_weight(composition(z)) == 10,
{
    reveal_with_fuel(pick_variant, 4);
    assert forall|z: ZoneId| z != ZoneId::Void implies #[trigger] total_weight(composition(z)) == 10 by {
        lemma_mix_weights(z);
    }
}

/// How hard each zone is: enemy tiers span two consecutive tiers, from 0-1
/// in the Grasslands through 1-2 in the Forest and 2-3 in the Desert and the
/// Swamp up to 3-4 in the Tundra; a visit spawns 3-6 enemies in the
/// Grasslands, 4-6 in the Forest, 4-7 in the Desert and the Swamp and 5-8
/// in the Tundra.
pub proof fn law_zone_difficulty(z: ZoneId)
    ensures
        z != ZoneId::Void ==> tier_range(z).1 == tier_range(z).0 + 1,
        tier_range(ZoneId::Grasslands) == (0u32, 1u32),
        tier_range(ZoneId::Forest) == (1u32, 2u32),
        tier_range(ZoneId::Desert) == (2u32, 3u32),
        tier_range(ZoneId::Swamp) == (2u32, 3u32),
        tier_range(ZoneId::Tundra) == (3u32, 4u32),
        spawn_count_range(ZoneId::Grasslands) == (3u32, 6u32),
        spawn_count_range(ZoneId::Forest) == (4u32, 6u32),
        spawn_count_range(ZoneId::Desert) == (4u32, 7u32),
        spawn_count_range(ZoneId::Swamp) == (4u32, 7u32),
        spawn_count_range(ZoneId::Tundra) == (5u32, 8u32),
{
}

/// A planned enemy wears its variant's colour: grunts 0, ranged 1,
/// chargers 2, elites 3, bosses 4, every other variant the grunt colour; it
/// is worth 5 plus 5 per tier in experience.
pub proof fn law_enemy_colours(z: ZoneId, d: EnemyDraw)
    ensures
        enemy_of(z, d).color_index == match enemy_of(z, d).variant {
            EnemyVariant::Grunt => 0usize,
            EnemyVariant::Ranged => 1usize,
            EnemyVariant::Charger => 2usize,
            EnemyVariant::Elite => 3usize,
            EnemyVariant::Boss => 4usize,
            _ => 0usize,
        },
        enemy_of(z, d).xp_reward == 5 + 5 * d.tier,
{
}

/// No zone's mix weighs more than 10.
proof fn lemma_mix_small(z: ZoneId)
    ensures
        total_weight(composition(z)) <= 10,
{
    if z != ZoneId::Void {
        lemma_mix_weights(z);
    }
}

/// The enemies that the draws give in zone `zone_id`, one per draw, in order.
pub fn plan_enemies(zone_id: ZoneId, draws: &Vec<EnemyDraw>) -> (plan: Vec<EnemySpawn>)
    ensures
        plan@ == plan_of(zone_id, draws@),
{
    let mix = zone_id.enemy_composition();
    proof {
        lemma_mix_small(zone_id);
    }
    let mut plan: Vec<EnemySpawn> = Vec::new();
    let mut k: usize = 0;
    while k < draws.len()
        invariant
            k <= draws.len(),
            mix@ == composition(zone_id),
            total_weight(mix@) <= 10,
            plan@ == draws@.subrange(0, k as int).map_values(|d: EnemyDraw| enemy_of(zone_id, d)),
        decreases draws.len() - k,
    {
        let d = draws[k];
        let variant = select_variant(&mix, d.roll);
        let color_index: usize = match variant {
            EnemyVariant::Grunt => 0,
            EnemyVariant::Ranged => 1,
            EnemyVariant::Charger => 2,
            EnemyVariant::Elite => 3,
            EnemyVariant::Boss => 4,
            _ => 0,
        };
        let xp: u64 = 5 + (d.tier as u64) * 5;
        plan.push(
            EnemySpawn {
                variant,
                tier: d.tier,
                xp_reward: xp,
                tile_x: d.tile_x,
                tile_z: d.tile_z,
                color_index,
            },
        );
        proof {
            assert(draws@.subrange(0, k + 1) =~= draws@.subrange(0, k as int).push(d));
            assert(plan@ =~= draws@.subrange(0, k + 1).map_values(
                |d: EnemyDraw| enemy_of(zone_id, d),
            ));
        }
        k = k + 1;
    }
    proof {
        assert(draws@.subrange(0, draws.len() as int) =~= draws@);
    }
    plan
}

/// Plans the enemies a zone spawns: a random count in the zone's range,
/// then for each enemy a random roll below the mix's total weight (which
/// picks the variant by weight), a random tier in the zone's tier range and
/// a random tile away from the zone's border. Which values come out is
/// chance; the plan is [`plan_enemies`] of draws in those ranges.
pub fn spawn_zone_enemies(zone_id: ZoneId) -> (plan: Vec<EnemySpawn>)
    requires
        zone_id != ZoneId::Void,
    ensures
        spawn_count_range(zone_id).0 <= plan@.len() <= spawn_count_range(zone_id).1,
        exists|draws: Seq<EnemyDraw>|
            #[trigger] plan_of(zone_id, draws) == plan@ && draws_in_range(
                zone_id,
                world_zones()[zone_position(world_zones(), zone_id)->0],
                draws,
            ),
{
    let zone_def = match zone_def_by_id(&zone_id) {
        Some(z) => z,
        None => {
            proof {
                lemma_every_zone_on_map(zone_id);
            }
            return Vec::new();
        },
    };
    proof {
        lemma_every_zone_on_map(zone_id);
        lemma_world_zone_bounds();
        let i = zone_position(world_zones(), zone_id)->0;
        assert(world_zones()[i].tile_w == 20);
        lemma_mix_weights(zone_id);
    }
    let count = match zone_id {
        ZoneId::Grasslands => random_u32_inclusive(3, 6),
        ZoneId::Desert => random_u32_inclusive(4, 7),
        ZoneId::Forest => random_u32_inclusive(4, 6),
        ZoneId::Tundra => random_u32_inclusive(5, 8),
        ZoneId::Swamp => random_u32_inclusive(4, 7),
        _ => random_u32_inclusive(3, 5),
    };
    let (tier_min, tier_max) = zone_id.enemy_tier_range();
    let mix = zone_id.enemy_composition();
    let mut total: u32 = 0;
    let mut w: usize = 0;
    while w < mix.len()
        invariant
            w <= mix.len(),
            mix@ == composition(zone_id),
            total == weight_prefix(mix@, w as int),
            total_weight(mix@) <= 10,
            total_weight(mix@) == weight_prefix(mix@, mix@.len() as int),
        decreases mix.len() - w,
    {
        proof {
            lemma_prefix_monotone(mix@, w + 1, mix@.len() as int);
        }
        total = total + mix[w].1;
        w = w + 1;
    }
    let mut draws: Vec<EnemyDraw> = Vec::new();
    let mut n: u32 = 0;
    let ghost zv = world_zones()[zone_position(world_zones(), zone_id)->0];
    while n < count
        invariant
            n <= count,
            draws@.len() == n,
            spawn_count_range(zone_id).0 <= count <= spawn_count_range(zone_id).1,
            total == total_weight(composition(zone_id)),
            total >= 1,
            (tier_min, tier_max) == tier_range(zone_id),
            zone_def@ == zv,
            zv.tile_w == 20 && zv.tile_h == 20,
            forall|k: int| 0 <= k < draws@.len() ==> draw_in_range(zone_id, zv, #[trigger] draws@[k]),
        decreases count - n,
    {
        let roll = random_u32_inclusive(0, total - 1);
        let tier = if tier_min == tier_max {
            tier_min
        } else {
            random_u32_inclusive(tier_min, tier_max)
        };
        let tx = random_u32_inclusive(1, (zone_def.tile_w - 2) as u32) as usize;
        let tz = random_u32_inclusive(1, (zone_def.tile_h - 2) as u32) as usize;
        draws.push(EnemyDraw { roll, tier, tile_x: tx, tile_z: tz });
        n = n + 1;
    }
    let plan = plan_enemies(zone_id, &draws);
    assert(draws_in_range(zone_id, zv, draws@));
    assert(plan_of(zone_id, draws@) == plan@);
    plan
}

/// Every zone other than the void is on the world map.
proof fn lemma_every_zone_on_map(z: ZoneId)
    requires
        z != ZoneId::Void,
    ensures
        zone_position(world_zones(), z) is Some,
        world_zones()[zone_position(world_zones(), z)->0].id == z,
{
    let zs = world_zones();
    let p = |zv: ZoneView| zv.id == z;
    let i: int = match z {
        ZoneId::Grasslands => 0,
        ZoneId::Desert => 1,
        ZoneId::Forest => 2,
        ZoneId::Tundra => 3,
        _ => 4,
    };
    assert(is_first_where(zs, p, i));
    lemma_first_where_is(zs, p, i);
}

/// The mix of every zone other than the void has total weight 10.
proof fn lemma_mix_weights(z: ZoneId)
    requires
        z != ZoneId::Void,
    ensures
        total_weight(composition(z)) == 10,
        total_weight(composition(z)) == weight_prefix(composition(z), composition(z).len() as int),
{
    reveal_with_fuel(total_weight, 4);
    lemma_total_is_prefix(composition(z));
}

} // verus!

verus! {

/// Meshes of environment decorations.
#[derive(Clone, Copy, Debug, PartialEq, Eq, Hash, Structural)]
pub enum DecorMesh {
    Bush,
    Tree,
    Rock,
    GrassBlade,
    Flower,
    Cactus,
    Mushroom,
    Crystal,
    Pillar,
}

/// The mesh named by a decoration tag; an unknown tag falls back to a rock.
pub open spec fn decor_mesh_of(tag: Seq<char>) -> DecorMesh {
    if tag == "bush"@ {
        DecorMesh::Bush
    } else if tag == "tree"@ {
        DecorMesh::Tree
    } else if tag == "grass_blade"@ {
        DecorMesh::GrassBlade
    } else if tag == "flower"@ {
        DecorMesh::Flower
    } else if tag == "cactus"@ {
        DecorMesh::Cactus
    } else if tag == "mushroom"@ {
        DecorMesh::Mushroom
    } else if tag == "crystal"@ {
        DecorMesh::Crystal
    } else if tag == "pillar"@ {
        DecorMesh::Pillar
    } else {
        DecorMesh::Rock
    }
}

/// The mesh to use for a decoration tag.
pub fn mesh_for_tag(tag: &str) -> (m: DecorMesh)
    ensures
        m == decor_mesh_of(tag@),
{
    if crate::text::str_eq(tag, "bush") {
        DecorMesh::Bush
    } else if crate::text::str_eq(tag, "tree") {
        DecorMesh::Tree
    } else if crate::text::str_eq(tag, "grass_blade") {
        DecorMesh::GrassBlade
    } else if crate::text::str_eq(tag, "flower") {
        DecorMesh::Flower
    } else if crate::text::str_eq(tag, "cactus") {
        DecorMesh::Cactus
    } else if crate::text::str_eq(tag, "mushroom") {
        DecorMesh::Mushroom
    } else if crate::text::str_eq(tag, "crystal") {
        DecorMesh::Crystal
    } else if crate::text::str_eq(tag, "pillar") {
        DecorMesh::Pillar
    } else {
        DecorMesh::Rock
    }
}

/// A dungeon being entered: its name, tier and depth.
pub struct DungeonInstance {
    pub name: String,
    pub tier: u32,
    pub depth: u32,
}

/// The dungeon entered from the world map: when the enter key was pressed,
/// the first entrance that the player stands close to (`near[i]` for the
/// `i`-th entrance); none otherwise.
pub fn detect_dungeon_entry(
    entrances: &Vec<crate::zone::DungeonEntrance>,
    near: &Vec<bool>,
    enter_pressed: bool,
) -> (r: Option<DungeonInstance>)
    requires
        near.len() == entrances.len(),
    ensures
        match r {
            Some(d) => enter_pressed && exists|i: int|
                0 <= i < near.len() && #[trigger] near@[i] && (forall|j: int|
                    0 <= j < i ==> !#[trigger] near@[j]) && d.name@ == entrances@[i].name@ && d.tier
                    == entrances@[i].dungeon_tier && d.depth == entrances@[i].depth,
            None => !enter_pressed || forall|i: int| 0 <= i < near.len() ==> !#[trigger] near@[i],
        },
{
    if !enter_pressed {
        return None;
    }
    let mut i: usize = 0;
    while i < near.len()
        invariant
            i <= near.len(),
            near.len() == entrances.len(),
            enter_pressed,
            forall|j: int| 0 <= j < i ==> !#[trigger] near@[j],
        decreases near.len() - i,
    {
        if near[i] {
            let e = &entrances[i];
            let name = e.name.clone();
            assert(near@[i as int]);
            return Some(DungeonInstance { name, tier: e.dungeon_tier, depth: e.depth });
        }
        i = i + 1;
    }
    None
}

} // verus!

verus! {

/// The ids of a list of zones.
pub open spec fn zone_ids(zones: Seq<ZoneView>) -> Seq<ZoneId> {
    zones.map_values(|z: ZoneView| z.id)
}

/// Zones marked in a check come from the scanned zones, are new to both
/// lists, and each is marked once when the scanned ids are distinct.
proof fn lemma_newly_cleared_fresh(
    zones: Seq<ZoneView>,
    cleared: Seq<ZoneId>,
    timers: Seq<ZoneId>,
    enemies: Seq<(i64, i64)>,
)
    requires
        zone_ids(zones).no_duplicates(),
    ensures
        newly_cleared(zones, cleared, timers, enemies).no_duplicates(),
        forall|k: int|
            0 <= k < newly_cleared(zones, cleared, timers, enemies).len() ==> {
                let z = #[trigger] newly_cleared(zones, cleared, timers, enemies)[k];
                &&& !cleared.contains(z)
                &&& !timers.contains(z)
                &&& zone_ids(zones).contains(z)
            },
    decreases zones.len(),
{
    if zones.len() > 0 {
        let rest = zones.drop_last();
        assert(zone_ids(rest) =~= zone_ids(zones).drop_last());
        assert(zone_ids(rest).no_duplicates()) by {
            assert forall|a: int, b: int|
                0 <= a < zone_ids(rest).len() && 0 <= b < zone_ids(rest).len() && a != b implies zone_ids(
                rest,
            )[a] != zone_ids(rest)[b] by {
                assert(zone_ids(rest)[a] == zone_ids(zones)[a]);
                assert(zone_ids(rest)[b] == zone_ids(zones)[b]);
            }
        }
        lemma_newly_cleared_fresh(rest, cleared, timers, enemies);
        let earlier = newly_cleared(rest, cleared, timers, enemies);
        let z = zones.last();
        assert forall|k: int| 0 <= k < earlier.len() implies zone_ids(zones).contains(
            #[trigger] earlier[k],
        ) by {
            let j = choose|j: int| 0 <= j < zone_ids(rest).len() && zone_ids(rest)[j] == earlier[k];
            assert(zone_ids(zones)[j] == earlier[k]);
        }
        assert(zone_ids(zones)[zones.len() - 1] == z.id);
        assert(!earlier.contains(z.id)) by {
            if earlier.contains(z.id) {
                let k = choose|k: int| 0 <= k < earlier.len() && earlier[k] == z.id;
                assert(zone_ids(rest).contains(earlier[k]));
                let j = choose|j: int| 0 <= j < zone_ids(rest).len() && zone_ids(rest)[j] == z.id;
                assert(zone_ids(zones)[j] == z.id);
            }
        }
        let n = newly_cleared(zones, cleared, timers, enemies);
        if n.len() > earlier.len() {
            assert(n =~= earlier.push(z.id));
            assert forall|k: int| 0 <= k < n.len() implies zone_ids(zones).contains(#[trigger] n[k])
                && !cleared.contains(n[k]) && !timers.contains(n[k]) by {
                if k == earlier.len() {
                    assert(zone_ids(zones)[zones.len() - 1] == n[k]);
                } else {
                    assert(n[k] == earlier[k]);
                }
            }
            assert forall|a: int, b: int| 0 <= a < n.len() && 0 <= b < n.len() && a != b implies n[a]
                != n[b] by {
                if a == earlier.len() {
                    assert(n[b] == earlier[b]);
                } else if b == earlier.len() {
                    assert(n[a] == earlier[a]);
                } else {
                    assert(n[a] == earlier[a] && n[b] == earlier[b]);
                }
            }
        } else {
            assert(n =~= earlier);
        }
    }
}

/// A zone is never listed twice: when the cleared zones and the zones with
/// running timers are each listed once, a check keeps them so.
pub proof fn lemma_check_keeps_zones_unique(
    cleared: Seq<ZoneId>,
    timers: Seq<(ZoneId, u32)>,
    enemies: Seq<(i64, i64)>,
)
    requires
        cleared.no_duplicates(),
        timer_zones(timers).no_duplicates(),
    ensures
        (cleared + newly_cleared(world_zones(), cleared, timer_zones(timers), enemies)).no_duplicates(),
        timer_zones(
            timers + newly_cleared(world_zones(), cleared, timer_zones(timers), enemies).map_values(
                |z: ZoneId| (z, RESPAWN_DELAY_BITS),
            ),
        ).no_duplicates(),
{
    let t = timer_zones(timers);
    let n = newly_cleared(world_zones(), cleared, t, enemies);
    lemma_world_zone_ids_distinct();
    assert(zone_ids(world_zones()).no_duplicates()) by {
        let ids = zone_ids(world_zones());
        assert forall|a: int, b: int| 0 <= a < ids.len() && 0 <= b < ids.len() && a != b implies ids[a]
            != ids[b] by {
            if a < b {
                assert(world_zones()[a].id != world_zones()[b].id);
            } else {
                assert(world_zones()[b].id != world_zones()[a].id);
            }
        }
    }
    lemma_newly_cleared_fresh(world_zones(), cleared, t, enemies);
    let c2 = cleared + n;
    assert forall|a: int, b: int| 0 <= a < c2.len() && 0 <= b < c2.len() && a != b implies c2[a]
        != c2[b] by {
        if a < cleared.len() && b >= cleared.len() {
            assert(n[b - cleared.len()] == c2[b]);
            assert(cleared.contains(c2[a]));
        } else if b < cleared.len() && a >= cleared.len() {
            assert(n[a - cleared.len()] == c2[a]);
            assert(cleared.contains(c2[b]));
        }
    }
    let nt = n.map_values(|z: ZoneId| (z, RESPAWN_DELAY_BITS));
    let t2 = timer_zones(timers + nt);
    assert(t2 =~= t + n);
    assert forall|a: int, b: int| 0 <= a < t2.len() && 0 <= b < t2.len() && a != b implies t2[a]
        != t2[b] by {
        if a < t.len() && b >= t.len() {
            assert(n[b - t.len()] == t2[b]);
            assert(t.contains(t2[a]));
        } else if b < t.len() && a >= t.len() {
            assert(n[a - t.len()] == t2[a]);
            assert(t.contains(t2[b]));
        }
    }
}

} // verus!

verus! {

/// One scattered object: its tile and which of the available kinds (mesh,
/// colour) it uses. The caller adds the sub-tile jitter and the rotation.
#[derive(Clone, Copy, Debug, PartialEq, Eq, Structural)]
pub struct ScatterItem {
    pub tile_x: usize,
    pub tile_z: usize,
    pub kind: usize,
}

/// Every item lies `margin` tiles or more inside a `w` by `h` zone and uses
/// one of `kinds` kinds.
pub open spec fn scattered_within(
    items: Seq<ScatterItem>,
    margin: usize,
    w: usize,
    h: usize,
    kinds: usize,
) -> bool {
    forall|k: int|
        0 <= k < items.len() ==> {
            let it = #[trigger] items[k];
            &&& margin <= it.tile_x < w - margin
            &&& margin <= it.tile_z < h - margin
            &&& it.kind < kinds
        }
}

/// A random number of items in `lo..=hi`, each on a random tile at least
/// `margin` tiles inside a `w` by `h` zone, with a random kind below `kinds`.
fn plan_scatter(lo: u32, hi: u32, margin: usize, w: usize, h: usize, kinds: usize) -> (items: Vec<
    ScatterItem,
>)
    requires
        lo <= hi,
        2 * margin < w <= u32::MAX,
        2 * margin < h <= u32::MAX,
        1 <= kinds <= u32::MAX,
    ensures
        lo <= items@.len() <= hi,
        scattered_within(items@, margin, w, h, kinds),
{
    let count = random_u32_inclusive(lo, hi);
    let mut items: Vec<ScatterItem> = Vec::new();
    let mut i: u32 = 0;
    while i < count
        invariant
            i <= count,
            lo <= count <= hi,
            2 * margin < w <= u32::MAX,
            2 * margin < h <= u32::MAX,
            1 <= kinds <= u32::MAX,
            items@.len() == i,
            scattered_within(items@, margin, w, h, kinds),
        decreases count - i,
    {
        let tx = random_u32_inclusive(margin as u32, (w - margin - 1) as u32) as usize;
        let tz = random_u32_inclusive(margin as u32, (h - margin - 1) as u32) as usize;
        let kind = random_u32_inclusive(0, (kinds - 1) as u32) as usize;
        items.push(ScatterItem { tile_x: tx, tile_z: tz, kind });
        i = i + 1;
    }
    items
}

/// Plans a zone's decorations: none when the zone has no decoration kinds,
/// else 12 to 20 of them, each two tiles or more inside the zone, with one
/// of the `decor_kinds` kinds.
pub fn spawn_zone_decorations(zone: &ZoneDef, decor_kinds: usize) -> (items: Vec<ScatterItem>)
    requires
        5 <= zone.tile_w <= u32::MAX,
        5 <= zone.tile_h <= u32::MAX,
        decor_kinds <= u32::MAX,
    ensures
        decor_kinds == 0 ==> items@.len() == 0,
        decor_kinds > 0 ==> 12 <= items@.len() <= 20,
        scattered_within(items@, 2, zone.tile_w, zone.tile_h, decor_kinds),
{
    if decor_kinds == 0 {
        return Vec::new();
    }
    plan_scatter(12, 20, 2, zone.tile_w, zone.tile_h, decor_kinds)
}

/// Plans a zone's ground patches: none without patch colours, else 15 to
/// 25 of them, anywhere in the zone, with one of the `color_count` colours.
pub fn spawn_ground_patches(zone: &ZoneDef, color_count: usize) -> (items: Vec<ScatterItem>)
    requires
        1 <= zone.tile_w <= u32::MAX,
        1 <= zone.tile_h <= u32::MAX,
        color_count <= u32::MAX,
    ensures
        color_count == 0 ==> items@.len() == 0,
        color_count > 0 ==> 15 <= items@.len() <= 25,
        scattered_within(items@, 0, zone.tile_w, zone.tile_h, color_count),
{
    if color_count == 0 {
        return Vec::new();
    }
    plan_scatter(15, 25, 0, zone.tile_w, zone.tile_h, color_count)
}

/// Plans a zone's pebbles: 20 to 35, anywhere in the zone, each with one of
/// the four pebble colours.
pub fn spawn_pebbles(zone: &ZoneDef) -> (items: Vec<ScatterItem>)
    requires
        1 <= zone.tile_w <= u32::MAX,
        1 <= zone.tile_h <= u32::MAX,
    ensures
        20 <= items@.len() <= 35,
        scattered_within(items@, 0, zone.tile_w, zone.tile_h, 4),
{
    plan_scatter(20, 35, 0, zone.tile_w, zone.tile_h, 4)
}

/// Zones with natural ground grow grass blades.
pub open spec fn grows_grass(z: ZoneId) -> bool {
    z == ZoneId::Grasslands || z == ZoneId::Desert || z == ZoneId::Forest || z == ZoneId::Swamp
}

/// Plans a zone's grass blades: none in the tundra or the void, else 15 to
/// 30, anywhere in the zone.
pub fn spawn_grass_blades(zone: &ZoneDef) -> (items: Vec<ScatterItem>)
    requires
        1 <= zone.tile_w <= u32::MAX,
        1 <= zone.tile_h <= u32::MAX,
    ensures
        !grows_grass(zone.id) ==> items@.len() == 0,
        grows_grass(zone.id) ==> 15 <= items@.len() <= 30,
        scattered_within(items@, 0, zone.tile_w, zone.tile_h, 1),
{
    match zone.id {
        ZoneId::Grasslands | ZoneId::Desert | ZoneId::Forest | ZoneId::Swamp => {
            plan_scatter(15, 30, 0, zone.tile_w, zone.tile_h, 1)
        },
        _ => Vec::new(),
    }
}

} // verus!

verus! {

/// The cleared zones are exactly the zones with a running respawn timer, in
/// the same order, and no zone is listed twice.
pub open spec fn zones_tracked(cleared: Seq<ZoneId>, timers: Seq<(ZoneId, u32)>) -> bool {
    cleared == timer_zones(timers) && cleared.no_duplicates()
}

/// At the start nothing is cleared and no timer runs, which is in step.
pub proof fn lemma_fresh_zones_tracked(cleared: Seq<ZoneId>, timers: Seq<(ZoneId, u32)>)
    requires
        cleared.len() == 0,
        timers.len() == 0,
    ensures
        zones_tracked(cleared, timers),
{
    assert(timer_zones(timers) =~= cleared);
}

/// Filtering keeps a list free of duplicates.
proof fn lemma_filter_no_duplicates(s: Seq<ZoneId>, p: spec_fn(ZoneId) -> bool)
    requires
        s.no_duplicates(),
    ensures
        s.filter(p).no_duplicates(),
    decreases s.len(),
{
    reveal(Seq::filter);
    if s.len() > 0 {
        let rest = s.drop_last();
        assert(rest.no_duplicates()) by {
            assert forall|i: int, j: int|
                0 <= i < rest.len() && 0 <= j < rest.len() && i != j implies rest[i] != rest[j] by {
                assert(rest[i] == s[i] && rest[j] == s[j]);
            }
        }
        lemma_filter_no_duplicates(rest, p);
        let f0 = rest.filter(p);
        if p(s.last()) {
            let f = f0.push(s.last());
            assert(!f0.contains(s.last())) by {
                if f0.contains(s.last()) {
                    rest.lemma_filter_contains_rev(p, s.last());
                    let k = choose|k: int| 0 <= k < rest.len() && rest[k] == s.last();
                    assert(s[k] == s[s.len() - 1]);
                }
            }
            assert forall|i: int, j: int| 0 <= i < f.len() && 0 <= j < f.len() && i != j implies f[i]
                != f[j] by {
                if i == f0.len() {
                    assert(f0[j] == f[j]);
                } else if j == f0.len() {
                    assert(f0[i] == f[i]);
                } else {
                    assert(f0[i] == f[i] && f0[j] == f[j]);
                }
            }
        }
    }
}

/// A check keeps the cleared zones and the timers in step: every zone it
/// marks cleared gets its timer, and no zone is listed twice.
pub proof fn lemma_check_keeps_zones_tracked(
    cleared: Seq<ZoneId>,
    timers: Seq<(ZoneId, u32)>,
    enemies: Seq<(i64, i64)>,
)
    requires
        zones_tracked(cleared, timers),
    ensures
        zones_tracked(
            cleared + newly_cleared(world_zones(), cleared, timer_zones(timers), enemies),
            timers + newly_cleared(world_zones(), cleared, timer_zones(timers), enemies).map_values(
                |z: ZoneId| (z, RESPAWN_DELAY_BITS),
            ),
        ),
{
    lemma_check_keeps_zones_unique(cleared, timers, enemies);
    let n = newly_cleared(world_zones(), cleared, timer_zones(timers), enemies);
    assert(timer_zones(timers + n.map_values(|z: ZoneId| (z, RESPAWN_DELAY_BITS))) =~= timer_zones(
        timers,
    ) + n);
}

/// The timers that keep running after a tick over the first `k` entries of
/// `t`: each one not marked in `expired`, with its new value from `left`.
pub open spec fn kept_after_tick(
    t: Seq<(ZoneId, u32)>,
    left: Seq<u32>,
    expired: Seq<bool>,
    k: int,
) -> Seq<(ZoneId, u32)>
    decreases k,
{
    if k <= 0 {
        Seq::empty()
    } else if expired[k - 1] {
        kept_after_tick(t, left, expired, k - 1)
    } else {
        kept_after_tick(t, left, expired, k - 1).push((t[k - 1].0, left[k - 1]))
    }
}

/// The zones of the first `k` entries of `t` that are marked in `expired`,
/// in order.
pub open spec fn expired_zones(t: Seq<(ZoneId, u32)>, expired: Seq<bool>, k: int) -> Seq<ZoneId>
    decreases k,
{
    if k <= 0 {
        Seq::empty()
    } else if expired[k - 1] {
        expired_zones(t, expired, k - 1).push(t[k - 1].0)
    } else {
        expired_zones(t, expired, k - 1)
    }
}

/// A zone listed as expired comes from a marked entry.
proof fn lemma_expired_zones_source(t: Seq<(ZoneId, u32)>, expired: Seq<bool>, k: int, z: ZoneId)
    requires
        0 <= k <= t.len(),
        k <= expired.len(),
        expired_zones(t, expired, k).contains(z),
    ensures
        exists|j: int| 0 <= j < k && expired[j] && #[trigger] t[j].0 == z,
    decreases k,
{
    let e = expired_zones(t, expired, k);
    let i = choose|i: int| 0 <= i < e.len() && e[i] == z;
    if expired[k - 1] && i == e.len() - 1 {
        assert(t[k - 1].0 == z);
    } else {
        let e0 = expired_zones(t, expired, k - 1);
        assert(e0[i] == z);
        assert(e0.contains(z));
        lemma_expired_zones_source(t, expired, k - 1, z);
    }
}

/// Every marked entry's zone is listed as expired.
proof fn lemma_expired_zones_cover(t: Seq<(ZoneId, u32)>, expired: Seq<bool>, k: int, j: int)
    requires
        0 <= j < k <= t.len(),
        k <= expired.len(),
        expired[j],
    ensures
        expired_zones(t, expired, k).contains(t[j].0),
    decreases k,
{
    let e0 = expired_zones(t, expired, k - 1);
    if j == k - 1 {
        assert(expired_zones(t, expired, k)[e0.len() as int] == t[j].0);
    } else {
        lemma_expired_zones_cover(t, expired, k - 1, j);
        let i = choose|i: int| 0 <= i < e0.len() && e0[i] == t[j].0;
        assert(expired_zones(t, expired, k)[i] == t[j].0);
    }
}

/// With no zone listed twice, the zones of the timers that keep running are
/// the timer zones without the expired ones.
proof fn lemma_kept_zones(t: Seq<(ZoneId, u32)>, left: Seq<u32>, expired: Seq<bool>, k: int)
    requires
        0 <= k <= t.len(),
        left.len() == t.len(),
        expired.len() == t.len(),
        timer_zones(t).no_duplicates(),
    ensures
        timer_zones(kept_after_tick(t, left, expired, k)) == timer_zones(t).take(k).filter(
            |z: ZoneId| !expired_zones(t, expired, t.len() as int).contains(z),
        ),
    decreases k,
{
    reveal(Seq::filter);
    let all = expired_zones(t, expired, t.len() as int);
    let p = |z: ZoneId| !all.contains(z);
    if k == 0 {
        assert(timer_zones(kept_after_tick(t, left, expired, 0)) =~= timer_zones(t).take(0).filter(
            p,
        ));
    } else {
        lemma_kept_zones(t, left, expired, k - 1);
        let tz = timer_zones(t);
        assert(tz.take(k).drop_last() =~= tz.take(k - 1));
        assert(tz.take(k).last() == t[k - 1].0);
        let z = t[k - 1].0;
        if expired[k - 1] {
            lemma_expired_zones_cover(t, expired, t.len() as int, k - 1);
            assert(!p(z));
        } else {
            assert(p(z)) by {
                if all.contains(z) {
                    lemma_expired_zones_source(t, expired, t.len() as int, z);
                    let j = choose|j: int| 0 <= j < t.len() && expired[j] && #[trigger] t[j].0 == z;
                    assert(tz[j] == tz[k - 1]);
                }
            }
            assert(timer_zones(kept_after_tick(t, left, expired, k)) =~= timer_zones(
                kept_after_tick(t, left, expired, k - 1),
            ).push(z));
        }
    }
}

/// Applies one tick of the respawn countdown. `left_bits[i]` is the new
/// number of seconds left on the `i`-th timer and `expired[i]` whether its
/// wait is over (both worked out by the caller in floating point). Timers
/// whose wait is over are dropped together with their zones' cleared marks;
/// the others keep running with their new value, in order, and stay
/// cleared. The cleared zones and the timers stay in step. Returns the zones
/// whose wait ended, in timer order; each gets its enemies back.
pub fn apply_respawn_tick(
    respawn_timer: &mut WorldEnemyRespawnTimer,
    cleared: &mut ZoneCleared,
    left_bits: &Vec<u32>,
    expired: &Vec<bool>,
) -> (ended: Vec<ZoneId>)
    requires
        zones_tracked(old(cleared).cleared@, old(respawn_timer).timers@),
        left_bits.len() == old(respawn_timer).timers.len(),
        expired.len() == old(respawn_timer).timers.len(),
    ensures
        final(respawn_timer).timers@ == kept_after_tick(
            old(respawn_timer).timers@,
            left_bits@,
            expired@,
            old(respawn_timer).timers@.len() as int,
        ),
        ended@ == expired_zones(
            old(respawn_timer).timers@,
            expired@,
            old(respawn_timer).timers@.len() as int,
        ),
        final(cleared).cleared@ == old(cleared).cleared@.filter(|z: ZoneId| !ended@.contains(z)),
        zones_tracked(final(cleared).cleared@, final(respawn_timer).timers@),
{
    let ghost t0 = respawn_timer.timers@;
    let ghost c0 = cleared.cleared@;
    let mut kept: Vec<(ZoneId, u32)> = Vec::new();
    let mut ended: Vec<ZoneId> = Vec::new();
    let mut i: usize = 0;
    while i < respawn_timer.timers.len()
        invariant
            i <= respawn_timer.timers.len(),
            t0 == respawn_timer.timers@,
            left_bits.len() == t0.len(),
            expired.len() == t0.len(),
            kept@ == kept_after_tick(t0, left_bits@, expired@, i as int),
            ended@ == expired_zones(t0, expired@, i as int),
        decreases respawn_timer.timers.len() - i,
    {
        let z = respawn_timer.timers[i].0;
        if expired[i] {
            ended.push(z);
        } else {
            kept.push((z, left_bits[i]));
        }
        i = i + 1;
    }
    respawn_timer.timers = kept;
    let ghost keep_c = |z: ZoneId| !ended@.contains(z);
    let mut kept_c: Vec<ZoneId> = Vec::new();
    let mut k: usize = 0;
    while k < cleared.cleared.len()
        invariant
            k <= cleared.cleared.len(),
            c0 == cleared.cleared@,
            keep_c == (|z: ZoneId| !ended@.contains(z)),
            kept_c@ =~= c0.take(k as int).filter(keep_c),
        decreases cleared.cleared.len() - k,
    {
        proof {
            reveal_with_fuel(Seq::<_>::filter, 1);
            assert(c0.take(k + 1).drop_last() =~= c0.take(k as int));
        }
        let z = cleared.cleared[k];
        if !contains_zone(&ended, z) {
            kept_c.push(z);
        }
        k = k + 1;
    }
    proof {
        assert(c0.take(k as int) =~= c0);
        lemma_kept_zones(t0, left_bits@, expired@, t0.len() as int);
        assert(timer_zones(t0).take(t0.len() as int) =~= timer_zones(t0));
        lemma_filter_no_duplicates(c0, keep_c);
    }
    cleared.cleared = kept_c;
    ended
}

} // verus!

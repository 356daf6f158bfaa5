//! Animation state machine of characters and enemies. Times are
//! single-precision seconds carried as bit patterns; the caller advances
//! them and compares them, and this module takes the decisions.

use vstd::prelude::*;

verus! {

/// Animation states for character and enemy models.
#[derive(Clone, Copy, Debug, PartialEq, Eq, Hash, Structural)]
pub enum AnimState {
    Idle,
    Running,
    Attacking,
    Hit,
}

/// Key of an animation state in the pipeline configuration.
pub open spec fn anim_key(s: AnimState) -> Seq<char> {
    match s {
        AnimState::Idle => "idle"@,
        AnimState::Running => "run"@,
        AnimState::Attacking => "attack"@,
        AnimState::Hit => "hit"@,
    }
}

impl AnimState {
    /// Key of the state in the pipeline configuration.
    pub fn as_str(&self) -> (s: &'static str)
        ensures
            s@ == anim_key(*self),
    {
        match self {
            AnimState::Idle => "idle",
            AnimState::Running => "run",
            AnimState::Attacking => "attack",
            AnimState::Hit => "hit",
        }
    }
}

/// Animation state machine component.
pub struct AnimationStateMachine {
    pub current: AnimState,
    pub previous: AnimState,
    /// Bit pattern of the seconds spent in the current state.
    pub state_time_bits: u32,
    /// Bit pattern of the seconds an attack animation lasts.
    pub attack_duration_bits: u32,
    pub is_attacking: bool,
    pub paused: bool,
}

/// Bit pattern of the default attack duration, 0.4 seconds.
pub const DEFAULT_ATTACK_DURATION_BITS: u32 = 0x3ecc_cccd;

impl Default for AnimationStateMachine {
    fn default() -> (r: AnimationStateMachine)
        ensures
            r.current == AnimState::Idle && r.previous == AnimState::Idle && r.state_time_bits == 0
                && r.attack_duration_bits == DEFAULT_ATTACK_DURATION_BITS && !r.is_attacking
                && !r.paused,
    {
        AnimationStateMachine {
            current: AnimState::Idle,
            previous: AnimState::Idle,
            state_time_bits: 0,
            attack_duration_bits: DEFAULT_ATTACK_DURATION_BITS,
            is_attacking: false,
            paused: false,
        }
    }
}

impl AnimationStateMachine {
    /// A machine whose attacks last the given duration.
    pub fn with_attack_duration(duration_bits: u32) -> (r: AnimationStateMachine)
        ensures
            r.current == AnimState::Idle && r.previous == AnimState::Idle && r.state_time_bits == 0
                && r.attack_duration_bits == duration_bits && !r.is_attacking && !r.paused,
    {
        AnimationStateMachine { attack_duration_bits: duration_bits, ..Default::default() }
    }

    /// Moves to `new_state`, remembering the state left and restarting the
    /// state clock; staying in the same state changes nothing.
    pub fn transition(&mut self, new_state: AnimState)
        ensures
            old(self).current != new_state ==> final(self).previous == old(self).current
                && final(self).current == new_state && final(self).state_time_bits == 0,
            old(self).current == new_state ==> final(self).previous == old(self).previous
                && final(self).current == old(self).current && final(self).state_time_bits == old(
                self,
            ).state_time_bits,
            final(self).attack_duration_bits == old(self).attack_duration_bits,
            final(self).is_attacking == old(self).is_attacking,
            final(self).paused == old(self).paused,
    {
        if self.current != new_state {
            self.previous = self.current;
            self.current = new_state;
            self.state_time_bits = 0;
        }
    }

    /// One tick of the machine. `hit_stunned`: a hit stun is still running;
    /// `attack_over`: the state clock has reached the attack duration;
    /// `moving`: whether the entity moves, if it has a velocity at all.
    /// A hit stun overrides everything; an attack plays until its duration is
    /// over, then returns to running or idle; otherwise idle and running
    /// follow the movement.
    pub fn step(&mut self, hit_stunned: bool, attack_over: bool, moving: Option<bool>)
        ensures
            final(self).is_attacking == (old(self).is_attacking && !(!old(self).paused
                && !hit_stunned && attack_over)),
            final(self).attack_duration_bits == old(self).attack_duration_bits,
            final(self).paused == old(self).paused,
            (final(self).current, final(self).previous, final(self).state_time_bits) == next_clock(
                *old(self),
                hit_stunned,
                attack_over,
                moving,
            ),
    {
        if self.paused {
            return;
        }
        if hit_stunned {
            if self.current != AnimState::Hit {
                self.transition(AnimState::Hit);
            }
            return;
        }
        if self.is_attacking {
            if self.current != AnimState::Attacking {
                self.transition(AnimState::Attacking);
            }
            if attack_over {
                self.is_attacking = false;
                match moving {
                    Some(true) => self.transition(AnimState::Running),
                    _ => self.transition(AnimState::Idle),
                }
            }
            return;
        }
        match moving {
            Some(m) => {
                if m && self.current == AnimState::Idle {
                    self.transition(AnimState::Running);
                } else if !m && self.current == AnimState::Running {
                    self.transition(AnimState::Idle);
                }
            },
            None => {},
        }
    }
}

/// Current state, previous state and state clock after moving to `new`.
pub open spec fn moved(clock: (AnimState, AnimState, u32), new: AnimState) -> (
    AnimState,
    AnimState,
    u32,
) {
    if clock.0 != new {
        (new, clock.0, 0)
    } else {
        clock
    }
}

/// Current state, previous state and state clock after one tick: the moves
/// the tick makes, in order (an attack that ends first settles into the
/// attack state, then leaves it).
pub open spec fn next_clock(
    m: AnimationStateMachine,
    hit_stunned: bool,
    attack_over: bool,
    moving: Option<bool>,
) -> (AnimState, AnimState, u32) {
    let start = (m.current, m.previous, m.state_time_bits);
    if m.paused {
        start
    } else if hit_stunned {
        moved(start, AnimState::Hit)
    } else if m.is_attacking {
        let attacking = moved(start, AnimState::Attacking);
        if attack_over {
            moved(attacking, if moving == Some(true) { AnimState::Running } else { AnimState::Idle })
        } else {
            attacking
        }
    } else {
        match moving {
            Some(true) => if m.current == AnimState::Idle {
                moved(start, AnimState::Running)
            } else {
                start
            },
            Some(false) => if m.current == AnimState::Running {
                moved(start, AnimState::Idle)
            } else {
                start
            },
            None => start,
        }
    }
}

/// When an attack's time is up and no hit stun runs, the machine leaves the
/// attack: it runs only if the entity is moving, and goes idle if it stands
/// still or has no velocity; the state left is the attack and the state
/// clock restarts.
pub proof fn law_attack_end_follows_movement(m: AnimationStateMachine, moving: Option<bool>)
    requires
        !m.paused,
        m.is_attacking,
    ensures
        moving == Some(true) ==> next_clock(m, false, true, moving).0 == AnimState::Running,
        moving == Some(false) ==> next_clock(m, false, true, moving).0 == AnimState::Idle,
        moving is None ==> next_clock(m, false, true, moving).0 == AnimState::Idle,
        next_clock(m, false, true, moving).1 == AnimState::Attacking,
        next_clock(m, false, true, moving).2 == 0,
{
}

/// An entity that stands still is never left running by a tick of a
/// machine that is not paused, whatever state it was in.
pub proof fn law_still_entity_does_not_run(
    m: AnimationStateMachine,
    hit_stunned: bool,
    attack_over: bool,
)
    requires
        !m.paused,
    ensures
        next_clock(m, hit_stunned, attack_over, Some(false)).0 != AnimState::Running,
{
}

/// Without movement, a tick never starts the run animation: an entity that
/// was not running is not running afterwards.
pub proof fn law_no_run_without_movement(
    m: AnimationStateMachine,
    hit_stunned: bool,
    attack_over: bool,
    moving: Option<bool>,
)
    requires
        moving != Some(true),
        m.current != AnimState::Running,
    ensures
        next_clock(m, hit_stunned, attack_over, moving).0 != AnimState::Running,
{
}

/// The priorities of a tick: a paused machine keeps its state and clock; a
/// hit stun shows the hit; an attack whose time is not up keeps attacking;
/// outside attacks, a moving idle entity starts running.
pub proof fn law_step_priorities(
    m: AnimationStateMachine,
    hit_stunned: bool,
    attack_over: bool,
    moving: Option<bool>,
)
    ensures
        m.paused ==> next_clock(m, hit_stunned, attack_over, moving) == (
            m.current,
            m.previous,
            m.state_time_bits,
        ),
        !m.paused && hit_stunned ==> next_clock(m, hit_stunned, attack_over, moving).0
            == AnimState::Hit,
        !m.paused && !hit_stunned && m.is_attacking && !attack_over ==> next_clock(
            m,
            hit_stunned,
            attack_over,
            moving,
        ).0 == AnimState::Attacking,
        !m.paused && !hit_stunned && !m.is_attacking && moving == Some(true) && m.current
            == AnimState::Idle ==> next_clock(m, hit_stunned, attack_over, moving).0
            == AnimState::Running,
{
}

/// Clip played for a state when a model has `clip_count` clips in the order
/// idle, run, attack, hit; models with fewer clips hold their last one.
pub open spec fn clip_for(s: AnimState, clip_count: int) -> int {
    let wanted = match s {
        AnimState::Idle => 0int,
        AnimState::Running => 1int,
        AnimState::Attacking => 2int,
        AnimState::Hit => 3int,
    };
    if wanted <= clip_count - 1 {
        wanted
    } else {
        clip_count - 1
    }
}

/// Index of the clip to play for a state among `clip_count` clips.
pub fn clip_index(state: AnimState, clip_count: usize) -> (i: usize)
    requires
        clip_count >= 1,
    ensures
        i == clip_for(state, clip_count as int),
        i < clip_count,
{
    match state {
        AnimState::Idle => 0,
        AnimState::Running => if 1 <= clip_count - 1 {
            1
        } else {
            clip_count - 1
        },
        AnimState::Attacking => if 2 <= clip_count - 1 {
            2
        } else {
            clip_count - 1
        },
        AnimState::Hit => if 3 <= clip_count - 1 {
            3
        } else {
            clip_count - 1
        },
    }
}

} // verus!

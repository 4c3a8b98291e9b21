use vstd::prelude::*;
use crate::controller::Controller;
use crate::geometry::{Pos, box_at, overlaps, entities_overlap};

verus! {

/// Where the player appears at start and after each respawn.
pub const PLAYER_START_X: i32 = 128;
pub const PLAYER_START_Y: i32 = 256;

/// Pixels the player moves per tick along each held axis.
pub const PLAYER_STEP: i32 = 5;

/// Animation frames of the death sequence.
pub const DYING_FRAMES: i32 = 4;

/// Ticks each death animation frame is held.
pub const TICKS_PER_FRAME: i32 = 5;

/// The player's visual and logical state.
#[derive(Clone, Copy, Debug, PartialEq, Eq, Structural)]
pub enum PlayerState {
    Idle,
    MovingLeft,
    MovingRight,
    Dying { frame: i32, nticks: i32 },
    Removed,
}

#[derive(Clone, Copy, Debug, PartialEq, Eq, Structural)]
pub struct Player {
    pub pos: Pos,
    pub state: PlayerState,
}

/// The texture sheets the presentation layer holds.
#[derive(Clone, Copy, Debug, PartialEq, Eq, Structural)]
pub enum Sheet {
    Ships,
    Misc,
}

/// Which 8x8 cell of which sheet to draw.
#[derive(Clone, Copy, Debug, PartialEq, Eq, Structural)]
pub struct Sprite {
    pub sheet: Sheet,
    pub src_x: i32,
    pub src_y: i32,
}

pub open spec fn state_wf(s: PlayerState) -> bool {
    s matches PlayerState::Dying { frame, nticks } ==> 0 <= frame < DYING_FRAMES && 0 <= nticks
        < TICKS_PER_FRAME
}

/// Alive states accept input and can be hit.
pub open spec fn alive(s: PlayerState) -> bool {
    s is Idle || s is MovingLeft || s is MovingRight
}

/// One tick of the state machine: the death animation advances; other states stay.
pub open spec fn state_after_tick(s: PlayerState) -> PlayerState {
    match s {
        PlayerState::Dying { frame, nticks } => if nticks + 1 < TICKS_PER_FRAME {
            PlayerState::Dying { frame, nticks: (nticks + 1) as i32 }
        } else if frame + 1 < DYING_FRAMES {
            PlayerState::Dying { frame: (frame + 1) as i32, nticks: 0 }
        } else {
            PlayerState::Removed
        },
        _ => s,
    }
}

/// `v + d` held to the range of `i32`.
pub open spec fn clamped(v: int, d: int) -> i32 {
    if v + d > i32::MAX {
        i32::MAX
    } else if v + d < i32::MIN {
        i32::MIN
    } else {
        (v + d) as i32
    }
}

/// Position and state after the movement intents of `c` are applied to an
/// alive player; a player that is not alive is unchanged.
pub open spec fn steered(p: Player, c: Controller) -> Player {
    if !alive(p.state) {
        p
    } else {
        let dx: int = if c.right_pressed {
            PLAYER_STEP as int
        } else if c.left_pressed {
            -PLAYER_STEP
        } else {
            0
        };
        let dy: int = (if c.down_pressed {
            PLAYER_STEP as int
        } else {
            0
        }) - (if c.up_pressed {
            PLAYER_STEP as int
        } else {
            0
        });
        let state = if c.right_pressed {
            PlayerState::MovingRight
        } else if c.left_pressed {
            PlayerState::MovingLeft
        } else {
            PlayerState::Idle
        };
        Player { pos: Pos { x: clamped(p.pos.x as int, dx), y: clamped(p.pos.y as int, dy) }, state }
    }
}

/// Whether some enemy's box overlaps the player's box at `at`.
pub open spec fn touched_by_any(enemies: Seq<Pos>, at: Pos) -> bool {
    exists|i: int| 0 <= i < enemies.len() && overlaps(box_at(#[trigger] enemies[i]), box_at(at))
}

/// An alive player touched by an enemy starts dying; otherwise nothing changes.
pub open spec fn after_hits(p: Player, enemies: Seq<Pos>) -> Player {
    if alive(p.state) && touched_by_any(enemies, p.pos) {
        Player { pos: p.pos, state: PlayerState::Dying { frame: 0, nticks: 0 } }
    } else {
        p
    }
}

/// Hits resolve once: a player that is not alive ignores further hits, so
/// resolving the same enemies twice changes nothing more than resolving them once.
pub proof fn lemma_hits_resolve_once(p: Player, enemies: Seq<Pos>)
    ensures
        !alive(p.state) ==> after_hits(p, enemies) == p,
        after_hits(after_hits(p, enemies), enemies) == after_hits(p, enemies),
        alive(p.state) && touched_by_any(enemies, p.pos) ==> after_hits(p, enemies).state
            == (PlayerState::Dying { frame: 0, nticks: 0 }),
{
}

/// A removed player comes back, idle, at the start position.
pub open spec fn respawned(p: Player) -> Player {
    if p.state is Removed {
        Player { pos: Pos { x: PLAYER_START_X, y: PLAYER_START_Y }, state: PlayerState::Idle }
    } else {
        p
    }
}

/// The sprite drawn for a state, if any.
pub open spec fn sprite_of(s: PlayerState) -> Option<Sprite> {
    match s {
        PlayerState::Idle => Some(Sprite { sheet: Sheet::Ships, src_x: 8, src_y: 0 }),
        PlayerState::MovingLeft => Some(Sprite { sheet: Sheet::Ships, src_x: 0, src_y: 0 }),
        PlayerState::MovingRight => Some(Sprite { sheet: Sheet::Ships, src_x: 16, src_y: 0 }),
        PlayerState::Dying { frame, .. } => Some(
            Sprite { sheet: Sheet::Misc, src_x: (8 * (9 + frame)) as i32, src_y: 48 },
        ),
        PlayerState::Removed => None,
    }
}

fn step_clamped(v: i32, d: i32) -> (r: i32)
    requires
        -PLAYER_STEP <= d <= PLAYER_STEP,
    ensures
        r == clamped(v as int, d as int),
{
    if d > 0 && v > i32::MAX - d {
        i32::MAX
    } else if d < 0 && v < i32::MIN - d {
        i32::MIN
    } else {
        v + d
    }
}

/// Whether any enemy touches an entity at `at`.
pub fn any_touching(enemies: &Vec<Pos>, at: Pos) -> (r: bool)
    ensures
        r == touched_by_any(enemies@, at),
{
    let mut i: usize = 0;
    while i < enemies.len()
        invariant
            i <= enemies.len(),
            forall|j: int| 0 <= j < i ==> !overlaps(box_at(#[trigger] enemies@[j]), box_at(at)),
        decreases enemies.len() - i,
    {
        if entities_overlap(enemies[i], at) {
            return true;
        }
        i += 1;
    }
    false
}

impl Player {
    pub open spec fn wf(&self) -> bool {
        state_wf(self.state)
    }

    /// A fresh, idle player at the start position.
    pub fn new() -> (r: Player)
        ensures
            r.pos == (Pos { x: PLAYER_START_X, y: PLAYER_START_Y }),
            r.state == PlayerState::Idle,
            r.wf(),
    {
        Player { pos: Pos::new(PLAYER_START_X, PLAYER_START_Y), state: PlayerState::Idle }
    }

    /// Advances the death animation by one tick.
    pub fn update(&mut self)
        requires
            old(self).wf(),
        ensures
            final(self).pos == old(self).pos,
            final(self).state == state_after_tick(old(self).state),
            final(self).wf(),
    {
        match self.state {
            PlayerState::Dying { frame, nticks } => {
                if nticks + 1 < TICKS_PER_FRAME {
                    self.state = PlayerState::Dying { frame, nticks: nticks + 1 };
                } else if frame + 1 < DYING_FRAMES {
                    self.state = PlayerState::Dying { frame: frame + 1, nticks: 0 };
                } else {
                    self.state = PlayerState::Removed;
                }
            },
            _ => {},
        }
    }

    pub fn set_state(&mut self, new_state: PlayerState)
        ensures
            final(self).pos == old(self).pos,
            final(self).state == new_state,
    {
        self.state = new_state;
    }

    /// Dying or removed: the player neither moves, fires nor can be hit.
    pub fn is_dead(&self) -> (r: bool)
        ensures
            r == !alive(self.state),
    {
        match self.state {
            PlayerState::Dying { .. } => true,
            PlayerState::Removed => true,
            _ => false,
        }
    }

    pub fn is_none(&self) -> (r: bool)
        ensures
            r == (self.state is Removed),
    {
        match self.state {
            PlayerState::Removed => true,
            _ => false,
        }
    }

    /// Applies this tick's movement intents: horizontal input picks the state,
    /// each held axis moves the player by `PLAYER_STEP`.
    pub fn steer(&mut self, c: &Controller)
        ensures
            *final(self) == steered(*old(self), *c),
    {
        if self.is_dead() {
            return;
        }
        if c.right_pressed {
            self.pos.x = step_clamped(self.pos.x, PLAYER_STEP);
            self.state = PlayerState::MovingRight;
        } else if c.left_pressed {
            self.pos.x = step_clamped(self.pos.x, -PLAYER_STEP);
            self.state = PlayerState::MovingLeft;
        } else {
            self.state = PlayerState::Idle;
        }
        let dy: i32 = (if c.down_pressed { PLAYER_STEP } else { 0 }) - (if c.up_pressed {
            PLAYER_STEP
        } else {
            0
        });
        self.pos.y = step_clamped(self.pos.y, dy);
    }

    /// Starts the death sequence if an enemy touches an alive player. Several
    /// enemies touching at once start it once; a dying player is unaffected.
    pub fn collide(&mut self, enemies: &Vec<Pos>)
        ensures
            *final(self) == after_hits(*old(self), enemies@),
    {
        if !self.is_dead() && any_touching(enemies, self.pos) {
            self.state = PlayerState::Dying { frame: 0, nticks: 0 };
        }
    }

    /// Brings a removed player back at the start position, idle.
    pub fn respawn_if_removed(&mut self)
        ensures
            *final(self) == respawned(*old(self)),
    {
        if self.is_none() {
            self.pos = Pos::new(PLAYER_START_X, PLAYER_START_Y);
            self.state = PlayerState::Idle;
        }
    }

    /// The sprite the presentation layer draws for the player, if any.
    pub fn sprite(&self) -> (r: Option<Sprite>)
        requires
            self.wf(),
        ensures
            r == sprite_of(self.state),
    {
        match self.state {
            PlayerState::Idle => Some(Sprite { sheet: Sheet::Ships, src_x: 8, src_y: 0 }),
            PlayerState::MovingLeft => Some(Sprite { sheet: Sheet::Ships, src_x: 0, src_y: 0 }),
            PlayerState::MovingRight => Some(Sprite { sheet: Sheet::Ships, src_x: 16, src_y: 0 }),
            PlayerState::Dying { frame, .. } => Some(
                Sprite { sheet: Sheet::Misc, src_x: 8 * (9 + frame), src_y: 48 },
            ),
            PlayerState::Removed => None,
        }
    }
}

} // verus!

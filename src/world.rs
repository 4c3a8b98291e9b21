use vstd::prelude::*;
use rand::Rng;
use crate::controller::Controller;
use crate::geometry::Pos;
use crate::player::{
    Player,
    PlayerState,
    alive,
    steered,
    after_hits,
    respawned,
    state_after_tick,
    touched_by_any,
    any_touching,
    PLAYER_START_X,
    PLAYER_START_Y,
};

verus! {

/// Width of the playfield in screen pixels.
pub const SCREEN_WIDTH: i32 = 256;

/// Enemies at or below this height recycle to the top.
pub const BOTTOM_Y: i32 = 512;

/// Pixels a projectile rises per tick.
pub const PROJECTILE_STEP: i32 = 12;

/// Pixels an enemy descends per tick.
pub const ENEMY_STEP: i32 = 4;

/// Where a recycled enemy reappears, just above the top edge.
pub const RECYCLE_X: i32 = 108;
pub const RECYCLE_Y: i32 = -8;

pub const MAX_ENEMIES: usize = 12;

/// Ticks between two spawn attempts.
pub const SPAWN_COOLDOWN: u32 = 10;

/// A spawned enemy's x is drawn from `SPAWN_MIN_X..SPAWN_END_X`, a little wider
/// than the screen on both sides.
pub const SPAWN_MIN_X: i32 = -20;
pub const SPAWN_END_X: i32 = SCREEN_WIDTH + 20;

/// Largest horizontal drift of one enemy step.
pub const MAX_DRIFT: i32 = 8;

/// Heights covered by a wave table: every `y` in `RECYCLE_Y..BOTTOM_Y + ENEMY_STEP`.
pub const WAVE_LEN: usize = 524;

/// Horizontal room an enemy has at the top; it widens by `MAX_DRIFT` per step down.
pub const ENEMY_X_REACH: i32 = 1024;

/// The horizontal drift of an enemy step, by the height the enemy reaches:
/// `offsets[i]` is the drift at `y == RECYCLE_Y + i`.
pub struct WaveTable {
    pub offsets: Vec<i32>,
}

pub open spec fn wave_ok(offsets: Seq<i32>) -> bool {
    &&& offsets.len() == WAVE_LEN
    &&& forall|i: int| 0 <= i < WAVE_LEN ==> -MAX_DRIFT <= #[trigger] offsets[i] <= MAX_DRIFT
}

impl WaveTable {
    pub open spec fn wf(&self) -> bool {
        wave_ok(self.offsets@)
    }

    pub open spec fn drift(&self, y: int) -> int {
        self.offsets@[y - RECYCLE_Y] as int
    }

    /// A table from its offsets, if there are `WAVE_LEN` of them, each at most
    /// `MAX_DRIFT` away from zero.
    pub fn new(offsets: Vec<i32>) -> (r: Option<WaveTable>)
        ensures
            r is Some <==> wave_ok(offsets@),
            r matches Some(t) ==> t.offsets@ == offsets@,
    {
        if offsets.len() != WAVE_LEN {
            return None;
        }
        let mut i: usize = 0;
        while i < offsets.len()
            invariant
                i <= offsets.len() == WAVE_LEN,
                forall|j: int| 0 <= j < i ==> -MAX_DRIFT <= #[trigger] offsets@[j] <= MAX_DRIFT,
            decreases offsets.len() - i,
        {
            if offsets[i] < -MAX_DRIFT || offsets[i] > MAX_DRIFT {
                return None;
            }
            i += 1;
        }
        Some(WaveTable { offsets })
    }

    /// The drift at height `y`.
    pub fn offset_at(&self, y: i32) -> (r: i32)
        requires
            self.wf(),
            RECYCLE_Y <= y < BOTTOM_Y + ENEMY_STEP,
        ensures
            r == self.drift(y as int),
            -MAX_DRIFT <= r <= MAX_DRIFT,
    {
        self.offsets[(y - RECYCLE_Y) as usize]
    }
}

/// Heights an enemy can occupy, and a horizontal range that widens by
/// `MAX_DRIFT` for each `ENEMY_STEP` of descent, so drift can never leave it.
pub open spec fn enemy_in_bounds(e: Pos) -> bool {
    &&& RECYCLE_Y <= e.y < BOTTOM_Y + ENEMY_STEP
    &&& -(ENEMY_X_REACH + 2 * (e.y - RECYCLE_Y)) <= e.x <= ENEMY_X_REACH + 2 * (e.y - RECYCLE_Y)
}

/// One enemy step: above the bottom it descends and drifts by the wave at its
/// new height; at or below the bottom it recycles to the top.
pub open spec fn enemy_advanced(e: Pos, wave: WaveTable) -> Pos {
    if e.y < BOTTOM_Y {
        let y = e.y + ENEMY_STEP;
        Pos { x: (e.x + wave.drift(y)) as i32, y: y as i32 }
    } else {
        Pos { x: RECYCLE_X, y: RECYCLE_Y }
    }
}

pub open spec fn enemies_advanced(es: Seq<Pos>, wave: WaveTable) -> Seq<Pos> {
    es.map_values(|e: Pos| enemy_advanced(e, wave))
}

/// Every projectile rises by `PROJECTILE_STEP`; those that pass the top edge
/// are dropped. Order is kept.
pub open spec fn projectiles_advanced(s: Seq<Pos>) -> Seq<Pos>
    decreases s.len(),
{
    if s.len() == 0 {
        s
    } else {
        let rest = projectiles_advanced(s.drop_last());
        let p = s.last();
        if p.y - PROJECTILE_STEP >= 0 {
            rest.push(Pos { x: p.x, y: (p.y - PROJECTILE_STEP) as i32 })
        } else {
            rest
        }
    }
}

/// The enemies that no projectile's box overlaps, in order.
pub open spec fn survivors(es: Seq<Pos>, projectiles: Seq<Pos>) -> Seq<Pos>
    decreases es.len(),
{
    if es.len() == 0 {
        es
    } else {
        let rest = survivors(es.drop_last(), projectiles);
        if touched_by_any(projectiles, es.last()) {
            rest
        } else {
            rest.push(es.last())
        }
    }
}

/// A spawn attempt is due when the cooldown has run out and there is room.
pub open spec fn spawn_due(cooldown: u32, count: int) -> bool {
    cooldown == 0 && count < MAX_ENEMIES
}

/// `roll` is the spawner's draw: `Some(x)` when the coin says spawn, at `x`.
pub open spec fn enemies_spawned(es: Seq<Pos>, cooldown: u32, roll: Option<i32>) -> Seq<Pos> {
    match roll {
        Some(x) => if spawn_due(cooldown, es.len() as int) {
            es.push(Pos { x, y: 0 })
        } else {
            es
        },
        None => es,
    }
}

/// The cooldown resets when an attempt was due, then counts down to zero.
pub open spec fn cooldown_after(cooldown: u32, count: int) -> u32 {
    let c = if spawn_due(cooldown, count) {
        SPAWN_COOLDOWN
    } else {
        cooldown
    };
    if c > 0 {
        (c - 1) as u32
    } else {
        0
    }
}

pub open spec fn roll_ok(roll: Option<i32>) -> bool {
    roll matches Some(x) ==> SPAWN_MIN_X <= x < SPAWN_END_X
}

/// One enemy step; see `enemy_advanced`.
pub fn advance_enemy(e: Pos, wave: &WaveTable) -> (r: Pos)
    requires
        wave.wf(),
        enemy_in_bounds(e),
    ensures
        r == enemy_advanced(e, *wave),
        enemy_in_bounds(r),
        e.y >= BOTTOM_Y ==> r == (Pos { x: RECYCLE_X, y: RECYCLE_Y }),
        e.y < BOTTOM_Y ==> r.y == e.y + ENEMY_STEP && r.x == e.x + wave.drift(e.y + ENEMY_STEP),
{
    if e.y < BOTTOM_Y {
        let y = e.y + ENEMY_STEP;
        let d = wave.offset_at(y);
        Pos::new(e.x + d, y)
    } else {
        Pos::new(RECYCLE_X, RECYCLE_Y)
    }
}

pub fn advance_enemies(es: &Vec<Pos>, wave: &WaveTable) -> (r: Vec<Pos>)
    requires
        wave.wf(),
        forall|i: int| 0 <= i < es.len() ==> enemy_in_bounds(#[trigger] es@[i]),
    ensures
        r@ == enemies_advanced(es@, *wave),
        forall|i: int| 0 <= i < r.len() ==> enemy_in_bounds(#[trigger] r@[i]),
{
    let mut out: Vec<Pos> = Vec::new();
    let mut i: usize = 0;
    while i < es.len()
        invariant
            i <= es.len(),
            wave.wf(),
            forall|j: int| 0 <= j < es.len() ==> enemy_in_bounds(#[trigger] es@[j]),
            out.len() == i,
            forall|j: int| 0 <= j < i ==> #[trigger] out@[j] == enemy_advanced(es@[j], *wave),
            forall|j: int| 0 <= j < i ==> enemy_in_bounds(#[trigger] out@[j]),
        decreases es.len() - i,
    {
        out.push(advance_enemy(es[i], wave));
        i += 1;
    }
    assert(out@ =~= enemies_advanced(es@, *wave));
    out
}

/// Moves every projectile up and drops those that leave the screen.
pub fn advance_projectiles(ps: &Vec<Pos>) -> (r: Vec<Pos>)
    ensures
        r@ == projectiles_advanced(ps@),
{
    let mut out: Vec<Pos> = Vec::new();
    let mut i: usize = 0;
    while i < ps.len()
        invariant
            i <= ps.len(),
            out@ == projectiles_advanced(ps@.subrange(0, i as int)),
        decreases ps.len() - i,
    {
        assert(ps@.subrange(0, i + 1).drop_last() =~= ps@.subrange(0, i as int));
        let p = ps[i];
        if p.y >= PROJECTILE_STEP {
            out.push(Pos::new(p.x, p.y - PROJECTILE_STEP));
        }
        i += 1;
    }
    assert(ps@.subrange(0, ps.len() as int) =~= ps@);
    out
}

/// Removes every enemy that some projectile's box overlaps. Projectiles are
/// not used up, so one projectile may take out several enemies.
pub fn shoot_enemies(es: &Vec<Pos>, projectiles: &Vec<Pos>) -> (r: Vec<Pos>)
    ensures
        r@ == survivors(es@, projectiles@),
{
    let mut out: Vec<Pos> = Vec::new();
    let mut i: usize = 0;
    while i < es.len()
        invariant
            i <= es.len(),
            out@ == survivors(es@.subrange(0, i as int), projectiles@),
        decreases es.len() - i,
    {
        assert(es@.subrange(0, i + 1).drop_last() =~= es@.subrange(0, i as int));
        if !any_touching(projectiles, es[i]) {
            out.push(es[i]);
        }
        i += 1;
    }
    assert(es@.subrange(0, es.len() as int) =~= es@);
    out
}

/// Every enemy that survives was there before.
pub proof fn lemma_survivors_from(es: Seq<Pos>, projectiles: Seq<Pos>)
    ensures
        survivors(es, projectiles).len() <= es.len(),
        forall|i: int|
            0 <= i < survivors(es, projectiles).len() ==> es.contains(
                #[trigger] survivors(es, projectiles)[i],
            ),
    decreases es.len(),
{
    if es.len() > 0 {
        lemma_survivors_from(es.drop_last(), projectiles);
        let rest = survivors(es.drop_last(), projectiles);
        assert forall|i: int| 0 <= i < survivors(es, projectiles).len() implies es.contains(
            #[trigger] survivors(es, projectiles)[i],
        ) by {
            if i < rest.len() {
                let e = rest[i];
                assert(es.drop_last().contains(e));
                let j = choose|j: int| 0 <= j < es.drop_last().len() && es.drop_last()[j] == e;
                assert(es[j] == e);
            } else {
                assert(es[es.len() - 1] == es.last());
            }
        }
    }
}

/// Advancing projectiles adds none: each one kept was there before, now
/// `PROJECTILE_STEP` higher and still at or below the top edge.
pub proof fn lemma_advanced_from(s: Seq<Pos>)
    ensures
        projectiles_advanced(s).len() <= s.len(),
        forall|i: int|
            0 <= i < projectiles_advanced(s).len() ==> exists|j: int|
                0 <= j < s.len() && rose_from(#[trigger] projectiles_advanced(s)[i], s[j]),
    decreases s.len(),
{
    if s.len() > 0 {
        let rest = projectiles_advanced(s.drop_last());
        lemma_advanced_from(s.drop_last());
        assert forall|i: int| 0 <= i < projectiles_advanced(s).len() implies exists|j: int|
            0 <= j < s.len() && rose_from(#[trigger] projectiles_advanced(s)[i], s[j]) by {
            if i < rest.len() {
                let j = choose|j: int| 0 <= j < s.drop_last().len() && rose_from(rest[i], s.drop_last()[j]);
                assert(rose_from(projectiles_advanced(s)[i], s[j]));
            } else {
                assert(rose_from(projectiles_advanced(s)[i], s[s.len() - 1]));
            }
        }
    }
}

/// `q` is `p` one projectile step higher, and on screen.
pub open spec fn rose_from(q: Pos, p: Pos) -> bool {
    q.x == p.x && q.y == p.y - PROJECTILE_STEP && q.y >= 0
}

/// `q` is one of `sources` one projectile step higher.
pub open spec fn rose_from_one_of(q: Pos, sources: Seq<Pos>) -> bool {
    exists|j: int| 0 <= j < sources.len() && #[trigger] rose_from(q, sources[j])
}

/// Across a tick projectiles only rise: each one present afterwards is one
/// that was present before, or the one just fired from the player's position,
/// now `PROJECTILE_STEP` higher and not above the top edge; at most one is added.
pub proof fn lemma_projectiles_rise(
    pre: Game,
    c: Controller,
    roll: Option<i32>,
    wave: WaveTable,
    post: Game,
)
    requires
        ticked(pre, c, roll, wave, post),
    ensures
        post.projectiles@.len() <= pre.projectiles@.len() + 1,
        forall|i: int|
            0 <= i < post.projectiles@.len() ==> rose_from_one_of(
                #[trigger] post.projectiles@[i],
                pre.projectiles@.push(steered(pre.player, c).pos),
            ),
{
    let moved = steered(pre.player, c);
    let launched = if alive(moved.state) && c.fire_just_pressed {
        pre.projectiles@.push(moved.pos)
    } else {
        pre.projectiles@
    };
    lemma_advanced_from(launched);
    assert(post.projectiles@ == projectiles_advanced(launched));
    assert(launched.len() <= pre.projectiles@.len() + 1);
    let sources = pre.projectiles@.push(moved.pos);
    assert forall|i: int| 0 <= i < post.projectiles@.len() implies rose_from_one_of(
        #[trigger] post.projectiles@[i],
        sources,
    ) by {
        assert(post.projectiles@[i] == projectiles_advanced(launched)[i]);
        let j = choose|j: int| 0 <= j < launched.len() && rose_from(post.projectiles@[i], launched[j]);
        assert(launched[j] == sources[j]);
        assert(rose_from(post.projectiles@[i], sources[j]));
    }
}

/// A tick without a fresh press of fire launches nothing: the projectiles are
/// those from before, advanced.
pub proof fn lemma_no_launch_without_press(
    pre: Game,
    c: Controller,
    roll: Option<i32>,
    wave: WaveTable,
    post: Game,
)
    requires
        ticked(pre, c, roll, wave, post),
        !c.fire_just_pressed,
    ensures
        post.projectiles@ == projectiles_advanced(pre.projectiles@),
        post.projectiles@.len() <= pre.projectiles@.len(),
{
    lemma_advanced_from(pre.projectiles@);
}

/// Draws uniformly from `lo..hi`.
/// Relies on rand's `thread_rng` and `Rng::gen_range`, which returns a value
/// in the half-open range and panics only when the range is empty.
#[verifier::external_body]
fn random_in(lo: i32, hi: i32) -> (r: i32)
    requires
        lo < hi,
    ensures
        lo <= r < hi,
{
    rand::thread_rng().gen_range(lo..hi)
}

/// The whole game state between two ticks.
pub struct Game {
    pub player: Player,
    pub projectiles: Vec<Pos>,
    pub enemies: Vec<Pos>,
    pub spawn_cooldown: u32,
}

/// What one tick makes of `pre`, given the controls sampled for it, the
/// spawner's draw and the wave table. The steps run in this order: movement
/// and firing, projectiles, spawning, enemies, projectile hits, player hits,
/// respawn, then the player's state machine.
pub open spec fn ticked(
    pre: Game,
    c: Controller,
    roll: Option<i32>,
    wave: WaveTable,
    post: Game,
) -> bool {
    let moved = steered(pre.player, c);
    let launched = if alive(moved.state) && c.fire_just_pressed {
        pre.projectiles@.push(moved.pos)
    } else {
        pre.projectiles@
    };
    let projectiles = projectiles_advanced(launched);
    let spawned = enemies_spawned(pre.enemies@, pre.spawn_cooldown, roll);
    let enemies = survivors(enemies_advanced(spawned, wave), projectiles);
    let player = respawned(after_hits(moved, enemies));
    &&& post.projectiles@ == projectiles
    &&& post.enemies@ == enemies
    &&& post.spawn_cooldown == cooldown_after(pre.spawn_cooldown, pre.enemies.len() as int)
    &&& post.player == (Player { pos: player.pos, state: state_after_tick(player.state) })
}

impl Game {
    pub open spec fn wf(&self) -> bool {
        &&& self.player.wf()
        &&& self.enemies.len() <= MAX_ENEMIES
        &&& forall|i: int| 0 <= i < self.enemies.len() ==> enemy_in_bounds(#[trigger] self.enemies@[i])
        &&& self.spawn_cooldown <= SPAWN_COOLDOWN
    }

    /// An idle player at the start position, no projectiles, no enemies, and a
    /// full spawn cooldown.
    pub fn new() -> (r: Game)
        ensures
            r.wf(),
            r.player == (Player { pos: Pos { x: PLAYER_START_X, y: PLAYER_START_Y }, state: PlayerState::Idle }),
            r.projectiles@.len() == 0,
            r.enemies@.len() == 0,
            r.spawn_cooldown == SPAWN_COOLDOWN,
    {
        Game {
            player: Player::new(),
            projectiles: Vec::new(),
            enemies: Vec::new(),
            spawn_cooldown: SPAWN_COOLDOWN,
        }
    }

    /// The spawn step: when an attempt is due, `roll` decides whether an enemy
    /// appears at the top and the cooldown restarts; the cooldown then counts down.
    pub fn run_spawner(&mut self, roll: Option<i32>)
        requires
            old(self).wf(),
            roll_ok(roll),
        ensures
            final(self).wf(),
            final(self).player == old(self).player,
            final(self).projectiles@ == old(self).projectiles@,
            final(self).enemies@ == enemies_spawned(old(self).enemies@, old(self).spawn_cooldown, roll),
            final(self).spawn_cooldown == cooldown_after(
                old(self).spawn_cooldown,
                old(self).enemies.len() as int,
            ),
    {
        if self.spawn_cooldown == 0 && self.enemies.len() < MAX_ENEMIES {
            if let Some(x) = roll {
                self.enemies.push(Pos::new(x, 0));
            }
            self.spawn_cooldown = SPAWN_COOLDOWN;
        }
        if self.spawn_cooldown > 0 {
            self.spawn_cooldown = self.spawn_cooldown - 1;
        }
    }

    /// One tick with the spawner's draw given: `Some(x)` when its coin says
    /// spawn, at `x`.
    pub fn tick_with(&mut self, c: &Controller, roll: Option<i32>, wave: &WaveTable)
        requires
            old(self).wf(),
            wave.wf(),
            roll_ok(roll),
        ensures
            ticked(*old(self), *c, roll, *wave, *final(self)),
            final(self).wf(),
            final(self).enemies.len() <= MAX_ENEMIES,
    {
        self.player.steer(c);
        if !self.player.is_dead() && c.fire_just_pressed {
            self.projectiles.push(self.player.pos);
        }
        self.projectiles = advance_projectiles(&self.projectiles);
        self.run_spawner(roll);
        let moved = advance_enemies(&self.enemies, wave);
        let kept = shoot_enemies(&moved, &self.projectiles);
        proof {
            lemma_survivors_from(moved@, self.projectiles@);
            assert forall|i: int| 0 <= i < kept.len() implies enemy_in_bounds(#[trigger] kept@[i]) by {
                assert(moved@.contains(kept@[i]));
            }
        }
        self.enemies = kept;
        self.player.collide(&self.enemies);
        self.player.respawn_if_removed();
        self.player.update();
    }

    /// One tick, with the spawner's coin and position drawn at random when a
    /// spawn attempt is due. The result is what `tick_with` gives for some draw
    /// in range, and for no draw at all when no attempt is due.
    pub fn tick(&mut self, c: &Controller, wave: &WaveTable)
        requires
            old(self).wf(),
            wave.wf(),
        ensures
            final(self).wf(),
            final(self).enemies.len() <= MAX_ENEMIES,
            exists|roll: Option<i32>|
                #[trigger] roll_ok(roll) && ticked(*old(self), *c, roll, *wave, *final(self)),
            !spawn_due(old(self).spawn_cooldown, old(self).enemies.len() as int) ==> ticked(
                *old(self),
                *c,
                None,
                *wave,
                *final(self),
            ),
    {
        let roll = if self.spawn_cooldown == 0 && self.enemies.len() < MAX_ENEMIES {
            if random_in(0, 2) == 0 {
                Some(random_in(SPAWN_MIN_X, SPAWN_END_X))
            } else {
                None
            }
        } else {
            None
        };
        self.tick_with(c, roll, wave);
        assert(roll_ok(roll));
    }
}

} // verus!

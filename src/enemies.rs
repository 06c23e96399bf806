//! The falling enemies: random spawning at the top, falling, removal once
//! hit or below the screen.
use vstd::prelude::*;
use crate::shape::{Shape, MAX_SIZE, fallen, lemma_fall_linear, lemma_same_sign_moves};
use crate::members::{
    fall_by, lemma_move_prune_twice,
    all_wf, fallen_all, mark_hits, struck_indices, lemma_filter_idempotent, strike_members,
    fall_members,
};
use crate::draw::random_between;

verus! {

/// A chance draw (uniform over `0..=99`) at or above this spawns an enemy.
pub const SPAWN_THRESHOLD: i64 = 95;

/// Bounds of the random size of a new enemy, in sub-pixels (16 to 64 pixels).
pub const ENEMY_MIN_SIZE: i64 = 16_000_000;
pub const ENEMY_MAX_SIZE: i64 = 64_000_000;

/// Bounds of the random speed of a new enemy, in pixels per second.
pub const ENEMY_MIN_SPEED: i64 = 50;
pub const ENEMY_MAX_SPEED: i64 = 150;

/// Largest screen extent accepted, in sub-pixels.
pub const MAX_SCREEN: i64 = 1_125_899_906_842_624;

/// The random values that one frame of enemy updates consumes: the spawn
/// chance and, when it spawns, the new enemy's size, speed and abscissa.
#[derive(Clone, Copy, Debug, PartialEq, Eq, Structural)]
pub struct SpawnDraw {
    pub chance: i64,
    pub size: i64,
    pub speed: i64,
    pub x: i64,
}

impl SpawnDraw {
    pub open spec fn wf(self) -> bool {
        self.chance >= SPAWN_THRESHOLD ==> 0 < self.size <= MAX_SIZE
    }
}

/// `v` lies between `a` and `b`, both included, whatever their order.
pub open spec fn between(v: int, a: int, b: int) -> bool {
    if a <= b { a <= v <= b } else { b <= v <= a }
}

/// The draws that the random generator can produce for a screen `sw` wide.
pub open spec fn draw_in_range(d: SpawnDraw, sw: int) -> bool {
    &&& 0 <= d.chance <= 99
    &&& d.chance >= SPAWN_THRESHOLD ==> {
        &&& ENEMY_MIN_SIZE <= d.size <= ENEMY_MAX_SIZE
        &&& ENEMY_MIN_SPEED <= d.speed <= ENEMY_MAX_SPEED
        &&& between(d.x as int, d.size / 2, sw - d.size / 2)
    }
}

/// The enemy that a spawning draw brings: just above the top of the screen.
pub open spec fn spawned_enemy(d: SpawnDraw) -> Shape {
    Shape { size: d.size, speed: d.speed, x: d.x, y: -d.size as i64, collided: false }
}

pub open spec fn spawned(s: Seq<Shape>, d: SpawnDraw) -> Seq<Shape> {
    if d.chance >= SPAWN_THRESHOLD { s.push(spawned_enemy(d)) } else { s }
}

/// An enemy stays while it is unhit and not below `screen_height + size`
/// (it goes once `y > screen_height + size`).
pub open spec fn enemy_kept(e: Shape, screen_height: int) -> bool {
    !e.collided && e.y <= screen_height + e.size
}

pub open spec fn enemy_rule(screen_height: int) -> spec_fn(Shape) -> bool {
    |e: Shape| enemy_kept(e, screen_height)
}

pub open spec fn enemies_pruned(s: Seq<Shape>, screen_height: int) -> Seq<Shape> {
    s.filter(enemy_rule(screen_height))
}

/// One frame: spawn as the draw says, fall for `dt`, prune.
pub open spec fn enemies_updated(s: Seq<Shape>, d: SpawnDraw, dt: int, screen_height: int) -> Seq<Shape> {
    enemies_pruned(fallen_all(spawned(s, d), dt), screen_height)
}

/// Pruning twice keeps the same enemies as pruning once.
pub proof fn lemma_enemies_prune_idempotent(s: Seq<Shape>, screen_height: int)
    ensures
        enemies_pruned(enemies_pruned(s, screen_height), screen_height) == enemies_pruned(s, screen_height),
{
    lemma_filter_idempotent(s, enemy_rule(screen_height));
}

/// Two frames without a spawn, of `dt1` then `dt2`, leave the same enemies
/// in the same places as one frame of `dt1 + dt2`, when no enemy moves up
/// (one moving up could come back above the bottom edge after leaving it).
pub proof fn lemma_enemies_update_linear(
    s: Seq<Shape>,
    d1: SpawnDraw,
    d2: SpawnDraw,
    d: SpawnDraw,
    dt1: nat,
    dt2: nat,
    screen_height: int,
)
    requires
        d1.chance < SPAWN_THRESHOLD,
        d2.chance < SPAWN_THRESHOLD,
        d.chance < SPAWN_THRESHOLD,
        forall|i: int| 0 <= i < s.len() ==> (#[trigger] s[i]).speed >= 0,
    ensures
        enemies_updated(enemies_updated(s, d1, dt1 as int, screen_height), d2, dt2 as int, screen_height)
            == enemies_updated(s, d, (dt1 + dt2) as int, screen_height),
{
    let f = fall_by(dt1 as int);
    let g = fall_by(dt2 as int);
    let h = fall_by((dt1 + dt2) as int);
    let p = enemy_rule(screen_height);
    assert forall|i: int| 0 <= i < s.len() implies h(#[trigger] s[i]) == g(f(s[i])) && (p(h(s[i])) ==> p(f(s[i]))) by {
        let x = s[i];
        lemma_fall_linear(x, dt1, dt2);
        lemma_same_sign_moves(x.speed as int, dt1, dt2);
        assert(fallen(x, (dt1 + dt2) as int).y >= fallen(x, dt1 as int).y);
    }
    lemma_move_prune_twice(s, f, g, h, p);
}

pub struct EnemiesSet {
    pub enemies: Vec<Shape>,
}

impl EnemiesSet {
    pub open spec fn wf(&self) -> bool {
        all_wf(self.enemies@)
    }

    pub fn new() -> (r: EnemiesSet)
        ensures
            r.enemies@ == Seq::<Shape>::empty(),
            r.wf(),
    {
        EnemiesSet { enemies: Vec::new() }
    }

    /// Removes every enemy.
    pub fn clear(&mut self)
        ensures
            final(self).enemies@ == Seq::<Shape>::empty(),
            final(self).wf(),
    {
        self.enemies.clear();
    }

    /// Adds an enemy at the end.
    pub fn push(&mut self, shape: Shape)
        requires
            old(self).wf(),
            shape.wf(),
        ensures
            final(self).enemies@ == old(self).enemies@.push(shape),
            final(self).wf(),
    {
        self.enemies.push(shape);
    }

    pub fn get_list(&mut self) -> (r: &mut Vec<Shape>)
        ensures
            *r == old(self).enemies,
            final(self).enemies == *final(r),
    {
        &mut self.enemies
    }

    /// Appends the enemy that `draw` describes when its chance reaches the
    /// threshold; nothing otherwise.
    pub fn spawn(&mut self, draw: SpawnDraw)
        requires
            old(self).wf(),
            draw.wf(),
        ensures
            final(self).enemies@ == spawned(old(self).enemies@, draw),
            final(self).wf(),
    {
        if draw.chance >= SPAWN_THRESHOLD {
            self.enemies.push(Shape { size: draw.size, speed: draw.speed, x: draw.x, y: -draw.size, collided: false });
        }
    }

    /// Moves every enemy down by `speed * dt`.
    pub fn advance(&mut self, dt: u32)
        requires
            old(self).wf(),
        ensures
            final(self).enemies@ == fallen_all(old(self).enemies@, dt as int),
            final(self).wf(),
    {
        fall_members(&mut self.enemies, dt);
        assert forall|i: int| 0 <= i < self.enemies@.len() implies #[trigger] self.enemies@[i].wf() by {
            assert(old(self).enemies@[i].wf());
        }
    }

    /// Removes the enemies that were hit or fell below the screen.
    pub fn prune(&mut self, screen_height: i64)
        requires
            old(self).wf(),
        ensures
            final(self).enemies@ == enemies_pruned(old(self).enemies@, screen_height as int),
            final(self).wf(),
    {
        let ghost start = self.enemies@;
        let ghost rule = enemy_rule(screen_height as int);
        let mut kept: Vec<Shape> = Vec::new();
        let mut i: usize = 0;
        while i < self.enemies.len()
            invariant
                self.enemies@ == start,
                rule == enemy_rule(screen_height as int),
                all_wf(start),
                0 <= i <= start.len(),
                kept@ == start.take(i as int).filter(rule),
                all_wf(kept@),
            decreases start.len() - i,
        {
            let e = self.enemies[i];
            proof {
                reveal(Seq::filter);
                assert(start.take(i + 1).drop_last() =~= start.take(i as int));
                assert(start.take(i + 1).last() == e);
                assert(rule(e) == enemy_kept(e, screen_height as int));
            }
            if !e.collided && (e.y as i128) <= (screen_height as i128) + (e.size as i128) {
                kept.push(e);
            }
            i += 1;
        }
        assert(start.take(start.len() as int) =~= start);
        self.enemies = kept;
    }

    /// One frame with the random values already drawn: spawn, fall, prune.
    pub fn update_with(&mut self, draw: SpawnDraw, delta_time: u32, screen_height: i64)
        requires
            old(self).wf(),
            draw.wf(),
        ensures
            final(self).enemies@ == enemies_updated(old(self).enemies@, draw, delta_time as int, screen_height as int),
            final(self).wf(),
    {
        self.spawn(draw);
        self.advance(delta_time);
        self.prune(screen_height);
    }

    /// Draws the spawn chance and, when it spawns, the new enemy's size,
    /// speed and abscissa, in that order.
    pub fn draw_spawn(screen_width: i64) -> (d: SpawnDraw)
        requires
            0 <= screen_width <= MAX_SCREEN,
        ensures
            draw_in_range(d, screen_width as int),
            d.wf(),
    {
        let chance = random_between(0, 99);
        if chance >= SPAWN_THRESHOLD {
            let size = random_between(ENEMY_MIN_SIZE, ENEMY_MAX_SIZE);
            let speed = random_between(ENEMY_MIN_SPEED, ENEMY_MAX_SPEED);
            let x = random_between(size / 2, screen_width - size / 2);
            SpawnDraw { chance, size, speed, x }
        } else {
            SpawnDraw { chance, size: ENEMY_MIN_SIZE, speed: ENEMY_MIN_SPEED, x: 0 }
        }
    }

    /// One frame: draws the spawn chance (and, when it spawns, the new
    /// enemy's size, speed and abscissa), then spawns, falls and prunes.
    pub fn update(&mut self, delta_time: u32, screen_width: i64, screen_height: i64)
        requires
            old(self).wf(),
            0 <= screen_width <= MAX_SCREEN,
        ensures
            exists|d: SpawnDraw|
                draw_in_range(d, screen_width as int) && final(self).enemies@ == enemies_updated(
                    old(self).enemies@,
                    d,
                    delta_time as int,
                    screen_height as int,
                ),
            final(self).wf(),
    {
        let draw = EnemiesSet::draw_spawn(screen_width);
        self.update_with(draw, delta_time, screen_height);
    }

    /// Flags every enemy whose circle meets the square of `shape` and
    /// returns their indices, in increasing order.
    pub fn collides_with(&mut self, shape: &Shape) -> (found: Vec<usize>)
        requires
            old(self).wf(),
            shape.wf(),
        ensures
            final(self).enemies@ == mark_hits(old(self).enemies@, *shape),
            found@ == struck_indices(old(self).enemies@, *shape),
            final(self).wf(),
    {
        strike_members(&mut self.enemies, shape)
    }
}

} // verus!

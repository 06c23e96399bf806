//! Collision resolution: each pass pairs a set with a target, flags what
//! was struck and applies the reaction of that kind of collision to every
//! overlapping pair, with no early exit (one enemy hit by two bullets in
//! the same frame scores twice).
use vstd::prelude::*;
use crate::shape::{Shape, struck, pixels_rounded};
use crate::members::{
    struck_indices, mark_hits, same_geometry, lemma_struck_indices_geometry, lemma_struck_indices_bounds,
};
use crate::buildings::{shapes_of, labels};
use crate::explosions::{Explosion, blast};
use crate::score::{Score, increased, increased_all};
use crate::game::{Game, Collision, GameState, lives_after};

verus! {

pub open spec fn count_hits(members: Seq<Shape>, target: Shape) -> nat {
    struck_indices(members, target).len()
}

/// `s` with every member that some circle of `others` meets flagged as hit.
pub open spec fn hit_by(s: Seq<Shape>, others: Seq<Shape>) -> Seq<Shape> {
    s.map_values(|t: Shape| if count_hits(others, t) > 0 { struck(t) } else { t })
}

/// `s` with every member that meets the square of some target flagged.
pub open spec fn mark_by_all(s: Seq<Shape>, targets: Seq<Shape>) -> Seq<Shape>
    decreases targets.len(),
{
    if targets.len() == 0 {
        s
    } else {
        mark_hits(mark_by_all(s, targets.drop_last()), targets.last())
    }
}

/// The explosions that bullets cause: enemy by enemy, one for each bullet
/// that hits it.
pub open spec fn bullet_blasts(enemies: Seq<Shape>, bullets: Seq<Shape>) -> Seq<Explosion>
    decreases enemies.len(),
{
    if enemies.len() == 0 {
        Seq::empty()
    } else {
        let e = enemies.last();
        bullet_blasts(enemies.drop_last(), bullets) + Seq::new(count_hits(bullets, e), |k: int| blast(e))
    }
}

/// The points that bullets score: enemy by enemy, its size in pixels once
/// for each bullet that hits it.
pub open spec fn bullet_points(enemies: Seq<Shape>, bullets: Seq<Shape>) -> Seq<u32>
    decreases enemies.len(),
{
    if enemies.len() == 0 {
        Seq::empty()
    } else {
        let e = enemies.last();
        bullet_points(enemies.drop_last(), bullets) + Seq::new(
            count_hits(bullets, e),
            |k: int| pixels_rounded(e.size as int) as u32,
        )
    }
}

/// The explosions that targets cause: target by target, one for each enemy
/// that meets it, in the enemies' order.
pub open spec fn target_blasts(enemies: Seq<Shape>, targets: Seq<Shape>) -> Seq<Explosion>
    decreases targets.len(),
{
    if targets.len() == 0 {
        Seq::empty()
    } else {
        target_blasts(enemies, targets.drop_last()) + struck_indices(enemies, targets.last()).map_values(
            |i: usize| blast(enemies[i as int]),
        )
    }
}

/// The enemies after a whole resolution pass: hit by bullets, then
/// flagged by buildings, fires and the ship in turn.
pub open spec fn resolved_enemies(e0: Seq<Shape>, b0: Seq<Shape>, t0: Seq<Shape>, f0: Seq<Shape>, ship: Shape) -> Seq<Shape> {
    mark_hits(mark_by_all(mark_by_all(hit_by(e0, b0), t0), f0), ship)
}

/// How many enemies hit the ship in a resolution pass.
pub open spec fn ship_hits(e0: Seq<Shape>, b0: Seq<Shape>, t0: Seq<Shape>, f0: Seq<Shape>, ship: Shape) -> int {
    count_hits(mark_by_all(mark_by_all(hit_by(e0, b0), t0), f0), ship) as int
}

/// The explosions of a resolution pass, in the order of the passes.
pub open spec fn resolved_blasts(e0: Seq<Shape>, b0: Seq<Shape>, t0: Seq<Shape>, f0: Seq<Shape>) -> Seq<Explosion> {
    let e1 = hit_by(e0, b0);
    bullet_blasts(e0, b0) + target_blasts(e1, t0) + target_blasts(mark_by_all(e1, t0), f0)
}

/// The ship's lives after `n` hits.
pub open spec fn resolved_life(life: int, life_counter: bool, n: int) -> int {
    if life_counter { lives_after(life, n) } else { life }
}

/// The state after a resolution pass: the game is over once the ship took a
/// fatal hit or every building burns.
pub open spec fn resolved_state(state: GameState, life_counter: bool, n: int, life: int, town_destroyed: bool) -> GameState {
    if (n > 0 && (!life_counter || life == 0)) || town_destroyed { GameState::GameOver } else { state }
}

pub proof fn lemma_mark_by_all_geometry(s: Seq<Shape>, targets: Seq<Shape>)
    ensures
        same_geometry(mark_by_all(s, targets), s),
    decreases targets.len(),
{
    if targets.len() > 0 {
        lemma_mark_by_all_geometry(s, targets.drop_last());
    }
}

proof fn lemma_increased_push(s: Score, vals: Seq<u32>, v: u32)
    ensures
        increased_all(s, vals.push(v)) == increased(increased_all(s, vals), v),
{
    assert(vals.push(v).drop_last() =~= vals);
}

impl Game {
    /// Bullets against enemies: every bullet whose circle meets an enemy's
    /// square is flagged, and each such pair makes the enemy explode, flags
    /// it and scores its size.
    pub fn resolve_bullets(&mut self)
        requires
            old(self).wf(),
        ensures
            final(self).wf(),
            final(self).enemies.enemies@ == hit_by(old(self).enemies.enemies@, old(self).bullets.bullets@),
            final(self).bullets.bullets@ == mark_by_all(old(self).bullets.bullets@, old(self).enemies.enemies@),
            final(self).explosions.explosions@ == old(self).explosions.explosions@ + bullet_blasts(
                old(self).enemies.enemies@,
                old(self).bullets.bullets@,
            ),
            final(self).score == increased_all(
                old(self).score,
                bullet_points(old(self).enemies.enemies@, old(self).bullets.bullets@),
            ),
            final(self).buildings == old(self).buildings,
            final(self).fires == old(self).fires,
            final(self).ship == old(self).ship,
            final(self).state == old(self).state,
            final(self).life_counter == old(self).life_counter,
    {
        let ghost e0 = self.enemies.enemies@;
        let ghost b0 = self.bullets.bullets@;
        let ghost x0 = self.explosions.explosions@;
        let ghost s0 = self.score;
        let mut i: usize = 0;
        while i < self.enemies.enemies.len()
            invariant
                self.wf(),
                0 <= i <= e0.len(),
                self.enemies.enemies@.len() == e0.len(),
                forall|j: int| 0 <= j < i ==> #[trigger] self.enemies.enemies@[j] == hit_by(e0, b0)[j],
                forall|j: int| i <= j < e0.len() ==> #[trigger] self.enemies.enemies@[j] == e0[j],
                self.bullets.bullets@ == mark_by_all(b0, e0.take(i as int)),
                self.explosions.explosions@ == x0 + bullet_blasts(e0.take(i as int), b0),
                self.score == increased_all(s0, bullet_points(e0.take(i as int), b0)),
                self.buildings == old(self).buildings,
                self.fires == old(self).fires,
                self.ship == old(self).ship,
                self.state == old(self).state,
                self.life_counter == old(self).life_counter,
            decreases e0.len() - i,
        {
            let e = self.enemies.enemies[i];
            assert(e.wf());
            proof {
                lemma_mark_by_all_geometry(b0, e0.take(i as int));
                lemma_struck_indices_geometry(self.bullets.bullets@, b0, e);
            }
            let found = self.bullets.collides_with(&e);
            let ghost take_next = e0.take(i + 1);
            proof {
                assert(take_next.drop_last() =~= e0.take(i as int));
                assert(take_next.last() == e);
            }
            let ghost pts = pixels_rounded(e.size as int) as u32;
            let ghost xs = x0 + bullet_blasts(e0.take(i as int), b0);
            let ghost ps = bullet_points(e0.take(i as int), b0);
            let mut k: usize = 0;
            while k < found.len()
                invariant
                    self.wf(),
                    0 <= k <= found@.len(),
                    found@.len() == count_hits(b0, e),
                    i < e0.len(),
                    e == e0[i as int],
                    e.wf(),
                    self.enemies.enemies@.len() == e0.len(),
                    forall|j: int| 0 <= j < i ==> #[trigger] self.enemies.enemies@[j] == hit_by(e0, b0)[j],
                    forall|j: int| i < j < e0.len() ==> #[trigger] self.enemies.enemies@[j] == e0[j],
                    self.enemies.enemies@[i as int] == (if k > 0 { struck(e) } else { e }),
                    self.bullets.bullets@ == mark_by_all(b0, take_next),
                    self.explosions.explosions@ == xs + Seq::new(k as nat, |m: int| blast(e)),
                    self.score == increased_all(s0, ps + Seq::new(k as nat, |m: int| pts)),
                    pts == pixels_rounded(e.size as int) as u32,
                    self.buildings == old(self).buildings,
                    self.fires == old(self).fires,
                    self.ship == old(self).ship,
                    self.state == old(self).state,
                    self.life_counter == old(self).life_counter,
                decreases found@.len() - k,
            {
                let ghost before_x = self.explosions.explosions@;
                let ghost before_s = self.score;
                self.react(Collision::BulletEnemy, i, found[k]);
                proof {
                    assert(blast(struck(e)) == blast(e));
                    assert(self.explosions.explosions@ =~= xs + Seq::new((k + 1) as nat, |m: int| blast(e)));
                    lemma_increased_push(s0, ps + Seq::new(k as nat, |m: int| pts), pts);
                    assert((ps + Seq::new(k as nat, |m: int| pts)).push(pts) =~= ps + Seq::new((k + 1) as nat, |m: int| pts));
                }
                k += 1;
            }
            proof {
                assert(hit_by(e0, b0)[i as int] == self.enemies.enemies@[i as int]);
            }
            i += 1;
        }
        proof {
            assert(e0.take(e0.len() as int) =~= e0);
            assert(self.enemies.enemies@ =~= hit_by(e0, b0));
        }
    }

    /// Enemies against buildings: every enemy whose circle meets a
    /// building's square is flagged, and each such pair makes the enemy
    /// explode and flags the building, which stays in place.
    pub fn resolve_buildings(&mut self)
        requires
            old(self).wf(),
        ensures
            final(self).wf(),
            final(self).enemies.enemies@ == mark_by_all(old(self).enemies.enemies@, shapes_of(old(self).buildings.buildings@)),
            shapes_of(final(self).buildings.buildings@) == hit_by(shapes_of(old(self).buildings.buildings@), old(self).enemies.enemies@),
            labels(final(self).buildings.buildings@) == labels(old(self).buildings.buildings@),
            final(self).explosions.explosions@ == old(self).explosions.explosions@ + target_blasts(
                old(self).enemies.enemies@,
                shapes_of(old(self).buildings.buildings@),
            ),
            final(self).bullets == old(self).bullets,
            final(self).fires == old(self).fires,
            final(self).ship == old(self).ship,
            final(self).score == old(self).score,
            final(self).state == old(self).state,
            final(self).life_counter == old(self).life_counter,
    {
        let ghost e0 = self.enemies.enemies@;
        let ghost t0 = shapes_of(self.buildings.buildings@);
        let ghost l0 = labels(self.buildings.buildings@);
        let ghost x0 = self.explosions.explosions@;
        let n0 = self.enemies.enemies.len();
        let mut j: usize = 0;
        while j < self.buildings.buildings.len()
            invariant
                self.wf(),
                e0.len() == n0,
                0 <= j <= t0.len(),
                self.buildings.buildings@.len() == t0.len(),
                labels(self.buildings.buildings@) == l0,
                forall|l: int| 0 <= l < j ==> #[trigger] shapes_of(self.buildings.buildings@)[l] == hit_by(t0, e0)[l],
                forall|l: int| j <= l < t0.len() ==> #[trigger] shapes_of(self.buildings.buildings@)[l] == t0[l],
                self.enemies.enemies@ == mark_by_all(e0, t0.take(j as int)),
                self.explosions.explosions@ == x0 + target_blasts(e0, t0.take(j as int)),
                self.bullets == old(self).bullets,
                self.fires == old(self).fires,
                self.ship == old(self).ship,
                self.score == old(self).score,
                self.state == old(self).state,
                self.life_counter == old(self).life_counter,
            decreases t0.len() - j,
        {
            let b = self.buildings.buildings[j].shape;
            assert(shapes_of(self.buildings.buildings@)[j as int] == t0[j as int]);
            assert(b == t0[j as int]);
            assert(b.wf());
            proof {
                lemma_mark_by_all_geometry(e0, t0.take(j as int));
                lemma_struck_indices_geometry(self.enemies.enemies@, e0, b);
                lemma_struck_indices_bounds(e0, b);
            }
            let found = self.enemies.collides_with(&b);
            let ghost take_next = t0.take(j + 1);
            proof {
                assert(take_next.drop_last() =~= t0.take(j as int));
                assert(take_next.last() == b);
                lemma_mark_by_all_geometry(e0, take_next);
            }
            let ghost xs = x0 + target_blasts(e0, t0.take(j as int));
            let ghost f = |i: usize| blast(e0[i as int]);
            let mut k: usize = 0;
            while k < found.len()
                invariant
                    self.wf(),
                    0 <= k <= found@.len(),
                    found@ == struck_indices(e0, b),
                    forall|m: int| 0 <= m < found@.len() ==> #[trigger] found@[m] < e0.len(),
                    j < t0.len(),
                    b == t0[j as int],
                    f == (|i: usize| blast(e0[i as int])),
                    self.buildings.buildings@.len() == t0.len(),
                    labels(self.buildings.buildings@) == l0,
                    forall|l: int| 0 <= l < j ==> #[trigger] shapes_of(self.buildings.buildings@)[l] == hit_by(t0, e0)[l],
                    forall|l: int| j < l < t0.len() ==> #[trigger] shapes_of(self.buildings.buildings@)[l] == t0[l],
                    shapes_of(self.buildings.buildings@)[j as int] == (if k > 0 { struck(b) } else { b }),
                    self.enemies.enemies@ == mark_by_all(e0, take_next),
                    same_geometry(self.enemies.enemies@, e0),
                    self.explosions.explosions@ == xs + found@.take(k as int).map_values(f),
                    self.bullets == old(self).bullets,
                    self.fires == old(self).fires,
                    self.ship == old(self).ship,
                    self.score == old(self).score,
                    self.state == old(self).state,
                    self.life_counter == old(self).life_counter,
                decreases found@.len() - k,
            {
                let idx = found[k];
                assert(idx < e0.len());
                let ghost sb = shapes_of(self.buildings.buildings@);
                self.react(Collision::BuildingEnemy, idx, j);
                proof {
                    assert(blast(self.enemies.enemies@[idx as int]) == blast(e0[idx as int]));
                    assert(found@.take(k + 1) =~= found@.take(k as int).push(idx));
                    assert(found@.take(k + 1).map_values(f) =~= found@.take(k as int).map_values(f).push(f(idx)));
                    assert(self.explosions.explosions@ =~= xs + found@.take(k + 1).map_values(f));
                    assert forall|l: int| 0 <= l < t0.len() && l != j implies #[trigger] shapes_of(self.buildings.buildings@)[l] == sb[l] by {}
                }
                k += 1;
            }
            proof {
                assert(found@.take(found@.len() as int) =~= found@);
                assert(hit_by(t0, e0)[j as int] == shapes_of(self.buildings.buildings@)[j as int]);
                assert(target_blasts(e0, take_next) == target_blasts(e0, t0.take(j as int)) + found@.map_values(f));
            }
            j += 1;
        }
        proof {
            assert(t0.take(t0.len() as int) =~= t0);
            assert(shapes_of(self.buildings.buildings@) =~= hit_by(t0, e0));
        }
    }

    /// Enemies against fires: every enemy whose circle meets a fire's
    /// square is flagged and explodes, once per such fire.
    pub fn resolve_fires(&mut self)
        requires
            old(self).wf(),
        ensures
            final(self).wf(),
            final(self).enemies.enemies@ == mark_by_all(old(self).enemies.enemies@, old(self).fires.fires@),
            final(self).explosions.explosions@ == old(self).explosions.explosions@ + target_blasts(
                old(self).enemies.enemies@,
                old(self).fires.fires@,
            ),
            final(self).bullets == old(self).bullets,
            final(self).buildings == old(self).buildings,
            final(self).fires == old(self).fires,
            final(self).ship == old(self).ship,
            final(self).score == old(self).score,
            final(self).state == old(self).state,
            final(self).life_counter == old(self).life_counter,
    {
        let ghost e0 = self.enemies.enemies@;
        let ghost t0 = self.fires.fires@;
        let ghost x0 = self.explosions.explosions@;
        let n0 = self.enemies.enemies.len();
        let mut j: usize = 0;
        while j < self.fires.fires.len()
            invariant
                self.wf(),
                e0.len() == n0,
                0 <= j <= t0.len(),
                self.fires.fires@ == t0,
                self.enemies.enemies@ == mark_by_all(e0, t0.take(j as int)),
                self.explosions.explosions@ == x0 + target_blasts(e0, t0.take(j as int)),
                self.bullets == old(self).bullets,
                self.buildings == old(self).buildings,
                self.fires == old(self).fires,
                self.ship == old(self).ship,
                self.score == old(self).score,
                self.state == old(self).state,
                self.life_counter == old(self).life_counter,
            decreases t0.len() - j,
        {
            let t = self.fires.fires[j];
            assert(t.wf());
            proof {
                lemma_mark_by_all_geometry(e0, t0.take(j as int));
                lemma_struck_indices_geometry(self.enemies.enemies@, e0, t);
                lemma_struck_indices_bounds(e0, t);
            }
            let found = self.enemies.collides_with(&t);
            let ghost take_next = t0.take(j + 1);
            proof {
                assert(take_next.drop_last() =~= t0.take(j as int));
                assert(take_next.last() == t);
                lemma_mark_by_all_geometry(e0, take_next);
            }
            let ghost xs = x0 + target_blasts(e0, t0.take(j as int));
            let ghost f = |i: usize| blast(e0[i as int]);
            let mut k: usize = 0;
            while k < found.len()
                invariant
                    self.wf(),
                    0 <= k <= found@.len(),
                    found@ == struck_indices(e0, t),
                    forall|m: int| 0 <= m < found@.len() ==> #[trigger] found@[m] < e0.len(),
                    f == (|i: usize| blast(e0[i as int])),
                    self.enemies.enemies@ == mark_by_all(e0, take_next),
                    same_geometry(self.enemies.enemies@, e0),
                    self.explosions.explosions@ == xs + found@.take(k as int).map_values(f),
                    self.bullets == old(self).bullets,
                    self.buildings == old(self).buildings,
                    self.fires == old(self).fires,
                    self.ship == old(self).ship,
                    self.score == old(self).score,
                    self.state == old(self).state,
                    self.life_counter == old(self).life_counter,
                decreases found@.len() - k,
            {
                let idx = found[k];
                assert(idx < e0.len());
                self.react(Collision::FireEnemy, idx, j);
                proof {
                    assert(blast(self.enemies.enemies@[idx as int]) == blast(e0[idx as int]));
                    assert(found@.take(k + 1) =~= found@.take(k as int).push(idx));
                    assert(found@.take(k + 1).map_values(f) =~= found@.take(k as int).map_values(f).push(f(idx)));
                    assert(self.explosions.explosions@ =~= xs + found@.take(k + 1).map_values(f));
                }
                k += 1;
            }
            proof {
                assert(found@.take(found@.len() as int) =~= found@);
                assert(target_blasts(e0, take_next) == target_blasts(e0, t0.take(j as int)) + found@.map_values(f));
            }
            j += 1;
        }
        proof {
            assert(t0.take(t0.len() as int) =~= t0);
        }
    }

    /// Enemies against the ship: every enemy whose circle meets the ship's
    /// square is flagged, and each such enemy hits the ship.
    pub fn resolve_ship(&mut self)
        requires
            old(self).wf(),
        ensures
            final(self).wf(),
            final(self).enemies.enemies@ == mark_hits(old(self).enemies.enemies@, old(self).ship.ship),
            ({
                let n = count_hits(old(self).enemies.enemies@, old(self).ship.ship) as int;
                &&& final(self).ship.life == (if old(self).life_counter {
                    lives_after(old(self).ship.life as int, n)
                } else {
                    old(self).ship.life as int
                })
                &&& final(self).state == (if n > 0 && (!old(self).life_counter || final(self).ship.life == 0) {
                    GameState::GameOver
                } else {
                    old(self).state
                })
            }),
            final(self).ship.ship == old(self).ship.ship,
            final(self).ship.nb_ammo == old(self).ship.nb_ammo,
            final(self).explosions == old(self).explosions,
            final(self).bullets == old(self).bullets,
            final(self).buildings == old(self).buildings,
            final(self).fires == old(self).fires,
            final(self).score == old(self).score,
            final(self).life_counter == old(self).life_counter,
    {
        let ghost e0 = self.enemies.enemies@;
        let ghost life0 = self.ship.life as int;
        let ghost state0 = self.state;
        let ship = self.ship.ship;
        let n0 = self.enemies.enemies.len();
        proof {
            lemma_struck_indices_bounds(e0, ship);
        }
        let found = self.enemies.collides_with(&ship);
        let ghost marked = self.enemies.enemies@;
        let mut k: usize = 0;
        while k < found.len()
            invariant
                self.wf(),
                0 <= k <= found@.len(),
                found@ == struck_indices(e0, ship),
                marked == mark_hits(e0, ship),
                forall|m: int|
                    0 <= m < found@.len() ==> (#[trigger] found@[m]) < e0.len() && crate::shape::hits(e0[found@[m] as int], ship),
                self.enemies.enemies@ == marked,
                self.ship.life == (if self.life_counter { lives_after(life0, k as int) } else { life0 }),
                self.state == (if k > 0 && (!self.life_counter || self.ship.life == 0) { GameState::GameOver } else { state0 }),
                self.ship.ship == ship,
                self.ship.nb_ammo == old(self).ship.nb_ammo,
                self.explosions == old(self).explosions,
                self.bullets == old(self).bullets,
                self.buildings == old(self).buildings,
                self.fires == old(self).fires,
                self.score == old(self).score,
                self.life_counter == old(self).life_counter,
            decreases found@.len() - k,
        {
            let idx = found[k];
            assert(idx < e0.len());
            assert(marked[idx as int] == struck(e0[idx as int]));
            self.react(Collision::ShipEnemy, idx, 0);
            assert(self.enemies.enemies@ =~= marked);
            k += 1;
        }
    }

    /// The collision passes of a frame, in order (bullets, buildings,
    /// fires, ship), then the end of the game once the whole town burns.
    pub fn resolve_collisions(&mut self)
        requires
            old(self).wf(),
        ensures
            final(self).wf(),
            ({
                let e0 = old(self).enemies.enemies@;
                let b0 = old(self).bullets.bullets@;
                let t0 = shapes_of(old(self).buildings.buildings@);
                let f0 = old(self).fires.fires@;
                let ship = old(self).ship.ship;
                let life = resolved_life(old(self).ship.life as int, old(self).life_counter, ship_hits(e0, b0, t0, f0, ship));
                &&& final(self).bullets.bullets@ == mark_by_all(b0, e0)
                &&& final(self).enemies.enemies@ == resolved_enemies(e0, b0, t0, f0, ship)
                &&& shapes_of(final(self).buildings.buildings@) == hit_by(t0, hit_by(e0, b0))
                &&& labels(final(self).buildings.buildings@) == labels(old(self).buildings.buildings@)
                &&& final(self).explosions.explosions@ == old(self).explosions.explosions@ + resolved_blasts(e0, b0, t0, f0)
                &&& final(self).score == increased_all(old(self).score, bullet_points(e0, b0))
                &&& final(self).ship.life == life
                &&& final(self).state == resolved_state(
                    old(self).state,
                    old(self).life_counter,
                    ship_hits(e0, b0, t0, f0, ship),
                    life,
                    final(self).buildings.all_hit_spec(),
                )
            }),
            final(self).fires == old(self).fires,
            final(self).ship.ship == old(self).ship.ship,
            final(self).ship.nb_ammo == old(self).ship.nb_ammo,
            final(self).life_counter == old(self).life_counter,
    {
        self.resolve_bullets();
        self.resolve_buildings();
        self.resolve_fires();
        self.resolve_ship();
        if self.buildings.all_destroyed() {
            self.state = GameState::GameOver;
        }
    }
}

} // verus!

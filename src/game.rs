//! The game-state machine: which sets are live in each state, the per-frame
//! pipeline while playing, collision resolution and its reactions.
use vstd::prelude::*;
use crate::shape::{Shape, struck, pixels_rounded};
use crate::bullets::BulletsSet;
use crate::enemies::{EnemiesSet, SpawnDraw, MAX_SCREEN, enemies_updated, draw_in_range};
use crate::bullets::bullets_pruned;
use crate::members::risen_all;
use crate::collisions::{
    mark_by_all, hit_by, bullet_points, resolved_enemies, ship_hits, resolved_blasts, resolved_life,
    resolved_state,
};
use crate::score::{increased_all, lemma_score_monotone, max};
use crate::ship::{ShipControls, steered, shot_from};
use crate::buildings::{BuildingsSet, shapes_of, labels};
use crate::fires::FiresSet;
use crate::explosions::{ExplosionsSet, blast};
use crate::score::{Score, increased};
use crate::ship::{Ship, NB_LIFE};

verus! {

#[derive(Clone, Copy, Debug, PartialEq, Eq, Structural)]
pub enum GameState {
    MainMenu,
    Playing,
    Paused,
    GameOver,
}

/// Which two kinds of entity met.
#[derive(Clone, Copy, Debug, PartialEq, Eq, Structural)]
pub enum Collision {
    BulletEnemy,
    ShipEnemy,
    BuildingEnemy,
    FireEnemy,
}

pub struct Game {
    pub state: GameState,
    pub bullets: BulletsSet,
    pub enemies: EnemiesSet,
    pub buildings: BuildingsSet,
    pub fires: FiresSet,
    pub explosions: ExplosionsSet,
    pub ship: Ship,
    pub score: Score,
    /// With a life counter a hit costs the ship one life and the game ends
    /// when none is left; without one the first hit ends it.
    pub life_counter: bool,
}

/// What the player did during a frame of play: the arrow keys held, and
/// whether the fire and pause keys were pressed.
#[derive(Clone, Copy, Debug, PartialEq, Eq, Structural)]
pub struct FrameInput {
    pub controls: ShipControls,
    pub shoot: bool,
    pub pause: bool,
}

/// `new` is `old` after one frame of play with input `input`, spawn draw
/// `d`, `dt` microseconds on a screen `sw` by `sh`: the ship steers, the
/// bullets rise and are pruned, the enemies spawn, fall and are pruned, a
/// bullet is fired if asked, the game pauses if asked, and collisions are
/// resolved on the result.
pub open spec fn frame_outcome(old: Game, new: Game, input: FrameInput, d: SpawnDraw, dt: int, sw: int, sh: int) -> bool {
    let ship = steered(old.ship.ship, input.controls, dt, sw, sh);
    let risen = bullets_pruned(risen_all(old.bullets.bullets@, dt));
    let b0 = if input.shoot { risen.push(shot_from(ship)) } else { risen };
    let e0 = enemies_updated(old.enemies.enemies@, d, dt, sh);
    let t0 = shapes_of(old.buildings.buildings@);
    let f0 = old.fires.fires@;
    let st = if input.pause && old.state == GameState::Playing { GameState::Paused } else { old.state };
    let n = ship_hits(e0, b0, t0, f0, ship);
    let life = resolved_life(old.ship.life as int, old.life_counter, n);
    &&& new.ship.ship == ship
    &&& new.ship.nb_ammo == old.ship.nb_ammo
    &&& new.life_counter == old.life_counter
    &&& new.fires == old.fires
    &&& new.bullets.bullets@ == mark_by_all(b0, e0)
    &&& new.enemies.enemies@ == resolved_enemies(e0, b0, t0, f0, ship)
    &&& shapes_of(new.buildings.buildings@) == hit_by(t0, hit_by(e0, b0))
    &&& labels(new.buildings.buildings@) == labels(old.buildings.buildings@)
    &&& new.explosions.explosions@ == old.explosions.explosions@ + resolved_blasts(e0, b0, t0, f0)
    &&& new.score == increased_all(old.score, bullet_points(e0, b0))
    &&& new.ship.life == life
    &&& new.state == resolved_state(st, old.life_counter, n, life, new.buildings.all_hit_spec())
}

/// Over a frame of play the score never goes down, and the high score ends
/// as the larger of the high score before the frame and the score after it.
pub proof fn lemma_frame_score_grows(old: Game, new: Game, input: FrameInput, d: SpawnDraw, dt: int, sw: int, sh: int)
    requires
        old.wf(),
        frame_outcome(old, new, input, d, dt, sw, sh),
    ensures
        new.score.score >= old.score.score,
        new.score.high_score == max(old.score.high_score as int, new.score.score as int),
{
    let ship = steered(old.ship.ship, input.controls, dt, sw, sh);
    let risen = bullets_pruned(risen_all(old.bullets.bullets@, dt));
    let b0 = if input.shoot { risen.push(shot_from(ship)) } else { risen };
    let e0 = enemies_updated(old.enemies.enemies@, d, dt, sh);
    let vals = bullet_points(e0, b0);
    lemma_score_monotone(old.score, vals);
    assert(vals.take(0) =~= Seq::<u32>::empty());
    assert(vals.take(vals.len() as int) =~= vals);
    assert(increased_all(old.score, vals.take(0)) == old.score);
    assert(increased_all(old.score, vals.take(0)).score <= increased_all(old.score, vals.take(vals.len() as int)).score);
}

/// The ship's lives after `n` hits, none below zero.
pub open spec fn lives_after(life: int, n: int) -> int {
    if life - n > 0 { life - n } else { 0 }
}

impl Game {
    pub open spec fn wf(&self) -> bool {
        &&& self.bullets.wf()
        &&& self.enemies.wf()
        &&& self.buildings.wf()
        &&& self.fires.wf()
        &&& self.ship.wf()
        &&& self.score.wf()
    }

    /// Everything but the score, the explosions, the state and the ship's
    /// lives is as in `other`.
    pub open spec fn same_world(&self, other: &Game) -> bool {
        &&& self.bullets == other.bullets
        &&& self.buildings == other.buildings
        &&& self.fires == other.fires
        &&& self.ship.ship == other.ship.ship
        &&& self.ship.nb_ammo == other.ship.nb_ammo
        &&& self.life_counter == other.life_counter
    }

    /// A game on its main menu, with empty sets and the stored high score.
    pub fn new(screen_width: i64, screen_height: i64, high_score: u32, life_counter: bool) -> (r: Game)
        requires
            0 <= screen_width <= MAX_SCREEN,
            0 <= screen_height <= MAX_SCREEN,
        ensures
            r.state == GameState::MainMenu,
            r.bullets.bullets@.len() == 0,
            r.enemies.enemies@.len() == 0,
            r.buildings.buildings@.len() == 0,
            r.fires.fires@.len() == 0,
            r.explosions.explosions@.len() == 0,
            r.ship.life == NB_LIFE,
            r.score.score == 0,
            r.score.high_score == high_score,
            r.life_counter == life_counter,
            r.wf(),
    {
        Game {
            state: GameState::MainMenu,
            bullets: BulletsSet::new(),
            enemies: EnemiesSet::new(),
            buildings: BuildingsSet::new(),
            fires: FiresSet::new(),
            explosions: ExplosionsSet::new(),
            ship: Ship::new(screen_width, screen_height),
            score: Score::new(high_score),
            life_counter,
        }
    }

    /// Starts a game: every set emptied, the town rebuilt, the ship back in
    /// the middle, the score at zero. The ship starts the game with all its
    /// lives, which only matters with a life counter.
    pub fn play(&mut self, screen_width: i64, screen_height: i64)
        requires
            old(self).wf(),
            0 <= screen_width <= MAX_SCREEN,
            0 <= screen_height <= MAX_SCREEN,
        ensures
            final(self).state == GameState::Playing,
            final(self).bullets.bullets@.len() == 0,
            final(self).enemies.enemies@.len() == 0,
            final(self).fires.fires@.len() == 0,
            final(self).explosions.explosions@.len() == 0,
            shapes_of(final(self).buildings.buildings@) == crate::buildings::town(screen_height as int),
            final(self).ship.ship == (Shape {
                x: (screen_width / 2) as i64,
                y: (screen_height / 2) as i64,
                ..old(self).ship.ship
            }),
            final(self).ship.life == NB_LIFE,
            final(self).ship.nb_ammo == old(self).ship.nb_ammo,
            final(self).score.score == 0,
            final(self).score.high_score == old(self).score.high_score,
            final(self).life_counter == old(self).life_counter,
            final(self).wf(),
    {
        self.enemies.clear();
        self.bullets.clear();
        self.explosions.clear();
        self.buildings.reset(screen_height);
        self.ship.reset(screen_width, screen_height);
        self.ship.life = NB_LIFE;
        self.score.reset();
        self.fires.clear();
        self.state = GameState::Playing;
    }

    /// Escape while playing: the game pauses.
    pub fn pause(&mut self)
        ensures
            final(self).state == (if old(self).state == GameState::Playing { GameState::Paused } else { old(self).state }),
            final(self).same_world(old(self)),
            final(self).enemies == old(self).enemies,
            final(self).score == old(self).score,
            final(self).ship.life == old(self).ship.life,
            final(self).explosions == old(self).explosions,
    {
        if self.state == GameState::Playing {
            self.state = GameState::Paused;
        }
    }

    /// Space while paused: the game goes on.
    pub fn resume(&mut self)
        ensures
            final(self).state == (if old(self).state == GameState::Paused { GameState::Playing } else { old(self).state }),
            final(self).same_world(old(self)),
            final(self).enemies == old(self).enemies,
            final(self).score == old(self).score,
            final(self).ship.life == old(self).ship.life,
            final(self).explosions == old(self).explosions,
    {
        if self.state == GameState::Paused {
            self.state = GameState::Playing;
        }
    }

    /// The restart key once the game is over: back to the main menu.
    pub fn back_to_menu(&mut self)
        ensures
            final(self).state == (if old(self).state == GameState::GameOver { GameState::MainMenu } else { old(self).state }),
            final(self).same_world(old(self)),
            final(self).enemies == old(self).enemies,
            final(self).score == old(self).score,
            final(self).ship.life == old(self).ship.life,
            final(self).explosions == old(self).explosions,
    {
        if self.state == GameState::GameOver {
            self.state = GameState::MainMenu;
        }
    }

    /// The ship was hit: with a life counter it loses a life and the game
    /// ends when none is left; without one the game ends at once.
    pub fn ship_hit(&mut self)
        requires
            old(self).wf(),
        ensures
            final(self).ship.life == (if old(self).life_counter { lives_after(old(self).ship.life as int, 1) } else { old(self).ship.life as int }),
            final(self).state == (if !old(self).life_counter || final(self).ship.life == 0 { GameState::GameOver } else { old(self).state }),
            final(self).same_world(old(self)),
            final(self).enemies == old(self).enemies,
            final(self).score == old(self).score,
            final(self).explosions == old(self).explosions,
            final(self).wf(),
    {
        if self.life_counter {
            if self.ship.lose_life() {
                self.state = GameState::GameOver;
            }
        } else {
            self.state = GameState::GameOver;
        }
    }

    /// The reaction to the enemy at `enemy` meeting something of kind
    /// `collision`; `target` is the index of the building for a building.
    /// A bullet's hit flags the enemy, makes it explode and scores its size
    /// in pixels; the ship's flags the enemy and hits the ship; a building's
    /// makes the enemy explode and flags the building; a fire's makes the
    /// enemy explode.
    pub fn react(&mut self, collision: Collision, enemy: usize, target: usize)
        requires
            old(self).wf(),
            enemy < old(self).enemies.enemies@.len(),
            collision == Collision::BuildingEnemy ==> target < old(self).buildings.buildings@.len(),
        ensures
            final(self).wf(),
            final(self).bullets == old(self).bullets,
            final(self).fires == old(self).fires,
            final(self).ship.ship == old(self).ship.ship,
            final(self).ship.nb_ammo == old(self).ship.nb_ammo,
            final(self).life_counter == old(self).life_counter,
            labels(final(self).buildings.buildings@) == labels(old(self).buildings.buildings@),
            ({
                let e = old(self).enemies.enemies@[enemy as int];
                match collision {
                    Collision::BulletEnemy => {
                        &&& final(self).enemies.enemies@ == old(self).enemies.enemies@.update(enemy as int, struck(e))
                        &&& final(self).explosions.explosions@ == old(self).explosions.explosions@.push(blast(e))
                        &&& final(self).score == increased(old(self).score, pixels_rounded(e.size as int) as u32)
                        &&& final(self).buildings == old(self).buildings
                        &&& final(self).state == old(self).state
                        &&& final(self).ship.life == old(self).ship.life
                    },
                    Collision::ShipEnemy => {
                        &&& final(self).enemies.enemies@ == old(self).enemies.enemies@.update(enemy as int, struck(e))
                        &&& final(self).explosions == old(self).explosions
                        &&& final(self).score == old(self).score
                        &&& final(self).buildings == old(self).buildings
                        &&& final(self).ship.life == (if old(self).life_counter { lives_after(old(self).ship.life as int, 1) } else { old(self).ship.life as int })
                        &&& final(self).state == (if !old(self).life_counter || final(self).ship.life == 0 { GameState::GameOver } else { old(self).state })
                    },
                    Collision::BuildingEnemy => {
                        &&& final(self).enemies == old(self).enemies
                        &&& final(self).explosions.explosions@ == old(self).explosions.explosions@.push(blast(e))
                        &&& final(self).score == old(self).score
                        &&& final(self).buildings.buildings@.len() == old(self).buildings.buildings@.len()
                        &&& shapes_of(final(self).buildings.buildings@) == shapes_of(old(self).buildings.buildings@).update(
                            target as int,
                            struck(old(self).buildings.buildings@[target as int].shape),
                        )
                        &&& final(self).state == old(self).state
                        &&& final(self).ship.life == old(self).ship.life
                    },
                    Collision::FireEnemy => {
                        &&& final(self).enemies == old(self).enemies
                        &&& final(self).explosions.explosions@ == old(self).explosions.explosions@.push(blast(e))
                        &&& final(self).score == old(self).score
                        &&& final(self).buildings == old(self).buildings
                        &&& final(self).state == old(self).state
                        &&& final(self).ship.life == old(self).ship.life
                    },
                }
            }),
    {
        let e = self.enemies.enemies[enemy];
        assert(e.wf());
        match collision {
            Collision::BulletEnemy => {
                self.enemies.enemies.set(enemy, Shape { collided: true, ..e });
                assert(self.enemies.wf()) by {
                    assert forall|i: int| 0 <= i < self.enemies.enemies@.len() implies #[trigger] self.enemies.enemies@[i].wf() by {
                        assert(old(self).enemies.enemies@[i].wf());
                    }
                }
                self.explosions.push(&e);
                self.score.increase(e.rounded_size());
            },
            Collision::ShipEnemy => {
                self.enemies.enemies.set(enemy, Shape { collided: true, ..e });
                assert(self.enemies.wf()) by {
                    assert forall|i: int| 0 <= i < self.enemies.enemies@.len() implies #[trigger] self.enemies.enemies@[i].wf() by {
                        assert(old(self).enemies.enemies@[i].wf());
                    }
                }
                self.ship_hit();
            },
            Collision::BuildingEnemy => {
                self.explosions.push(&e);
                self.buildings.set_collided(target);
                assert(shapes_of(self.buildings.buildings@) =~= shapes_of(old(self).buildings.buildings@).update(
                    target as int,
                    struck(old(self).buildings.buildings@[target as int].shape),
                ));
                assert(labels(self.buildings.buildings@) =~= labels(old(self).buildings.buildings@));
            },
            Collision::FireEnemy => {
                self.explosions.push(&e);
            },
        }
    }

    /// The moving parts of one frame, with the spawn draw given: the ship
    /// steers, the bullets rise and the enemies spawn and fall, and both
    /// sets are pruned.
    pub fn update_with(&mut self, delta_time: u32, controls: ShipControls, draw: SpawnDraw, screen_width: i64, screen_height: i64)
        requires
            old(self).wf(),
            draw.wf(),
            0 <= screen_width <= MAX_SCREEN,
            0 <= screen_height <= MAX_SCREEN,
        ensures
            final(self).wf(),
            final(self).ship.ship == steered(old(self).ship.ship, controls, delta_time as int, screen_width as int, screen_height as int),
            final(self).ship.life == old(self).ship.life,
            final(self).ship.nb_ammo == old(self).ship.nb_ammo,
            final(self).bullets.bullets@ == bullets_pruned(risen_all(old(self).bullets.bullets@, delta_time as int)),
            final(self).enemies.enemies@ == enemies_updated(old(self).enemies.enemies@, draw, delta_time as int, screen_height as int),
            final(self).buildings == old(self).buildings,
            final(self).fires == old(self).fires,
            final(self).explosions == old(self).explosions,
            final(self).score == old(self).score,
            final(self).state == old(self).state,
            final(self).life_counter == old(self).life_counter,
    {
        self.ship.update(delta_time, controls, screen_width, screen_height);
        self.bullets.update(delta_time);
        self.enemies.update_with(draw, delta_time, screen_height);
    }

    /// The ship fires a bullet.
    pub fn shoot(&mut self)
        requires
            old(self).wf(),
        ensures
            final(self).wf(),
            final(self).bullets.bullets@ == old(self).bullets.bullets@.push(shot_from(old(self).ship.ship)),
            final(self).enemies == old(self).enemies,
            final(self).ship == old(self).ship,
            final(self).buildings == old(self).buildings,
            final(self).fires == old(self).fires,
            final(self).explosions == old(self).explosions,
            final(self).score == old(self).score,
            final(self).state == old(self).state,
            final(self).life_counter == old(self).life_counter,
    {
        let bullet = self.ship.shoot();
        self.bullets.push(bullet);
    }

    /// One frame of play with the spawn draw given.
    pub fn playing_frame_with(&mut self, input: FrameInput, draw: SpawnDraw, delta_time: u32, screen_width: i64, screen_height: i64)
        requires
            old(self).wf(),
            draw.wf(),
            0 <= screen_width <= MAX_SCREEN,
            0 <= screen_height <= MAX_SCREEN,
        ensures
            final(self).wf(),
            frame_outcome(*old(self), *final(self), input, draw, delta_time as int, screen_width as int, screen_height as int),
    {
        self.update_with(delta_time, input.controls, draw, screen_width, screen_height);
        if input.shoot {
            self.shoot();
        }
        if input.pause {
            self.pause();
        }
        self.resolve_collisions();
    }

    /// One frame of play: draws the spawn chance (and the new enemy, if
    /// any), then plays the frame with that draw.
    pub fn playing_frame(&mut self, input: FrameInput, delta_time: u32, screen_width: i64, screen_height: i64)
        requires
            old(self).wf(),
            0 <= screen_width <= MAX_SCREEN,
            0 <= screen_height <= MAX_SCREEN,
        ensures
            final(self).wf(),
            exists|d: SpawnDraw|
                draw_in_range(d, screen_width as int) && frame_outcome(
                    *old(self),
                    *final(self),
                    input,
                    d,
                    delta_time as int,
                    screen_width as int,
                    screen_height as int,
                ),
    {
        let draw = EnemiesSet::draw_spawn(screen_width);
        self.playing_frame_with(input, draw, delta_time, screen_width, screen_height);
    }
}

} // verus!

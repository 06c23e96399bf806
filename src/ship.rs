//! The player's ship: moved by the arrow keys within the screen, it shoots
//! bullets upwards and may have a number of lives.
use vstd::prelude::*;
use crate::shape::{Shape, SUBPIXELS, MAX_SIZE};
use crate::enemies::MAX_SCREEN;

verus! {

/// The ship's speed, in pixels per second.
pub const MOVEMENT_SPEED: i64 = 500;
pub const NB_LIFE: i32 = 5;
pub const NB_AMMO: i32 = 100;

/// The ship's size, in sub-pixels.
pub const SHIP_SIZE: i64 = 16_000_000;

/// Height kept free under the ship at the bottom of the screen, in sub-pixels.
pub const GROUND_MARGIN: i64 = 110_000_000;

/// How far above the ship a bullet starts, in sub-pixels.
pub const SHOT_OFFSET: i64 = 24_000_000;

/// A bullet's size, in sub-pixels.
pub const BULLET_SIZE: i64 = 32_000_000;

/// The arrow keys held down during a frame.
#[derive(Clone, Copy, Debug, PartialEq, Eq, Structural)]
pub struct ShipControls {
    pub right: bool,
    pub left: bool,
    pub down: bool,
    pub up: bool,
}

pub struct Ship {
    pub ship: Shape,
    pub life: i32,
    pub nb_ammo: i32,
}

/// `v` brought into `[lo, hi]`; below `lo` gives `lo` first, so that
/// `lo` wins when the range is empty.
pub open spec fn clamp(v: int, lo: int, hi: int) -> int {
    if v < lo { lo } else if v > hi { hi } else { v }
}

/// Where one coordinate goes in `dt` microseconds at `speed` pixels per
/// second, pushed forward by `plus` and back by `minus`, before clamping.
pub open spec fn moved(v: int, speed: int, dt: int, plus: bool, minus: bool) -> int {
    v + (if plus { speed * dt } else { 0 }) - (if minus { speed * dt } else { 0 })
}

/// The ship after one frame of `c` during `dt`, on a screen `sw` by `sh`.
pub open spec fn steered(s: Shape, c: ShipControls, dt: int, sw: int, sh: int) -> Shape {
    Shape {
        x: clamp(moved(s.x as int, s.speed as int, dt, c.right, c.left), s.size as int, sw - s.size) as i64,
        y: clamp(moved(s.y as int, s.speed as int, dt, c.down, c.up), s.size as int, sh - s.size - GROUND_MARGIN) as i64,
        ..s
    }
}

/// The bullet fired from `s`: just above it, twice as fast.
pub open spec fn shot_from(s: Shape) -> Shape {
    Shape { x: s.x, y: (s.y - SHOT_OFFSET) as i64, speed: (s.speed * 2) as i64, size: BULLET_SIZE, collided: false }
}

pub open spec fn within_screen(v: int) -> bool {
    -MAX_SCREEN <= v <= MAX_SCREEN
}

impl Ship {
    pub open spec fn wf(&self) -> bool {
        &&& self.ship.wf()
        &&& self.ship.size <= SHIP_SIZE
        &&& 0 <= self.ship.speed <= MOVEMENT_SPEED
        &&& within_screen(self.ship.x as int)
        &&& within_screen(self.ship.y as int)
        &&& 0 <= self.life <= NB_LIFE
    }

    /// A ship in the middle of a screen `screen_width` by `screen_height`,
    /// with all its lives and ammunition.
    pub fn new(screen_width: i64, screen_height: i64) -> (r: Ship)
        requires
            0 <= screen_width <= MAX_SCREEN,
            0 <= screen_height <= MAX_SCREEN,
        ensures
            r.ship == (Shape {
                size: SHIP_SIZE,
                speed: MOVEMENT_SPEED,
                x: (screen_width / 2) as i64,
                y: (screen_height / 2) as i64,
                collided: false,
            }),
            r.life == NB_LIFE,
            r.nb_ammo == NB_AMMO,
            r.wf(),
    {
        Ship {
            ship: Shape { size: SHIP_SIZE, speed: MOVEMENT_SPEED, x: screen_width / 2, y: screen_height / 2, collided: false },
            life: NB_LIFE,
            nb_ammo: NB_AMMO,
        }
    }

    /// Back to the middle of the screen; nothing else changes.
    pub fn reset(&mut self, screen_width: i64, screen_height: i64)
        requires
            old(self).wf(),
            0 <= screen_width <= MAX_SCREEN,
            0 <= screen_height <= MAX_SCREEN,
        ensures
            final(self).ship == (Shape {
                x: (screen_width / 2) as i64,
                y: (screen_height / 2) as i64,
                ..old(self).ship
            }),
            final(self).life == old(self).life,
            final(self).nb_ammo == old(self).nb_ammo,
            final(self).wf(),
    {
        self.ship.x = screen_width / 2;
        self.ship.y = screen_height / 2;
    }

    /// Moves as the held keys say for `delta_time` microseconds, then keeps
    /// the ship inside the screen, above the ground margin.
    pub fn update(&mut self, delta_time: u32, controls: ShipControls, screen_width: i64, screen_height: i64)
        requires
            old(self).wf(),
            0 <= screen_width <= MAX_SCREEN,
            0 <= screen_height <= MAX_SCREEN,
        ensures
            final(self).ship == steered(old(self).ship, controls, delta_time as int, screen_width as int, screen_height as int),
            final(self).life == old(self).life,
            final(self).nb_ammo == old(self).nb_ammo,
            final(self).wf(),
    {
        assert(0 <= self.ship.speed * delta_time <= 500 * 0xffff_ffff) by (nonlinear_arith)
            requires
                0 <= self.ship.speed <= 500,
                0 <= delta_time <= 0xffff_ffff,
        ;
        let step: i128 = self.ship.speed as i128 * delta_time as i128;
        let size = self.ship.size as i128;
        let mut x = self.ship.x as i128;
        if controls.right {
            x = x + step;
        }
        if controls.left {
            x = x - step;
        }
        let mut y = self.ship.y as i128;
        if controls.down {
            y = y + step;
        }
        if controls.up {
            y = y - step;
        }
        let x_max = screen_width as i128 - size;
        let y_max = screen_height as i128 - size - GROUND_MARGIN as i128;
        let nx: i128 = if x < size { size } else if x > x_max { x_max } else { x };
        let ny: i128 = if y < size { size } else if y > y_max { y_max } else { y };
        self.ship.x = nx as i64;
        self.ship.y = ny as i64;
    }

    /// The bullet the ship fires.
    pub fn shoot(&self) -> (r: Shape)
        requires
            self.wf(),
        ensures
            r == shot_from(self.ship),
            r.wf(),
    {
        Shape { x: self.ship.x, y: self.ship.y - SHOT_OFFSET, speed: self.ship.speed * 2, size: BULLET_SIZE, collided: false }
    }

    pub fn get_shape(&mut self) -> (r: &mut Shape)
        ensures
            *r == old(self).ship,
            final(self).ship == *final(r),
            final(self).life == old(self).life,
            final(self).nb_ammo == old(self).nb_ammo,
    {
        &mut self.ship
    }

    /// Takes one life away (none below zero); tells whether none is left.
    pub fn lose_life(&mut self) -> (out: bool)
        requires
            old(self).wf(),
        ensures
            final(self).life == (if old(self).life > 0 { old(self).life - 1 } else { 0 }),
            final(self).ship == old(self).ship,
            final(self).nb_ammo == old(self).nb_ammo,
            out == (final(self).life == 0),
            final(self).wf(),
    {
        if self.life > 0 {
            self.life = self.life - 1;
        }
        self.life == 0
    }
}

} // verus!

//! Explosions requested by collisions, waiting to be shown.
use vstd::prelude::*;
use crate::shape::{Shape, pixels_rounded};

verus! {

/// Particles in an explosion for each whole pixel of the exploding shape.
pub const PARTICLES_PER_PIXEL: u32 = 4;

/// An explosion to show: where, and how many particles.
#[derive(Clone, Copy, Debug, PartialEq, Eq, Structural)]
pub struct Explosion {
    pub x: i64,
    pub y: i64,
    pub amount: u32,
}

/// The explosion of `s`: at its center, four particles per pixel of size.
pub open spec fn blast(s: Shape) -> Explosion {
    Explosion { x: s.x, y: s.y, amount: (pixels_rounded(s.size as int) * PARTICLES_PER_PIXEL) as u32 }
}

pub struct ExplosionsSet {
    pub explosions: Vec<Explosion>,
}

impl ExplosionsSet {
    pub fn new() -> (r: ExplosionsSet)
        ensures
            r.explosions@ == Seq::<Explosion>::empty(),
    {
        ExplosionsSet { explosions: Vec::new() }
    }

    /// Drops every waiting explosion.
    pub fn clear(&mut self)
        ensures
            final(self).explosions@ == Seq::<Explosion>::empty(),
    {
        self.explosions.clear();
    }

    /// Requests the explosion of `shape`.
    pub fn push(&mut self, shape: &Shape)
        requires
            shape.wf(),
        ensures
            final(self).explosions@ == old(self).explosions@.push(blast(*shape)),
    {
        let amount = shape.rounded_size() * PARTICLES_PER_PIXEL;
        self.explosions.push(Explosion { x: shape.x, y: shape.y, amount });
    }

    /// Hands out the waiting explosions, oldest first, and forgets them.
    pub fn take_pending(&mut self) -> (r: Vec<Explosion>)
        ensures
            r@ == old(self).explosions@,
            final(self).explosions@ == Seq::<Explosion>::empty(),
    {
        let mut r: Vec<Explosion> = Vec::new();
        std::mem::swap(&mut r, &mut self.explosions);
        r
    }
}

} // verus!

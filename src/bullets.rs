//! The bullets fired by the ship: they rise and go once they hit something
//! or leave the top of the screen.
use vstd::prelude::*;
use crate::shape::{Shape, risen, lemma_rise_linear, lemma_same_sign_moves};
use crate::members::{
    rise_by, lemma_move_prune_twice,
    all_wf, risen_all, mark_hits, struck_indices, lemma_filter_idempotent, strike_members,
    rise_members,
};

verus! {

/// A bullet stays while it is unhit and its center is not above `-size / 2`
/// (it goes once `y < -size / 2`).
pub open spec fn bullet_kept(b: Shape) -> bool {
    !b.collided && 2 * b.y >= -b.size
}

pub open spec fn bullet_rule() -> spec_fn(Shape) -> bool {
    |b: Shape| bullet_kept(b)
}

pub open spec fn bullets_pruned(s: Seq<Shape>) -> Seq<Shape> {
    s.filter(bullet_rule())
}

/// Pruning twice keeps the same bullets as pruning once.
pub proof fn lemma_bullets_prune_idempotent(s: Seq<Shape>)
    ensures
        bullets_pruned(bullets_pruned(s)) == bullets_pruned(s),
{
    lemma_filter_idempotent(s, bullet_rule());
}

/// Two frames of `dt1` then `dt2` leave the same bullets in the same places
/// as one frame of `dt1 + dt2`, when no bullet moves down (one moving down
/// could come back below the top edge after leaving it).
pub proof fn lemma_bullets_update_linear(s: Seq<Shape>, dt1: nat, dt2: nat)
    requires
        forall|i: int| 0 <= i < s.len() ==> (#[trigger] s[i]).speed >= 0,
    ensures
        bullets_pruned(risen_all(bullets_pruned(risen_all(s, dt1 as int)), dt2 as int))
            == bullets_pruned(risen_all(s, (dt1 + dt2) as int)),
{
    let f = rise_by(dt1 as int);
    let g = rise_by(dt2 as int);
    let h = rise_by((dt1 + dt2) as int);
    let p = bullet_rule();
    assert forall|i: int| 0 <= i < s.len() implies h(#[trigger] s[i]) == g(f(s[i])) && (p(h(s[i])) ==> p(f(s[i]))) by {
        let x = s[i];
        lemma_rise_linear(x, dt1, dt2);
        lemma_same_sign_moves(x.speed as int, dt1, dt2);
        assert(risen(x, (dt1 + dt2) as int).y <= risen(x, dt1 as int).y);
    }
    lemma_move_prune_twice(s, f, g, h, p);
}

pub struct BulletsSet {
    pub bullets: Vec<Shape>,
}

impl BulletsSet {
    pub open spec fn wf(&self) -> bool {
        all_wf(self.bullets@)
    }

    pub fn new() -> (r: BulletsSet)
        ensures
            r.bullets@ == Seq::<Shape>::empty(),
            r.wf(),
    {
        BulletsSet { bullets: Vec::new() }
    }

    /// Removes every bullet.
    pub fn clear(&mut self)
        ensures
            final(self).bullets@ == Seq::<Shape>::empty(),
            final(self).wf(),
    {
        self.bullets.clear();
    }

    /// Adds a bullet at the end.
    pub fn push(&mut self, shape: Shape)
        requires
            old(self).wf(),
            shape.wf(),
        ensures
            final(self).bullets@ == old(self).bullets@.push(shape),
            final(self).wf(),
    {
        self.bullets.push(shape);
    }

    /// Moves every bullet up by `speed * dt`.
    pub fn advance(&mut self, dt: u32)
        requires
            old(self).wf(),
        ensures
            final(self).bullets@ == risen_all(old(self).bullets@, dt as int),
            final(self).wf(),
    {
        rise_members(&mut self.bullets, dt);
        assert forall|i: int| 0 <= i < self.bullets@.len() implies #[trigger] self.bullets@[i].wf() by {
            assert(old(self).bullets@[i].wf());
        }
    }

    /// Removes the bullets that hit something or left the top of the screen.
    pub fn prune(&mut self)
        requires
            old(self).wf(),
        ensures
            final(self).bullets@ == bullets_pruned(old(self).bullets@),
            final(self).wf(),
    {
        let ghost start = self.bullets@;
        let ghost rule = bullet_rule();
        let mut kept: Vec<Shape> = Vec::new();
        let mut i: usize = 0;
        while i < self.bullets.len()
            invariant
                self.bullets@ == start,
                rule == bullet_rule(),
                all_wf(start),
                0 <= i <= start.len(),
                kept@ == start.take(i as int).filter(rule),
                all_wf(kept@),
            decreases start.len() - i,
        {
            let b = self.bullets[i];
            proof {
                reveal(Seq::filter);
                assert(start.take(i + 1).drop_last() =~= start.take(i as int));
                assert(start.take(i + 1).last() == b);
                assert(rule(b) == bullet_kept(b));
            }
            if !b.collided && 2 * (b.y as i128) >= -(b.size as i128) {
                kept.push(b);
            }
            i += 1;
        }
        assert(start.take(start.len() as int) =~= start);
        self.bullets = kept;
    }

    /// One frame: rise for `delta_time`, then prune.
    pub fn update(&mut self, delta_time: u32)
        requires
            old(self).wf(),
        ensures
            final(self).bullets@ == bullets_pruned(risen_all(old(self).bullets@, delta_time as int)),
            final(self).wf(),
    {
        self.advance(delta_time);
        self.prune();
    }

    /// Flags every bullet whose circle meets the square of `shape` and
    /// returns their indices, in increasing order.
    pub fn collides_with(&mut self, shape: &Shape) -> (found: Vec<usize>)
        requires
            old(self).wf(),
            shape.wf(),
        ensures
            final(self).bullets@ == mark_hits(old(self).bullets@, *shape),
            found@ == struck_indices(old(self).bullets@, *shape),
            final(self).wf(),
    {
        strike_members(&mut self.bullets, shape)
    }
}

} // verus!

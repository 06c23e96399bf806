//! Fires burning where something was destroyed; they do not move.
use vstd::prelude::*;
use crate::shape::Shape;
use crate::members::all_wf;

verus! {

pub struct FiresSet {
    pub fires: Vec<Shape>,
}

impl FiresSet {
    pub open spec fn wf(&self) -> bool {
        all_wf(self.fires@)
    }

    pub fn new() -> (r: FiresSet)
        ensures
            r.fires@ == Seq::<Shape>::empty(),
            r.wf(),
    {
        FiresSet { fires: Vec::new() }
    }

    /// Removes every fire.
    pub fn clear(&mut self)
        ensures
            final(self).fires@ == Seq::<Shape>::empty(),
            final(self).wf(),
    {
        self.fires.clear();
    }

    /// Lights a fire with the position and size of `shape`.
    pub fn push(&mut self, shape: &Shape)
        requires
            old(self).wf(),
            shape.wf(),
        ensures
            final(self).fires@ == old(self).fires@.push(*shape),
            final(self).wf(),
    {
        self.fires.push(*shape);
    }

    pub fn get_list(&mut self) -> (r: &mut Vec<Shape>)
        ensures
            *r == old(self).fires,
            final(self).fires == *final(r),
    {
        &mut self.fires
    }
}

} // verus!

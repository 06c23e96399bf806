//! Operations shared by every set of shapes: moving all members, marking the
//! members that hit a target, and keeping the members that satisfy a rule.
use vstd::prelude::*;
use crate::shape::{Shape, hits, struck, fallen, risen, lemma_fall_linear, lemma_rise_linear};

verus! {

pub open spec fn all_wf(s: Seq<Shape>) -> bool {
    forall|i: int| 0 <= i < s.len() ==> #[trigger] s[i].wf()
}

/// Indices, in increasing order, of the members whose circle meets the
/// square of `target`.
pub open spec fn struck_indices(s: Seq<Shape>, target: Shape) -> Seq<usize>
    decreases s.len(),
{
    if s.len() == 0 {
        Seq::empty()
    } else {
        let sub = struck_indices(s.drop_last(), target);
        if hits(s.last(), target) {
            sub.push((s.len() - 1) as usize)
        } else {
            sub
        }
    }
}

/// `s` with every member that hits `target` flagged as hit.
pub open spec fn mark_hits(s: Seq<Shape>, target: Shape) -> Seq<Shape> {
    s.map_values(|e: Shape| if hits(e, target) { struck(e) } else { e })
}

pub open spec fn fall_by(dt: int) -> spec_fn(Shape) -> Shape {
    |e: Shape| fallen(e, dt)
}

pub open spec fn rise_by(dt: int) -> spec_fn(Shape) -> Shape {
    |e: Shape| risen(e, dt)
}

pub open spec fn fallen_all(s: Seq<Shape>, dt: int) -> Seq<Shape> {
    s.map_values(fall_by(dt))
}

pub open spec fn risen_all(s: Seq<Shape>, dt: int) -> Seq<Shape> {
    s.map_values(rise_by(dt))
}

/// Moving by `f`, keeping by `p`, moving on by `g` and keeping by `p` again
/// gives what moving once by `h` and keeping by `p` gives, when, for every
/// member, `g` after `f` is `h` and what `p` keeps after `h` it also kept
/// after `f`.
pub proof fn lemma_move_prune_twice(
    s: Seq<Shape>,
    f: spec_fn(Shape) -> Shape,
    g: spec_fn(Shape) -> Shape,
    h: spec_fn(Shape) -> Shape,
    p: spec_fn(Shape) -> bool,
)
    requires
        forall|i: int| 0 <= i < s.len() ==> h(#[trigger] s[i]) == g(f(s[i])) && (p(h(s[i])) ==> p(f(s[i]))),
    ensures
        s.map_values(f).filter(p).map_values(g).filter(p) == s.map_values(h).filter(p),
    decreases s.len(),
{
    reveal(Seq::filter);
    if s.len() > 0 {
        let d = s.drop_last();
        let x = s.last();
        assert forall|i: int| 0 <= i < d.len() implies h(#[trigger] d[i]) == g(f(d[i])) && (p(h(d[i])) ==> p(f(d[i]))) by {
            assert(d[i] == s[i]);
        }
        assert(s[s.len() - 1] == x);
        lemma_move_prune_twice(d, f, g, h, p);
        assert(s.map_values(f).drop_last() =~= d.map_values(f));
        assert(s.map_values(h).drop_last() =~= d.map_values(h));
        assert(s.map_values(f).last() == f(x));
        assert(s.map_values(h).last() == h(x));
        let kept = d.map_values(f).filter(p);
        if p(f(x)) {
            assert(s.map_values(f).filter(p) == kept.push(f(x)));
            assert(kept.push(f(x)).map_values(g) =~= kept.map_values(g).push(g(f(x))));
            let moved = kept.map_values(g);
            assert(moved.push(h(x)).drop_last() =~= moved);
        } else {
            assert(s.map_values(f).filter(p) == kept);
        }
    }
}

/// Two lists whose members agree in position and size, member by member.
pub open spec fn same_geometry(a: Seq<Shape>, b: Seq<Shape>) -> bool {
    &&& a.len() == b.len()
    &&& forall|i: int|
        0 <= i < a.len() ==> (#[trigger] a[i]).x == b[i].x && a[i].y == b[i].y && a[i].size == b[i].size
}

pub proof fn lemma_struck_indices_geometry(a: Seq<Shape>, b: Seq<Shape>, target: Shape)
    requires
        same_geometry(a, b),
    ensures
        struck_indices(a, target) == struck_indices(b, target),
    decreases a.len(),
{
    if a.len() > 0 {
        assert(same_geometry(a.drop_last(), b.drop_last()));
        lemma_struck_indices_geometry(a.drop_last(), b.drop_last(), target);
        assert(a.last().x == b.last().x && a.last().y == b.last().y && a.last().size == b.last().size);
    }
}

pub proof fn lemma_struck_indices_bounds(s: Seq<Shape>, target: Shape)
    requires
        s.len() <= usize::MAX,
    ensures
        forall|k: int|
            0 <= k < struck_indices(s, target).len() ==> {
                &&& (#[trigger] struck_indices(s, target)[k]) < s.len()
                &&& hits(s[struck_indices(s, target)[k] as int], target)
            },
    decreases s.len(),
{
    if s.len() > 0 {
        let d = s.drop_last();
        lemma_struck_indices_bounds(d, target);
        let sub = struck_indices(d, target);
        let all = struck_indices(s, target);
        assert forall|k: int| 0 <= k < all.len() implies all[k] < s.len() && hits(s[all[k] as int], target) by {
            if hits(s.last(), target) {
                assert(all == sub.push((s.len() - 1) as usize));
            } else {
                assert(all == sub);
            }
            if k < sub.len() {
                assert(all[k] == sub[k]);
                assert(hits(d[sub[k] as int], target));
                assert(sub[k] < d.len());
                assert(s[sub[k] as int] == d[sub[k] as int]);
            }
        }
    }
}

pub proof fn lemma_filter_idempotent(s: Seq<Shape>, p: spec_fn(Shape) -> bool)
    ensures
        s.filter(p).filter(p) == s.filter(p),
    decreases s.len(),
{
    reveal(Seq::filter);
    if s.len() > 0 {
        lemma_filter_idempotent(s.drop_last(), p);
        let sub = s.drop_last().filter(p);
        if p(s.last()) {
            let t = sub.push(s.last());
            assert(t.drop_last() =~= sub);
            assert(t.last() == s.last());
            assert(t.filter(p) == t.drop_last().filter(p).push(t.last()));
        } else {
            assert(s.filter(p) == sub);
        }
    }
}

/// Moving a whole list down for `dt1` then for `dt2` gives the list moved
/// once for `dt1 + dt2`.
pub proof fn lemma_fall_all_linear(s: Seq<Shape>, dt1: nat, dt2: nat)
    ensures
        fallen_all(fallen_all(s, dt1 as int), dt2 as int) == fallen_all(s, (dt1 + dt2) as int),
{
    assert forall|i: int| 0 <= i < s.len() implies #[trigger] fallen_all(fallen_all(s, dt1 as int), dt2 as int)[i]
        == fallen_all(s, (dt1 + dt2) as int)[i] by {
        lemma_fall_linear(s[i], dt1, dt2);
    }
    assert(fallen_all(fallen_all(s, dt1 as int), dt2 as int) =~= fallen_all(s, (dt1 + dt2) as int));
}

/// Moving a whole list up for `dt1` then for `dt2` gives the list moved
/// once for `dt1 + dt2`.
pub proof fn lemma_rise_all_linear(s: Seq<Shape>, dt1: nat, dt2: nat)
    ensures
        risen_all(risen_all(s, dt1 as int), dt2 as int) == risen_all(s, (dt1 + dt2) as int),
{
    assert forall|i: int| 0 <= i < s.len() implies #[trigger] risen_all(risen_all(s, dt1 as int), dt2 as int)[i]
        == risen_all(s, (dt1 + dt2) as int)[i] by {
        lemma_rise_linear(s[i], dt1, dt2);
    }
    assert(risen_all(risen_all(s, dt1 as int), dt2 as int) =~= risen_all(s, (dt1 + dt2) as int));
}

/// Flags every member that hits `target` and returns the indices of those
/// members, in increasing order.
pub fn strike_members(members: &mut Vec<Shape>, target: &Shape) -> (found: Vec<usize>)
    requires
        all_wf(old(members)@),
        target.wf(),
    ensures
        final(members)@ == mark_hits(old(members)@, *target),
        found@ == struck_indices(old(members)@, *target),
        all_wf(final(members)@),
{
    let ghost start = members@;
    let mut found: Vec<usize> = Vec::new();
    let mut i: usize = 0;
    while i < members.len()
        invariant
            members@.len() == start.len(),
            0 <= i <= start.len(),
            all_wf(start),
            target.wf(),
            forall|j: int| 0 <= j < i ==> #[trigger] members@[j] == mark_hits(start, *target)[j],
            forall|j: int| i <= j < start.len() ==> #[trigger] members@[j] == start[j],
            found@ == struck_indices(start.take(i as int), *target),
        decreases start.len() - i,
    {
        let e = members[i];
        assert(start.take(i + 1).drop_last() =~= start.take(i as int));
        if e.collides_with(target) {
            members.set(i, Shape { collided: true, ..e });
            found.push(i);
        }
        i += 1;
    }
    assert(start.take(start.len() as int) =~= start);
    assert(members@ =~= mark_hits(start, *target));
    assert forall|j: int| 0 <= j < members@.len() implies #[trigger] members@[j].wf() by {
        assert(start[j].wf());
    }
    found
}

/// Moves every member down by `speed * dt`.
pub fn fall_members(members: &mut Vec<Shape>, dt: u32)
    ensures
        final(members)@ == fallen_all(old(members)@, dt as int),
{
    let ghost start = members@;
    let mut i: usize = 0;
    while i < members.len()
        invariant
            members@.len() == start.len(),
            0 <= i <= start.len(),
            forall|j: int| 0 <= j < i ==> #[trigger] members@[j] == fallen(start[j], dt as int),
            forall|j: int| i <= j < start.len() ==> #[trigger] members@[j] == start[j],
        decreases start.len() - i,
    {
        let mut e = members[i];
        e.fall(dt);
        members.set(i, e);
        i += 1;
    }
    assert(members@ =~= fallen_all(start, dt as int));
}

/// Moves every member up by `speed * dt`.
pub fn rise_members(members: &mut Vec<Shape>, dt: u32)
    ensures
        final(members)@ == risen_all(old(members)@, dt as int),
{
    let ghost start = members@;
    let mut i: usize = 0;
    while i < members.len()
        invariant
            members@.len() == start.len(),
            0 <= i <= start.len(),
            forall|j: int| 0 <= j < i ==> #[trigger] members@[j] == risen(start[j], dt as int),
            forall|j: int| i <= j < start.len() ==> #[trigger] members@[j] == start[j],
        decreases start.len() - i,
    {
        let mut e = members[i];
        e.rise(dt);
        members.set(i, e);
        i += 1;
    }
    assert(members@ =~= risen_all(start, dt as int));
}

} // verus!

//! The buildings standing on the ground. A hit building stays in place,
//! burning, until the whole town is destroyed.
use vstd::prelude::*;
use crate::shape::{Shape, SUBPIXELS};
use crate::enemies::MAX_SCREEN;

verus! {

/// Largest side of a building, in pixels.
pub const MAX_BUILDING_SIDE: u32 = 1_099_511;

/// What describes a building before it is placed: its sprite frame in
/// pixels, its abscissa in sub-pixels and its name.
pub struct BuildingData {
    pub width: u32,
    pub height: u32,
    pub x: i64,
    pub name: String,
}

/// A placed building: its shape, and the sprite frame and name it came from.
pub struct Building {
    pub shape: Shape,
    pub width: u32,
    pub height: u32,
    pub name: String,
}

/// The shape of a building `w` by `h` pixels centered at abscissa `x`,
/// standing on the bottom of a screen `screen_height` high.
pub open spec fn building_shape(x: int, w: int, h: int, screen_height: int) -> Shape {
    Shape {
        x: x as i64,
        y: (screen_height - (h / 2) * SUBPIXELS) as i64,
        speed: 0,
        size: ((if h >= w { h } else { w }) * SUBPIXELS) as i64,
        collided: false,
    }
}

pub open spec fn px(v: int) -> int {
    v * SUBPIXELS
}

/// The town that a new game starts with, from left to right.
pub open spec fn town(screen_height: int) -> Seq<Shape> {
    seq![
        building_shape(px(29), 86, 80, screen_height),
        building_shape(px(119), 90, 58, screen_height),
        building_shape(px(214), 90, 58, screen_height),
        building_shape(px(294), 92, 67, screen_height),
        building_shape(px(374), 90, 53, screen_height),
        building_shape(px(474), 89, 58, screen_height),
        building_shape(px(574), 88, 58, screen_height),
        building_shape(px(674), 89, 58, screen_height),
        building_shape(px(774), 89, 104, screen_height),
    ]
}

pub open spec fn town_names() -> Seq<Seq<char>> {
    seq![
        "temple"@,
        "space_port"@,
        "factory"@,
        "labo"@,
        "radio"@,
        "greenhouse"@,
        "greenhouse2"@,
        "greenhouse3"@,
        "rocket"@,
    ]
}

pub open spec fn shapes_of(s: Seq<Building>) -> Seq<Shape> {
    s.map_values(|b: Building| b.shape)
}

/// What each building is, apart from its shape.
pub open spec fn labels(s: Seq<Building>) -> Seq<(Seq<char>, u32, u32)> {
    s.map_values(|b: Building| (b.name@, b.width, b.height))
}

/// Every building has been hit (vacuously true of an empty town).
pub open spec fn all_hit(s: Seq<Building>) -> bool {
    forall|i: int| 0 <= i < s.len() ==> (#[trigger] s[i]).shape.collided
}

impl BuildingData {
    pub open spec fn wf(&self) -> bool {
        &&& 0 < self.width <= MAX_BUILDING_SIDE
        &&& 0 < self.height <= MAX_BUILDING_SIDE
    }

    /// Places the building on the bottom of a screen `screen_height` high;
    /// its size is its larger side.
    pub fn get_building(&mut self, screen_height: i64) -> (r: Building)
        requires
            old(self).wf(),
            0 <= screen_height <= MAX_SCREEN,
        ensures
            *final(self) == *old(self),
            r.shape == building_shape(old(self).x as int, old(self).width as int, old(self).height as int, screen_height as int),
            r.shape.wf(),
            r.width == old(self).width,
            r.height == old(self).height,
            r.name@ == old(self).name@,
    {
        let side: u32 = if self.height >= self.width { self.height } else { self.width };
        Building {
            shape: Shape {
                x: self.x,
                y: screen_height - (self.height / 2) as i64 * SUBPIXELS,
                speed: 0,
                size: side as i64 * SUBPIXELS,
                collided: false,
            },
            width: self.width,
            height: self.height,
            name: self.name.clone(),
        }
    }
}

pub struct BuildingsSet {
    pub buildings: Vec<Building>,
}

impl BuildingsSet {
    pub open spec fn wf(&self) -> bool {
        forall|i: int| 0 <= i < self.buildings@.len() ==> (#[trigger] self.buildings@[i]).shape.wf()
    }

    pub open spec fn all_hit_spec(&self) -> bool {
        all_hit(self.buildings@)
    }

    pub fn new() -> (r: BuildingsSet)
        ensures
            r.buildings@.len() == 0,
            r.wf(),
    {
        BuildingsSet { buildings: Vec::new() }
    }

    fn place(&mut self, width: u32, height: u32, x_px: i64, name: &str, screen_height: i64)
        requires
            old(self).wf(),
            0 < width <= MAX_BUILDING_SIDE,
            0 < height <= MAX_BUILDING_SIDE,
            0 <= x_px <= 1_000_000,
            0 <= screen_height <= MAX_SCREEN,
        ensures
            final(self).buildings@.len() == old(self).buildings@.len() + 1,
            forall|i: int| 0 <= i < old(self).buildings@.len() ==> #[trigger] final(self).buildings@[i] == old(self).buildings@[i],
            final(self).buildings@.last().shape == building_shape(px(x_px as int), width as int, height as int, screen_height as int),
            final(self).buildings@.last().name@ == name@,
            final(self).wf(),
    {
        let mut data = BuildingData { width, height, x: x_px * SUBPIXELS, name: name.to_owned() };
        let b = data.get_building(screen_height);
        self.buildings.push(b);
    }

    /// Replaces the buildings with the starting town.
    pub fn reset(&mut self, screen_height: i64)
        requires
            0 <= screen_height <= MAX_SCREEN,
        ensures
            shapes_of(final(self).buildings@) == town(screen_height as int),
            final(self).buildings@.map_values(|b: Building| b.name@) == town_names(),
            final(self).wf(),
    {
        self.buildings.clear();
        self.place(86, 80, 29, "temple", screen_height);
        self.place(90, 58, 119, "space_port", screen_height);
        self.place(90, 58, 214, "factory", screen_height);
        self.place(92, 67, 294, "labo", screen_height);
        self.place(90, 53, 374, "radio", screen_height);
        self.place(89, 58, 474, "greenhouse", screen_height);
        self.place(88, 58, 574, "greenhouse2", screen_height);
        self.place(89, 58, 674, "greenhouse3", screen_height);
        self.place(89, 104, 774, "rocket", screen_height);
        assert(shapes_of(self.buildings@) =~= town(screen_height as int));
        assert(self.buildings@.map_values(|b: Building| b.name@) =~= town_names());
    }

    /// A copy of the buildings' shapes, in order.
    pub fn get_list(&self) -> (r: Vec<Shape>)
        ensures
            r@ == shapes_of(self.buildings@),
    {
        let mut r: Vec<Shape> = Vec::new();
        let mut i: usize = 0;
        while i < self.buildings.len()
            invariant
                0 <= i <= self.buildings@.len(),
                r@ == shapes_of(self.buildings@.take(i as int)),
            decreases self.buildings@.len() - i,
        {
            r.push(self.buildings[i].shape);
            assert(shapes_of(self.buildings@.take(i + 1)) =~= shapes_of(self.buildings@.take(i as int)).push(
                self.buildings@[i as int].shape,
            ));
            i += 1;
        }
        assert(self.buildings@.take(self.buildings@.len() as int) =~= self.buildings@);
        r
    }

    /// Flags the building at `index` as hit; it stays in the set.
    pub fn set_collided(&mut self, index: usize)
        requires
            old(self).wf(),
            index < old(self).buildings@.len(),
        ensures
            final(self).buildings@.len() == old(self).buildings@.len(),
            forall|i: int|
                0 <= i < old(self).buildings@.len() && i != index ==> #[trigger] final(self).buildings@[i]
                    == old(self).buildings@[i],
            final(self).buildings@[index as int].shape == (Shape { collided: true, ..old(self).buildings@[index as int].shape }),
            final(self).buildings@[index as int].name@ == old(self).buildings@[index as int].name@,
            final(self).buildings@[index as int].width == old(self).buildings@[index as int].width,
            final(self).buildings@[index as int].height == old(self).buildings@[index as int].height,
            final(self).wf(),
    {
        let old_b = &self.buildings[index];
        let b = Building {
            shape: Shape { collided: true, ..old_b.shape },
            width: old_b.width,
            height: old_b.height,
            name: old_b.name.clone(),
        };
        self.buildings.set(index, b);
    }

    /// Whether every building has been hit.
    pub fn all_destroyed(&self) -> (r: bool)
        ensures
            r == all_hit(self.buildings@),
            r == self.all_hit_spec(),
    {
        let mut i: usize = 0;
        while i < self.buildings.len()
            invariant
                0 <= i <= self.buildings@.len(),
                forall|j: int| 0 <= j < i ==> (#[trigger] self.buildings@[j]).shape.collided,
            decreases self.buildings@.len() - i,
        {
            if !self.buildings[i].shape.collided {
                return false;
            }
            i += 1;
        }
        true
    }
}

} // verus!

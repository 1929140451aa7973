//! Plain vector values with bounds-checked lane indexing.
//!
//! A vector value carries its lanes as 32-bit words, exactly as they are
//! stored in a buffer; a float lane is its bit pattern. These values are
//! staging data on the caller's side of the engine: an accessor reads and
//! writes single lanes, and a vector value groups the lanes of one field.

use vstd::prelude::*;

verus! {

/// A two-lane vector value.
#[derive(Clone, Copy, PartialEq, Eq, Structural, Debug)]
pub struct Vec2 {
    /// Lane 0.
    pub x: u32,
    /// Lane 1.
    pub y: u32,
}

impl Vec2 {
    /// The lane at position `i`.
    pub open spec fn spec_index(self, i: int) -> u32 {
        if i == 0 {
            self.x
        } else {
            self.y
        }
    }

    /// Builds the vector from its two lanes.
    pub fn new(x: u32, y: u32) -> (r: Vec2)
        ensures
            r == (Vec2 { x, y }),
    {
        Vec2 { x, y }
    }

    /// The lane at position `i`; the position must be in bounds.
    pub fn index(&self, i: usize) -> (r: u32)
        requires
            i < 2,
        ensures
            r == self.spec_index(i as int),
    {
        if i == 0 {
            self.x
        } else {
            self.y
        }
    }
}

/// A three-lane vector value.
#[derive(Clone, Copy, PartialEq, Eq, Structural, Debug)]
pub struct Vec3 {
    /// Lane 0.
    pub x: u32,
    /// Lane 1.
    pub y: u32,
    /// Lane 2.
    pub z: u32,
}

impl Vec3 {
    /// The lane at position `i`.
    pub open spec fn spec_index(self, i: int) -> u32 {
        if i == 0 {
            self.x
        } else if i == 1 {
            self.y
        } else {
            self.z
        }
    }

    /// Builds the vector from its three lanes.
    pub fn new(x: u32, y: u32, z: u32) -> (r: Vec3)
        ensures
            r == (Vec3 { x, y, z }),
    {
        Vec3 { x, y, z }
    }

    /// The lane at position `i`; the position must be in bounds.
    pub fn index(&self, i: usize) -> (r: u32)
        requires
            i < 3,
        ensures
            r == self.spec_index(i as int),
    {
        if i == 0 {
            self.x
        } else if i == 1 {
            self.y
        } else {
            self.z
        }
    }
}

/// A four-lane vector value.
#[derive(Clone, Copy, PartialEq, Eq, Structural, Debug)]
pub struct Vec4 {
    /// Lane 0.
    pub x: u32,
    /// Lane 1.
    pub y: u32,
    /// Lane 2.
    pub z: u32,
    /// Lane 3.
    pub w: u32,
}

impl Vec4 {
    /// The lane at position `i`.
    pub open spec fn spec_index(self, i: int) -> u32 {
        if i == 0 {
            self.x
        } else if i == 1 {
            self.y
        } else if i == 2 {
            self.z
        } else {
            self.w
        }
    }

    /// Builds the vector from its four lanes.
    pub fn new(x: u32, y: u32, z: u32, w: u32) -> (r: Vec4)
        ensures
            r == (Vec4 { x, y, z, w }),
    {
        Vec4 { x, y, z, w }
    }

    /// The lane at position `i`; the position must be in bounds.
    pub fn index(&self, i: usize) -> (r: u32)
        requires
            i < 4,
        ensures
            r == self.spec_index(i as int),
    {
        if i == 0 {
            self.x
        } else if i == 1 {
            self.y
        } else if i == 2 {
            self.z
        } else {
            self.w
        }
    }
}

} // verus!

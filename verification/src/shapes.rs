//! Rectangles: area, perimeter, containment, and a square constructor.

use vstd::prelude::*;

verus! {

/// An axis-aligned rectangle given by its side lengths.
#[derive(Debug)]
pub struct Rectangle {
    pub width: u32,
    pub height: u32,
}

impl Rectangle {
    /// The area; the caller guarantees it fits in a `u32`.
    pub fn area(&self) -> (r: u32)
        requires
            self.width * self.height <= u32::MAX,
        ensures
            r == self.width * self.height,
    {
        self.width * self.height
    }

    /// The perimeter; the caller guarantees it fits in a `u32`.
    pub fn perimeter(&self) -> (r: u32)
        requires
            self.width * 2 + self.height * 2 <= u32::MAX,
        ensures
            r == self.width * 2 + self.height * 2,
    {
        (self.width * 2) + (self.height * 2)
    }

    /// Whether `other` fits strictly inside `self` in both dimensions.
    pub fn can_hold(&self, other: &Rectangle) -> (r: bool)
        ensures
            r == (self.width > other.width && self.height > other.height),
    {
        self.width > other.width && self.height > other.height
    }

    /// A square with the given side length.
    pub fn square(size: u32) -> (r: Self)
        ensures
            r.width == size,
            r.height == size,
    {
        Self { width: size, height: size }
    }
}

/// The area of a borrowed rectangle.
pub fn area(rectangle: &Rectangle) -> (r: u32)
    requires
        rectangle.width * rectangle.height <= u32::MAX,
    ensures
        r == rectangle.width * rectangle.height,
{
    rectangle.width * rectangle.height
}

} // verus!

//! The rectangle inside the window within which an entity's centre may lie.

use vstd::prelude::*;
use crate::math::clamp;
use crate::vec2::Vec2;

verus! {

/// The extent of the window.
#[derive(Clone, Copy, Debug, PartialEq, Eq, Structural)]
pub struct Window {
    pub width: i32,
    pub height: i32,
}

/// An axis-aligned rectangle, given by its least and greatest coordinates.
#[derive(Clone, Copy, Debug, PartialEq, Eq, Structural)]
pub struct Confinement {
    pub x_min: i32,
    pub x_max: i32,
    pub y_min: i32,
    pub y_max: i32,
}

/// Why a window admits no confinement rectangle for an entity.
#[derive(Clone, Copy, Debug, PartialEq, Eq, Structural)]
pub enum ConfinementError {
    /// The entity's size is negative.
    NegativeSize,
    /// The window is not wider than the entity.
    WindowTooNarrow,
    /// The window is not higher than the entity.
    WindowTooLow,
}

/// The confinement rectangle of an entity of the given size in the given
/// window: the window shrunk by half the size on every side. There is none
/// where the size is negative or the window is not larger than the entity.
pub open spec fn confinement(window: Window, size: i32) -> Result<Confinement, ConfinementError> {
    if size < 0 {
        Err(ConfinementError::NegativeSize)
    } else if window.width <= size {
        Err(ConfinementError::WindowTooNarrow)
    } else if window.height <= size {
        Err(ConfinementError::WindowTooLow)
    } else {
        Ok(
            Confinement {
                x_min: (size / 2) as i32,
                x_max: (window.width - size / 2) as i32,
                y_min: (size / 2) as i32,
                y_max: (window.height - size / 2) as i32,
            },
        )
    }
}

impl Confinement {
    /// Whether the rectangle holds at least one point.
    pub open spec fn is_valid(self) -> bool {
        self.x_min <= self.x_max && self.y_min <= self.y_max
    }

    /// Whether the point lies in the rectangle.
    pub open spec fn contains(self, point: Vec2) -> bool {
        self.x_min <= point.x <= self.x_max && self.y_min <= point.y <= self.y_max
    }

    /// Whether the point lies outside the rectangle along the x axis.
    pub open spec fn misses_x(self, point: Vec2) -> bool {
        point.x < self.x_min || point.x > self.x_max
    }

    /// Whether the point lies outside the rectangle along the y axis.
    pub open spec fn misses_y(self, point: Vec2) -> bool {
        point.y < self.y_min || point.y > self.y_max
    }

    /// The point with each coordinate moved to the nearest one that the
    /// rectangle allows.
    pub open spec fn clamped(self, point: Vec2) -> Vec2 {
        Vec2 {
            x: clamp(point.x as int, self.x_min as int, self.x_max as int) as i32,
            y: clamp(point.y as int, self.y_min as int, self.y_max as int) as i32,
        }
    }

    /// Tells whether the point lies in the rectangle.
    pub fn contains_point(&self, point: &Vec2) -> (b: bool)
        ensures
            b == self.contains(*point),
    {
        self.x_min <= point.x && point.x <= self.x_max && self.y_min <= point.y && point.y
            <= self.y_max
    }

    /// Moves each coordinate of the point to the nearest one that the
    /// rectangle allows.
    pub fn clamp_point(&self, point: Vec2) -> (r: Vec2)
        ensures
            r == self.clamped(point),
    {
        let x: i32 = if point.x < self.x_min {
            self.x_min
        } else if point.x > self.x_max {
            self.x_max
        } else {
            point.x
        };
        let y: i32 = if point.y < self.y_min {
            self.y_min
        } else if point.y > self.y_max {
            self.y_max
        } else {
            point.y
        };
        Vec2 { x, y }
    }
}

/// Computes the confinement rectangle of an entity of the given size, or
/// reports why the window admits none.
pub fn get_confinement(window: &Window, size: i32) -> (r: Result<Confinement, ConfinementError>)
    ensures
        r == confinement(*window, size),
{
    if size < 0 {
        Err(ConfinementError::NegativeSize)
    } else if window.width <= size {
        Err(ConfinementError::WindowTooNarrow)
    } else if window.height <= size {
        Err(ConfinementError::WindowTooLow)
    } else {
        let half: i32 = size / 2;
        Ok(
            Confinement {
                x_min: half,
                x_max: window.width - half,
                y_min: half,
                y_max: window.height - half,
            },
        )
    }
}

/// A confinement rectangle that exists is valid, lies inside the window and
/// holds the window's centre.
pub proof fn lemma_confinement_is_valid(window: Window, size: i32)
    requires
        confinement(window, size) is Ok,
    ensures
        confinement(window, size)->Ok_0.is_valid(),
        0 <= confinement(window, size)->Ok_0.x_min,
        confinement(window, size)->Ok_0.x_max <= window.width,
        0 <= confinement(window, size)->Ok_0.y_min,
        confinement(window, size)->Ok_0.y_max <= window.height,
        confinement(window, size)->Ok_0.contains(
            Vec2 { x: (window.width / 2) as i32, y: (window.height / 2) as i32 },
        ),
{
}

/// A point in a rectangle stays where it is when clamped; so clamping twice
/// is clamping once.
pub proof fn lemma_clamped_is_idempotent(rect: Confinement, point: Vec2)
    requires
        rect.is_valid(),
    ensures
        rect.contains(rect.clamped(point)),
        rect.contains(point) ==> rect.clamped(point) == point,
        rect.clamped(rect.clamped(point)) == rect.clamped(point),
{
}

} // verus!

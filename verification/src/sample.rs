//! Pointer samples and the messages that carry them.

use vstd::prelude::*;
use crate::geometry::Point;

verus! {

/// Full pressure, in the millionths in which pressure is counted.
pub const PRESSURE_FULL: u32 = 1_000_000;

/// Pressure below this is the reading of a device that senses none.
pub const PRESSURE_EPSILON: u32 = 100;

/// One reading of the pointer.
#[derive(Clone, Copy, Debug, PartialEq, Eq, Structural)]
pub struct Sample {
    /// Where the pointer is.
    pub pos: Point,
    /// How hard the pen is pressed, in millionths of full pressure.
    pub pressure: u32,
}

/// What the input path tells the pipeline.
#[derive(Clone, Copy, Debug, PartialEq, Eq, Structural)]
pub enum PathMsg {
    /// The pen went down at a position, with a pressure.
    Start(Point, u32),
    /// The pen moved to a position, with a pressure.
    Move(Point, u32),
    /// The pen was lifted at a position.
    End(Point),
}

/// Pressure above full counts as full.
pub open spec fn clamped(pressure: u32) -> u32 {
    if pressure > PRESSURE_FULL {
        PRESSURE_FULL
    } else {
        pressure
    }
}

/// Brings a pressure into the range from nothing to full.
pub fn clamp_pressure(pressure: u32) -> (p: u32)
    ensures
        p == clamped(pressure),
        p <= PRESSURE_FULL,
{
    if pressure > PRESSURE_FULL {
        PRESSURE_FULL
    } else {
        pressure
    }
}

} // verus!

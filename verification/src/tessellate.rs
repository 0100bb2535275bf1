//! From samples to the edges and quads of a ribbon.

use vstd::prelude::*;
use crate::config::Config;
use crate::geometry::{normal_offset, normal_offset_x, normal_offset_y, Offset, Point, Vertex};
use crate::sample::{clamp_pressure, clamped, Sample, PRESSURE_FULL};

verus! {

/// A colour with its opacity; each part runs from 0 to 255.
#[derive(Clone, Copy, Debug, PartialEq, Eq, Structural)]
pub struct Color {
    pub a: u8,
    pub r: u8,
    pub g: u8,
    pub b: u8,
}

/// The two border vertices of a ribbon at one sample. Both have one colour.
#[derive(Clone, Copy, Debug, PartialEq, Eq, Structural)]
pub struct Edge {
    /// The sample's position plus the offset.
    pub left: Vertex,
    /// The sample's position minus the offset.
    pub right: Vertex,
    pub color: Color,
}

/// One segment of a ribbon: as a triangle strip its vertices are
/// `trailing.left, trailing.right, leading.left, leading.right`.
#[derive(Clone, Copy, Debug, PartialEq, Eq, Structural)]
pub struct Quad {
    /// The edge at the sample the segment starts from.
    pub trailing: Edge,
    /// The edge at the sample the segment ends at.
    pub leading: Edge,
}

/// Half the width of the ribbon under a pressure.
pub open spec fn ribbon_width(config: Config, pressure: u32) -> int {
    if config.width_varies_with_pressure {
        config.base_ribbon_width * clamped(pressure) / (PRESSURE_FULL as int)
    } else {
        config.base_ribbon_width as int
    }
}

/// The opacity of the ink under a pressure.
pub open spec fn ink_alpha(config: Config, pressure: u32) -> int {
    if config.alpha_varies_with_pressure {
        255 * clamped(pressure) / (PRESSURE_FULL as int)
    } else {
        255
    }
}

/// The ink: black, with the opacity that the pressure gives it.
pub open spec fn ink(config: Config, pressure: u32) -> Color {
    Color { a: ink_alpha(config, pressure) as u8, r: 0, g: 0, b: 0 }
}

/// The edge of the ribbon at `sample`, set across the segment `from -> to`.
pub open spec fn ribbon_edge(config: Config, from: Point, to: Point, sample: Sample) -> Edge {
    let w = ribbon_width(config, sample.pressure);
    let ox = normal_offset_x(from, to, w);
    let oy = normal_offset_y(from, to, w);
    Edge {
        left: Vertex { x: (sample.pos.x + ox) as i64, y: (sample.pos.y + oy) as i64 },
        right: Vertex { x: (sample.pos.x - ox) as i64, y: (sample.pos.y - oy) as i64 },
        color: ink(config, sample.pressure),
    }
}

/// The quad of the segment `last -> next`. Its leading edge stands across
/// the segment itself. Its trailing edge stands across the segment before,
/// `prior -> last`, so that it is the leading edge of the quad before; the
/// first quad of a stroke has no segment before it and uses its own.
pub open spec fn segment_quad(
    config: Config,
    prior: Option<Sample>,
    last: Sample,
    next: Sample,
) -> Quad {
    Quad {
        trailing: match prior {
            Some(p) => ribbon_edge(config, p.pos, last.pos, last),
            None => ribbon_edge(config, last.pos, next.pos, last),
        },
        leading: ribbon_edge(config, last.pos, next.pos, next),
    }
}

proof fn lemma_share(base: int, p: int)
    by (nonlinear_arith)
    requires
        0 <= base,
        0 <= p <= 1_000_000,
    ensures
        0 <= base * p / 1_000_000 <= base,
        0 <= base * p <= base * 1_000_000,
{
}

/// Half the width of the ribbon under a pressure.
pub fn width_for(config: &Config, pressure: u32) -> (w: u32)
    ensures
        w as int == ribbon_width(*config, pressure),
        w <= config.base_ribbon_width,
{
    if config.width_varies_with_pressure {
        let p: u32 = clamp_pressure(pressure);
        proof {
            lemma_share(config.base_ribbon_width as int, p as int);
        }
        ((config.base_ribbon_width as u64) * (p as u64) / (PRESSURE_FULL as u64)) as u32
    } else {
        config.base_ribbon_width
    }
}

/// The ink under a pressure.
pub fn ink_for(config: &Config, pressure: u32) -> (color: Color)
    ensures
        color == ink(*config, pressure),
        color.a as int == ink_alpha(*config, pressure),
{
    if config.alpha_varies_with_pressure {
        let p: u32 = clamp_pressure(pressure);
        proof {
            lemma_share(255, p as int);
        }
        let a: u8 = (255u64 * (p as u64) / (PRESSURE_FULL as u64)) as u8;
        Color { a, r: 0, g: 0, b: 0 }
    } else {
        Color { a: 255, r: 0, g: 0, b: 0 }
    }
}

/// The edge of the ribbon at `sample`, set across the segment `from -> to`.
pub fn verts_for(config: &Config, from: Point, to: Point, sample: Sample) -> (edge: Edge)
    ensures
        edge == ribbon_edge(*config, from, to, sample),
{
    let w: u32 = width_for(config, sample.pressure);
    let off: Offset = normal_offset(from, to, w);
    let color: Color = ink_for(config, sample.pressure);
    Edge {
        left: Vertex { x: sample.pos.x as i64 + off.x, y: sample.pos.y as i64 + off.y },
        right: Vertex { x: sample.pos.x as i64 - off.x, y: sample.pos.y as i64 - off.y },
        color,
    }
}

/// The quad of the segment `last -> next`.
pub fn quad_for(config: &Config, prior: Option<Sample>, last: Sample, next: Sample) -> (quad: Quad)
    ensures
        quad == segment_quad(*config, prior, last, next),
{
    let trailing: Edge = match prior {
        Some(p) => verts_for(config, p.pos, last.pos, last),
        None => verts_for(config, last.pos, next.pos, last),
    };
    let leading: Edge = verts_for(config, last.pos, next.pos, next);
    Quad { trailing, leading }
}

} // verus!

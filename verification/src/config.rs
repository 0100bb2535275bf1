//! The options of a stroke pipeline.

use vstd::prelude::*;

verus! {

/// What a pipeline is made with. Widths and lengths are in the device units
/// of the positions it is fed.
#[derive(Clone, Copy, Debug, PartialEq, Eq, Structural)]
pub struct Config {
    /// The ribbon gets narrower as the pen is pressed less.
    pub width_varies_with_pressure: bool,
    /// The ink gets more transparent as the pen is pressed less.
    pub alpha_varies_with_pressure: bool,
    /// The shortest time between two requests for a repaint.
    pub min_redraw_interval_ms: u64,
    /// Half the width of the ribbon at full pressure.
    pub base_ribbon_width: u32,
    /// A move that ends closer than this to the last accepted sample is absorbed.
    pub min_segment_length: u32,
}

impl Config {
    /// The options of a pipeline that was given none.
    pub open spec fn standard() -> Config {
        Config {
            width_varies_with_pressure: true,
            alpha_varies_with_pressure: false,
            min_redraw_interval_ms: 33,
            base_ribbon_width: 6,
            min_segment_length: 4,
        }
    }
}

impl Default for Config {
    fn default() -> (config: Config)
        ensures
            config == Config::standard(),
    {
        Config {
            width_varies_with_pressure: true,
            alpha_varies_with_pressure: false,
            min_redraw_interval_ms: 33,
            base_ribbon_width: 6,
            min_segment_length: 4,
        }
    }
}

} // verus!

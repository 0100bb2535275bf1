//! From the host's pointer events to messages, and when to ask for a repaint.

use vstd::prelude::*;
use crate::config::Config;
use crate::geometry::Point;
use crate::sample::{PathMsg, PRESSURE_EPSILON, PRESSURE_FULL};

verus! {

/// Where a touch is in its life.
#[derive(Clone, Copy, Debug, PartialEq, Eq, Structural)]
pub enum TouchPhase {
    Started,
    Moved,
    Ended,
    Cancelled,
}

/// A button of the mouse.
#[derive(Clone, Copy, Debug, PartialEq, Eq, Structural)]
pub enum MouseButton {
    Left,
    Middle,
    Right,
    Other,
}

/// What the host reports of a touch or a pen.
#[derive(Clone, Copy, Debug, PartialEq, Eq, Structural)]
pub struct PointerEvent {
    pub position: Point,
    /// The pressure in millionths of full pressure; `None` from a device that
    /// senses none.
    pub pressure: Option<u32>,
    pub phase: TouchPhase,
}

/// The pressure of an event: the reported one, or full pressure where the
/// device reports none.
pub open spec fn pressure_of(event: PointerEvent) -> u32 {
    match event.pressure {
        Some(pressure) => pressure,
        None => PRESSURE_FULL,
    }
}

/// The message that an event stands for. An event that starts or continues
/// a touch with a pressure below `PRESSURE_EPSILON` stands for none. The
/// end of a touch always counts, whatever its pressure, and a cancelled
/// touch ends like any other.
pub open spec fn message_of(event: PointerEvent) -> Option<PathMsg> {
    match event.phase {
        TouchPhase::Started => if pressure_of(event) < PRESSURE_EPSILON {
            None
        } else {
            Some(PathMsg::Start(event.position, pressure_of(event)))
        },
        TouchPhase::Moved => if pressure_of(event) < PRESSURE_EPSILON {
            None
        } else {
            Some(PathMsg::Move(event.position, pressure_of(event)))
        },
        TouchPhase::Ended => Some(PathMsg::End(event.position)),
        TouchPhase::Cancelled => Some(PathMsg::End(event.position)),
    }
}

/// Turns an event of a touch or a pen into the message to send, if any.
pub fn touch_message(event: PointerEvent) -> (msg: Option<PathMsg>)
    ensures
        msg == message_of(event),
{
    let pressure: u32 = match event.pressure {
        Some(pressure) => pressure,
        None => PRESSURE_FULL,
    };
    match event.phase {
        TouchPhase::Started => {
            if pressure < PRESSURE_EPSILON {
                None
            } else {
                Some(PathMsg::Start(event.position, pressure))
            }
        },
        TouchPhase::Moved => {
            if pressure < PRESSURE_EPSILON {
                None
            } else {
                Some(PathMsg::Move(event.position, pressure))
            }
        },
        TouchPhase::Ended => Some(PathMsg::End(event.position)),
        TouchPhase::Cancelled => Some(PathMsg::End(event.position)),
    }
}

/// Follows the left button of a mouse, which draws at full pressure while
/// it is held.
#[derive(Clone, Copy, Debug, PartialEq, Eq, Structural)]
pub struct MousePen {
    /// Whether the left button is held.
    pub down: bool,
}

impl MousePen {
    /// A pen that is up.
    pub fn new() -> (pen: MousePen)
        ensures
            !pen.down,
    {
        MousePen { down: false }
    }

    /// A button went down at `pos`. The left one puts the pen down and
    /// starts a stroke; any other changes nothing.
    pub fn press(&mut self, button: MouseButton, pos: Point) -> (msg: Option<PathMsg>)
        ensures
            button == MouseButton::Left ==> final(self).down && msg == Some(
                PathMsg::Start(pos, PRESSURE_FULL),
            ),
            button != MouseButton::Left ==> *final(self) == *old(self) && msg is None,
    {
        match button {
            MouseButton::Left => {
                self.down = true;
                Some(PathMsg::Start(pos, PRESSURE_FULL))
            },
            _ => None,
        }
    }

    /// The mouse moved to `pos`: a move of the stroke while the pen is down.
    pub fn hover(&self, pos: Point) -> (msg: Option<PathMsg>)
        ensures
            msg == if self.down {
                Some(PathMsg::Move(pos, PRESSURE_FULL))
            } else {
                None
            },
    {
        if self.down {
            Some(PathMsg::Move(pos, PRESSURE_FULL))
        } else {
            None
        }
    }

    /// A button came up at `pos`. The left one lifts the pen and ends the
    /// stroke; any other changes nothing.
    pub fn release(&mut self, button: MouseButton, pos: Point) -> (msg: Option<PathMsg>)
        ensures
            button == MouseButton::Left ==> !final(self).down && msg == Some(PathMsg::End(pos)),
            button != MouseButton::Left ==> *final(self) == *old(self) && msg is None,
    {
        match button {
            MouseButton::Left => {
                self.down = false;
                Some(PathMsg::End(pos))
            },
            _ => None,
        }
    }
}

/// Whether to ask the host for a repaint now: only when more than the
/// shortest interval between repaints has passed since the last one.
pub fn redraw_due(config: &Config, last_redraw_ms: u64, now_ms: u64) -> (due: bool)
    ensures
        due == (now_ms - last_redraw_ms > config.min_redraw_interval_ms),
{
    now_ms > last_redraw_ms && now_ms - last_redraw_ms > config.min_redraw_interval_ms
}

} // verus!

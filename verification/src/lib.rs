//! Free-hand ink strokes as triangle-strip ribbons, and the score files they
//! are drawn over.
//!
//! Pointer samples come in as `Start`, `Move` and `End` messages. The
//! tessellator turns each accepted segment into a quad whose width follows
//! the pen pressure, the stroke buffer collects the ribbon of the stroke
//! being drawn, and the pipeline keeps the list of finished meshes together
//! with the batch of quads that is drawn while the stroke is still open.
//!
//! All coordinates are integers in device units chosen by the host (whole
//! pixels, or a fraction of a pixel for finer ribbons). Pressure is counted
//! in millionths of full pressure. The offset of a ribbon's border from its
//! centre line is the exact one rounded towards zero, coordinate by
//! coordinate; `geometry` says how far rounding can take it from the exact.
//!
//! The pipeline is a plain value with one writer: `message` takes it by
//! `&mut`, `draw` by `&`. A host with an input thread and a render thread
//! keeps it behind a lock, or hands each frame's draw list to the renderer.

pub mod archive;
pub mod buffer;
pub mod config;
pub mod geometry;
pub mod input;
pub mod laws;
pub mod mesh;
pub mod mrs;
pub mod pipeline;
pub mod roots;
pub mod sample;
pub mod score;
pub mod settings;
pub mod tessellate;

//! Status-line engine for a desktop bar.
//!
//! A fixed, ordered set of blocks (volume, wifi, ...) each produce a short
//! text fragment and a color on their own schedule.  The engine keeps the
//! latest known state per block, composes the ordered line after every
//! update, and reports a new line only when the rendered output actually
//! changed.  Block failures are absorbed into a per-block fallback segment
//! and never disturb the other blocks.
//!
//! The crate holds the pure logic only: deciding tick deadlines, applying
//! update outcomes, rendering, coalescing, and parsing the text that the
//! volume and wifi blocks read from their external tools.  Running commands,
//! clocks and threads live outside, feeding plain values in.

pub mod engine;
pub mod schedule;
pub mod text;
pub mod volume;
pub mod wifi;

//! Text-mode console driver core: color/attribute encoding, the screen-cell
//! record, a fixed 80x25 character grid accessed through volatile cells, and
//! the cursor/scrolling writer state machine that turns byte streams into
//! cell writes.

pub mod buffer;
pub mod cell;
pub mod color;
pub mod writer;

use vstd::prelude::*;

verus! {

/// Number of character rows on the screen.
pub const BUFFER_HEIGHT: usize = 25;

/// Number of character columns on the screen.
pub const BUFFER_WIDTH: usize = 80;

} // verus!

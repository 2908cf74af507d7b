//! Drive an interactive program through a pseudo-terminal and check its
//! output, either as the raw byte stream or as the rendered VT100 screen.
//!
//! This crate holds the verified core: the transcript of everything the
//! child wrote (with the cursor that `expect` advances), the decisions of
//! the expect and exit-wait loops, control-character encoding, and the
//! read-only view of the rendered screen.

pub mod control;
pub mod error;
pub mod exit;
pub mod pattern;
pub mod screen;
pub mod terminal;
pub mod transcript;

pub use control::{control_byte, line_bytes};
pub use error::{PtyError, Result};
pub use exit::exit_step;
pub use pattern::Pattern;
pub use screen::RenderedScreen;
pub use transcript::{Transcript, expect_verdict, DEFAULT_COLS, DEFAULT_ROWS};

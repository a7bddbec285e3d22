//! Fold-aware line movement for a text editor buffer.
//!
//! The crate models the state a line move touches — the buffer as a sequence
//! of byte lines, the cursor, the closed folds, and the indentation options —
//! and computes a move over that model: resolve the target line from the
//! direction, the repeat count and the folds, relocate the line, re-indent it
//! to the width the host's indent query suggests, and follow with the cursor.
//! A thin host adapter feeds the model from the editor and applies the
//! computed edit back.

pub mod fold;
pub mod indent;
pub mod mover;

pub use fold::FoldRange;
pub use fold::calc_fold;
pub use fold::foldclosed;
pub use fold::foldclosedend;
pub use indent::make_indent;
pub use indent::reindent_line;
pub use mover::Direction;
pub use mover::MoveResult;
pub use mover::cursor_after;
pub use mover::move_line;
pub use mover::parser_missing_message;
pub use mover::relocate;
pub use mover::resolve_target;

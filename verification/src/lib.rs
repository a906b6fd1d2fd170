//! A verified terminal text-input widget core.
//!
//! The central piece is a line-based text buffer with Unicode-aware cursor,
//! selection and yank semantics, together with a per-row highlighter that
//! composites cursor and selection styles into display fragments. Around it
//! stand the small stateful widgets that share its style model: a grid
//! selector and a binary switch.
//!
//! Positions are always (row, column) pairs counted in characters, never in
//! bytes. Every editing operation keeps the buffer invariant: at least one
//! line, cursor row in range, cursor column at most the length of its line.

pub mod cursor;
pub mod edit;
pub mod events;
pub mod gridselector;
pub mod highlight;
pub mod input;
pub mod style;
pub mod switch;
pub mod textarea;
pub mod textutil;
pub mod validation;
pub mod viewport;
pub mod width;

//! A verified core for a clipboard copy/paste command-line tool.
//!
//! The library holds the logic of the tool: image-format negotiation over a
//! prioritized candidate list, the copy/paste transfer rules over a modeled
//! clipboard, and the listener state machine with its two-stage shutdown
//! protocol. The surrounding binary performs the actual operating-system
//! clipboard access, signal registration and stream I/O, and feeds plain
//! values into these functions.

pub mod clipboard;
pub mod formats;
pub mod listener;
pub mod negotiate;
pub mod transfer;

pub use formats::ImageFormat;
pub use negotiate::SelectedImage;

//! Line-oriented console input for small interactive programs.
//!
//! The crate holds the rules of reading one line of text: where a line ends
//! in a source of bytes or characters, which line ending is removed or kept,
//! how a failed read or undecodable bytes are reported, and in which order
//! a prompt is written, flushed and answered. Every function works on plain
//! values, so the same rules serve a terminal, a file or a buffer in memory.

pub mod error;
pub mod line;
pub mod prompt;
pub mod reader;
pub mod text;

pub use error::ReadlnError;
pub use prompt::{Prompt, Step};
pub use reader::{inputln, readln, strip_line_ending, LineBuffer, ReadEvent, ReadStep};

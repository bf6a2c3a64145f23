//! Parsing of CMX3600-style edit decision lists (EDLs): a line-oriented text
//! format that describes a video edit timeline.  The crate consumes a byte
//! buffer and produces a structured, validated document, or an error naming
//! the failing construct; it performs no I/O itself.
//!
//! Two policy choices are deliberate and covered by tests: a body line that
//! looks like a clip but fails a field validation is demoted to a verbatim
//! note rather than failing the document, and a final line with no newline
//! is an error (`UnexpectedEof` for the title line, `UnterminatedLine` for
//! a note) rather than being implicitly terminated.

pub mod ast;
pub mod scan;
pub mod fields;
pub mod timecode;
pub mod parse;
pub mod laws;

//! Joins GPX track logs: the first document supplies the header, the
//! metadata and the tail; every later document contributes only its tracks,
//! which are spliced in just before the first document's closing root tag.

pub mod args;
pub mod bytes;
pub mod event;
pub mod laws;
pub mod merge;
pub mod path;
pub mod scan;
pub mod source;
pub mod xml;

pub use crate::args::{parse_args, Invocation};
pub use crate::event::{EventKind, XmlEvent};
pub use crate::merge::{join_gpx, merge_events, merge_streams, MergeError};
pub use crate::path::{PathTracker, TagMismatch};
pub use crate::scan::{Halt, Mode, Scanner};
pub use crate::source::{scan_source, EventSource, Replay};

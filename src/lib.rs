//! A desktop-activity logger's core: finding the focused window in a window
//! tree snapshot, classifying samples as active or idle, and the protocol that
//! writes samples to an event store through a retry buffer without losing or
//! reordering them; plus the arithmetic of the activity reports.

pub mod date;
pub mod laws;
pub mod palette;
pub mod persist;
pub mod report;
pub mod sample;
pub mod snapshot;

//! Scheduling and ceremony logic of the "minute of silence" desktop app:
//! when the daily 09:00 ceremony and its reminder fire, what the ceremony
//! changes on the system and restores afterwards, and how animated PNG
//! frames are composited.
use vstd::prelude::*;

pub mod clock;
pub mod preset;
pub mod scheduler;
pub mod ceremony;
pub mod apng;
pub mod png_reader;
pub mod platform;
pub mod mpris;
pub mod text;
pub mod timezone;

verus! {
}

//! What holds of the library as a whole: statements that relate several of its functions.

pub mod announcements;
pub mod gating;
pub mod handling;
pub mod pinning;
pub mod polling;
pub mod ring;
pub mod stages;
pub mod waiting;
pub mod wakeup;
pub mod wiring;

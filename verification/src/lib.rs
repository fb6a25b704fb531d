//! A verified Leitner-box spaced-repetition scheduler.
//!
//! Cards live in numbered boxes; each box has a review interval in days.
//! A passed review moves a card up one box, a failed review moves it down
//! according to the scheduler's on-fail policy, and every review assigns a
//! new due date on a day grid shared by all cards of the same box, anchored
//! one day before the scheduler's start date.
//!
//! All timestamps are seconds since the Unix epoch, UTC.

pub mod cards;
pub mod days;
pub mod scheduler;

pub use cards::Card;
pub use cards::Rating;
pub use cards::ReviewLog;
pub use days::SECS_PER_DAY;
pub use days::TS_LIMIT;
pub use scheduler::ConstructionError;
pub use scheduler::LeitnerScheduler;
pub use scheduler::OnFail;
pub use scheduler::ReviewError;

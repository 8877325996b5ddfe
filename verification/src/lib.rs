//! A small window rate limiter.
//!
//! A [`RateLimiter`] grants a fixed number of executions per window of time
//! and refuses further attempts once the budget of the window is spent. The
//! budget comes back either all at once when the window has elapsed
//! ([`RefillPolicy::Full`]) or in proportion to the time that has passed
//! ([`RefillPolicy::Gradual`]).
//!
//! Time is counted in whole nanoseconds and the budget is kept as an exact
//! fraction, so every decision is a function of the limiter's state and of
//! one clock reading, stated by [`Budget::step`].

pub mod budget;
pub mod clock;
pub mod laws;
pub mod limiter;
pub mod policy;
pub mod share;

pub use budget::Budget;
pub use limiter::RateLimiter;
pub use policy::RefillPolicy;

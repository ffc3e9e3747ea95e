//! An in-process rate limiter built on lazily-reanchored ("jumping") windows.
//!
//! A [`JumpingWindow`] tracks how many triggers remain within the current
//! window; the window is reanchored only when it is observed to have expired,
//! never by a timer. [`Mapping`] keeps one window per key in a two-generation
//! concurrent map so that idle keys are evicted in O(1) amortized time, and
//! [`FixedMapping`] / [`DynamicMapping`] bind it behind a simpler call
//! surface.
//!
//! All operations take the current time as an explicit instant (a tick count,
//! e.g. nanoseconds), so the logic is deterministic and the caller chooses the
//! clock.

pub mod dynamic_mapping;
pub mod fixed_mapping;
pub mod jumping_window;
pub mod mapping;

pub use dynamic_mapping::DynamicMapping;
pub use fixed_mapping::FixedMapping;
pub use jumping_window::JumpingWindow;
pub use mapping::Mapping;
pub use mapping::MappingView;

//! A timeline engine for declarative property animation: timed property
//! transitions (actions) are composed into time-addressable sequences by pure
//! combinators, and a per-frame scheduler scrubs a timeline to any target
//! position, forward or backward, by recomputing every affected property from
//! its begin/end values and an exact fractional progress.
//!
//! Time is measured in integer ticks and property values are fixed-point
//! integer lanes, so every scheduling decision and every interpolated value
//! is exact and fully specified. The host owns the objects being animated;
//! this crate only reads and writes them through index-based stores.

pub mod action;
pub mod ease;
pub mod laws;
pub mod lerp;
pub mod motion;
pub mod player;
pub mod sequence;

pub use action::Action;
pub use action::ActionMeta;
pub use action::Interp;
pub use ease::EaseKind;
pub use ease::Progress;
pub use motion::Motion;
pub use player::Object;
pub use player::StageView;
pub use sequence::Sequence;
pub use sequence::SequenceBundle;
pub use sequence::SequenceTime;

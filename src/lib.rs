//! A traffic shaper for sequences of discrete items: added latency, random
//! loss, duplication and corruption, bandwidth throttling and ordering
//! control, driven by an outer poll loop.
//!
//! Time is a `u64` count of nanoseconds on one monotonic timeline, as read
//! from a [`MonotonicClock`]; delays and windows are nanosecond counts too.
//! Probabilities are counts of millionths, up to [`PROBABILITY_ONE`].
//!
//! [`laws`] states what holds of whole runs of the shaper's queue.

mod bandwidth_limiter;
mod engine;
mod item;
pub mod laws;
mod queue;
mod random;
mod settings;
mod time;

pub use bandwidth_limiter::BandwidthLimiter;
pub use engine::{ShapingEngine, Throttle, FALLBACK_TICK};
pub use item::{ChokeItem, TrafficShaperPayload};
pub use queue::{OrderedQueue, Queue, QueueView, UnorderedQueue};
pub use random::{chance, corrupt_bytes, corrupt_bytes_at, PROBABILITY_ONE};
pub use settings::{BandwidthLimit, ChokeSettings, ChokeSettingsOrder, ConfigError, ONE_SECOND};
pub use time::MonotonicClock;

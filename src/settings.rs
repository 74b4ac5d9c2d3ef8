use vstd::prelude::*;
use crate::random::PROBABILITY_ONE;

verus! {

/// Why a configuration was refused.
#[derive(Debug, Clone, Copy, PartialEq, Eq, Structural)]
pub enum ConfigError {
    /// A probability above one (above a million parts per million).
    InvalidProbability,
    /// A bandwidth window of zero length.
    ZeroWindow,
}

/// How the shaper orders the items it lets through.
#[derive(Debug, Clone, Copy, PartialEq, Eq, Structural)]
pub enum ChokeSettingsOrder {
    /// Take items from upstream as fast as they come; delayed items may
    /// overtake one another.
    Unordered,
    /// Take items from upstream as fast as they come, but let them out in the
    /// order they came in: a delayed head holds back everything behind it.
    Ordered,
    /// Take no item from upstream while any item is still held.
    Backpressure,
}

impl Default for ChokeSettingsOrder {
    fn default() -> (r: Self)
        ensures
            r == ChokeSettingsOrder::Ordered,
    {
        ChokeSettingsOrder::Ordered
    }
}

/// The window of the bandwidth limit: one second, in nanoseconds.
pub const ONE_SECOND: u64 = 1_000_000_000;

/// A bandwidth limit: how many bytes may leave per second, and the chance of
/// dropping an incoming item, either always or only once the limit is reached.
/// A limit of zero bytes is no limit.
#[derive(Debug, Clone, Copy, PartialEq, Eq, Structural)]
pub struct BandwidthLimit {
    pub bytes_per_second: usize,
    /// In millionths.
    pub drop_ratio: u32,
    pub only_drop_when_bandwidth_limit_reached: bool,
}

/// A partial shaping configuration: each field left at `None` keeps the value
/// in force. Probabilities are in millionths (see [`PROBABILITY_ONE`]).
pub struct ChokeSettings {
    pub drop_probability: Option<u32>,
    pub corrupt_probability: Option<u32>,
    pub duplicate_probability: Option<u32>,
    /// `Some(None)` switches the limit off.
    pub bandwidth_limit: Option<Option<BandwidthLimit>>,
    pub ordering: Option<ChokeSettingsOrder>,
}

/// A probability that is not above one.
pub open spec fn valid_probability(p: Option<u32>) -> bool {
    p matches Some(v) ==> v <= PROBABILITY_ONE
}

impl ChokeSettings {
    /// Every probability it sets lies within `0..=PROBABILITY_ONE`.
    pub open spec fn valid(&self) -> bool {
        &&& valid_probability(self.drop_probability)
        &&& valid_probability(self.corrupt_probability)
        &&& valid_probability(self.duplicate_probability)
        &&& (self.bandwidth_limit matches Some(Some(l)) ==> l.drop_ratio <= PROBABILITY_ONE)
    }

    pub open spec fn is_empty(&self) -> bool {
        &&& self.drop_probability is None
        &&& self.corrupt_probability is None
        &&& self.duplicate_probability is None
        &&& self.bandwidth_limit is None
        &&& self.ordering is None
    }

    /// Checks the probabilities.
    pub fn validate(&self) -> (r: Result<(), ConfigError>)
        ensures
            r is Ok <==> self.valid(),
            r is Err ==> r == Err::<(), ConfigError>(ConfigError::InvalidProbability),
    {
        let ok_drop = match self.drop_probability {
            Some(p) => p <= PROBABILITY_ONE,
            None => true,
        };
        let ok_corrupt = match self.corrupt_probability {
            Some(p) => p <= PROBABILITY_ONE,
            None => true,
        };
        let ok_duplicate = match self.duplicate_probability {
            Some(p) => p <= PROBABILITY_ONE,
            None => true,
        };
        let ok_ratio = match &self.bandwidth_limit {
            Some(Some(l)) => l.drop_ratio <= PROBABILITY_ONE,
            _ => true,
        };
        if ok_drop && ok_corrupt && ok_duplicate && ok_ratio {
            Ok(())
        } else {
            Err(ConfigError::InvalidProbability)
        }
    }

    /// Limits the bandwidth to `bytes_per_seconds` over a one-second window;
    /// `None` or zero switches the limit off. Incoming items are dropped with
    /// chance `drop_ratio`, only while the limit is reached if
    /// `only_drop_when_bandwidth_limit_reached`.
    pub fn set_bandwidth_limit(
        self,
        bytes_per_seconds: Option<usize>,
        drop_ratio: u32,
        only_drop_when_bandwidth_limit_reached: bool,
    ) -> (r: Self)
        ensures
            r.drop_probability == self.drop_probability,
            r.corrupt_probability == self.corrupt_probability,
            r.duplicate_probability == self.duplicate_probability,
            r.ordering == self.ordering,
            match bytes_per_seconds {
                Some(b) if b > 0 => r.bandwidth_limit == Some(
                    Some(BandwidthLimit { bytes_per_second: b, drop_ratio, only_drop_when_bandwidth_limit_reached }),
                ),
                _ => r.bandwidth_limit matches Some(None),
            },
    {
        let limit = match bytes_per_seconds {
            Some(b) => {
                if b > 0 {
                    Some(BandwidthLimit { bytes_per_second: b, drop_ratio, only_drop_when_bandwidth_limit_reached })
                } else {
                    None
                }
            },
            None => None,
        };
        ChokeSettings { bandwidth_limit: Some(limit), ..self }
    }

    /// Sets the chance, in millionths, that an item is lost.
    pub fn set_drop_probability(self, probability: Option<u32>) -> (r: Self)
        ensures
            r.drop_probability == probability,
            r.corrupt_probability == self.corrupt_probability,
            r.duplicate_probability == self.duplicate_probability,
            r.bandwidth_limit == self.bandwidth_limit,
            r.ordering == self.ordering,
    {
        ChokeSettings { drop_probability: probability, ..self }
    }

    /// Sets the chance, in millionths, that an item is corrupted.
    pub fn set_corrupt_probability(self, probability: Option<u32>) -> (r: Self)
        ensures
            r.drop_probability == self.drop_probability,
            r.corrupt_probability == probability,
            r.duplicate_probability == self.duplicate_probability,
            r.bandwidth_limit == self.bandwidth_limit,
            r.ordering == self.ordering,
    {
        ChokeSettings { corrupt_probability: probability, ..self }
    }

    /// Sets the chance, in millionths, that an item is duplicated.
    pub fn set_duplicate_probability(self, probability: Option<u32>) -> (r: Self)
        ensures
            r.drop_probability == self.drop_probability,
            r.corrupt_probability == self.corrupt_probability,
            r.duplicate_probability == probability,
            r.bandwidth_limit == self.bandwidth_limit,
            r.ordering == self.ordering,
    {
        ChokeSettings { duplicate_probability: probability, ..self }
    }

    /// Sets the ordering policy.
    pub fn set_ordering(self, ordering: Option<ChokeSettingsOrder>) -> (r: Self)
        ensures
            r.drop_probability == self.drop_probability,
            r.corrupt_probability == self.corrupt_probability,
            r.duplicate_probability == self.duplicate_probability,
            r.bandwidth_limit == self.bandwidth_limit,
            r.ordering == ordering,
    {
        ChokeSettings { ordering, ..self }
    }
}

impl Default for ChokeSettings {
    /// Changes nothing.
    fn default() -> (r: Self)
        ensures
            r.is_empty(),
    {
        ChokeSettings {
            drop_probability: None,
            corrupt_probability: None,
            duplicate_probability: None,
            bandwidth_limit: None,
            ordering: None,
        }
    }
}

} // verus!

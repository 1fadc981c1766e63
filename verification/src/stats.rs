//! The counters and gauges every handler keeps, and the snapshot the
//! periodic flush reads and resets.

use vstd::prelude::*;

verus! {

/// One more than the largest 64-bit value; counters wrap at it.
pub open spec fn wrap64(x: int) -> int {
    x % 0x1_0000_0000_0000_0000
}

/// A monotonically increasing event counter; it wraps at the 64-bit
/// boundary and the flush reads and resets it.
#[derive(Debug)]
pub struct Counter(pub u64);

impl Counter {
    /// Adds `value` to the counter, wrapping at the 64-bit boundary.
    pub fn add(&mut self, value: u64)
        ensures
            final(self).0 == wrap64(old(self).0 + value),
    {
        self.0 = self.0.wrapping_add(value);
    }

    /// Returns the current value.
    pub fn load(&self) -> (value: u64)
        ensures
            value == self.0,
    {
        self.0
    }

    /// Returns the value accumulated since the last flush and resets
    /// the counter to zero.
    pub fn get_and_reset(&mut self) -> (value: u64)
        ensures
            value == old(self).0,
            final(self).0 == 0,
    {
        let value = self.0;
        self.0 = 0;
        value
    }
}

impl Default for Counter {
    /// A counter starts at zero.
    fn default() -> (c: Counter)
        ensures
            c.0 == 0,
    {
        Counter(0)
    }
}

/// A gauge holds the most recently set value; the flush reads it
/// without resetting it.
#[derive(Debug)]
pub struct Gauge(pub u64);

impl Gauge {
    /// Replaces the gauge's value.
    pub fn set(&mut self, value: u64)
        ensures
            final(self).0 == value,
    {
        self.0 = value;
    }

    /// Returns the current value.
    pub fn get(&self) -> (value: u64)
        ensures
            value == self.0,
    {
        self.0
    }
}

impl Default for Gauge {
    /// A gauge starts at zero.
    fn default() -> (g: Gauge)
        ensures
            g.0 == 0,
    {
        Gauge(0)
    }
}

/// The fixed set of accumulators a handler reports, plus one optional
/// custom counter and one optional custom gauge, each with the metric
/// name it is flushed under.
#[derive(Debug)]
pub struct StatsAllHandlers {
    pub in_bytes: Counter,
    pub in_packets: Counter,
    pub out_bytes: Counter,
    pub out_packets: Counter,
    pub dropped_bytes: Counter,
    pub dropped_packets: Counter,
    pub packetloss: Counter,
    pub custom_counter: Option<(Counter, String)>,
    pub custom_gauge: Option<(Gauge, String)>,
}

/// What one flush reads: the counter values since the last flush and
/// the gauge's current value.
#[derive(Debug)]
pub struct StatsSnapshot {
    pub in_bytes: u64,
    pub in_packets: u64,
    pub out_bytes: u64,
    pub out_packets: u64,
    pub dropped_bytes: u64,
    pub dropped_packets: u64,
    pub packetloss: u64,
    pub custom_counter: Option<u64>,
    pub custom_gauge: Option<u64>,
}

impl StatsAllHandlers {
    /// True when every counter is zero and no custom field is set.
    pub open spec fn is_fresh(self) -> bool {
        &&& self.in_bytes.0 == 0
        &&& self.in_packets.0 == 0
        &&& self.out_bytes.0 == 0
        &&& self.out_packets.0 == 0
        &&& self.dropped_bytes.0 == 0
        &&& self.dropped_packets.0 == 0
        &&& self.packetloss.0 == 0
        &&& self.custom_counter is None
        &&& self.custom_gauge is None
    }

    /// A statistics set with a custom counter and a custom gauge where
    /// a name is given, every accumulator starting at zero.
    pub fn new_with_custom_fields(custom_counter: Option<&str>, custom_gauge: Option<&str>) -> (s:
        StatsAllHandlers)
        ensures
            s.in_bytes.0 == 0,
            s.in_packets.0 == 0,
            s.out_bytes.0 == 0,
            s.out_packets.0 == 0,
            s.dropped_bytes.0 == 0,
            s.dropped_packets.0 == 0,
            s.packetloss.0 == 0,
            match custom_counter {
                Some(name) => s.custom_counter matches Some(c) && c.0.0 == 0 && c.1@ == name@,
                None => s.custom_counter is None,
            },
            match custom_gauge {
                Some(name) => s.custom_gauge matches Some(g) && g.0.0 == 0 && g.1@ == name@,
                None => s.custom_gauge is None,
            },
    {
        let counter_option: Option<(Counter, String)> = match custom_counter {
            Some(name) => Some((Counter(0), name.to_owned())),
            None => None,
        };
        let gauge_option: Option<(Gauge, String)> = match custom_gauge {
            Some(name) => Some((Gauge(0), name.to_owned())),
            None => None,
        };
        StatsAllHandlers {
            in_bytes: Counter(0),
            in_packets: Counter(0),
            out_bytes: Counter(0),
            out_packets: Counter(0),
            dropped_bytes: Counter(0),
            dropped_packets: Counter(0),
            packetloss: Counter(0),
            custom_counter: counter_option,
            custom_gauge: gauge_option,
        }
    }

    /// Sets the custom gauge; an error when no custom gauge was set up.
    pub fn set_custom_gauge(&mut self, number: u64) -> (result: Result<(), StatsError>)
        ensures
            match old(self).custom_gauge {
                Some(_) => result is Ok && (final(self).custom_gauge matches Some(g) && g.0.0
                    == number && g.1 == old(self).custom_gauge->Some_0.1),
                None => result is Err && *final(self) == *old(self),
            },
            final(self).custom_counter == old(self).custom_counter,
            final(self).in_bytes == old(self).in_bytes,
            final(self).in_packets == old(self).in_packets,
            final(self).out_bytes == old(self).out_bytes,
            final(self).out_packets == old(self).out_packets,
            final(self).dropped_bytes == old(self).dropped_bytes,
            final(self).dropped_packets == old(self).dropped_packets,
            final(self).packetloss == old(self).packetloss,
    {
        match &mut self.custom_gauge {
            Some(v) => {
                v.0.set(number);
                Ok(())
            },
            None => Err(StatsError::CustomFieldMissing),
        }
    }

    /// Adds to the custom counter; an error when no custom counter was
    /// set up.
    pub fn add_custom_counter(&mut self, number: u64) -> (result: Result<(), StatsError>)
        ensures
            match old(self).custom_counter {
                Some(c) => result is Ok && (final(self).custom_counter matches Some(n) && n.0.0
                    == wrap64(c.0.0 + number) && n.1 == c.1),
                None => result is Err && *final(self) == *old(self),
            },
            final(self).custom_gauge == old(self).custom_gauge,
            final(self).in_bytes == old(self).in_bytes,
            final(self).in_packets == old(self).in_packets,
            final(self).out_bytes == old(self).out_bytes,
            final(self).out_packets == old(self).out_packets,
            final(self).dropped_bytes == old(self).dropped_bytes,
            final(self).dropped_packets == old(self).dropped_packets,
            final(self).packetloss == old(self).packetloss,
    {
        match &mut self.custom_counter {
            Some(v) => {
                v.0.add(number);
                Ok(())
            },
            None => Err(StatsError::CustomFieldMissing),
        }
    }

    /// Reads every accumulator for one flush: counters hand out what
    /// they gathered since the last flush and are reset, the gauge
    /// hands out its current value and keeps it.
    pub fn snapshot_and_reset(&mut self) -> (snapshot: StatsSnapshot)
        ensures
            snapshot.in_bytes == old(self).in_bytes.0,
            snapshot.in_packets == old(self).in_packets.0,
            snapshot.out_bytes == old(self).out_bytes.0,
            snapshot.out_packets == old(self).out_packets.0,
            snapshot.dropped_bytes == old(self).dropped_bytes.0,
            snapshot.dropped_packets == old(self).dropped_packets.0,
            snapshot.packetloss == old(self).packetloss.0,
            final(self).in_bytes.0 == 0,
            final(self).in_packets.0 == 0,
            final(self).out_bytes.0 == 0,
            final(self).out_packets.0 == 0,
            final(self).dropped_bytes.0 == 0,
            final(self).dropped_packets.0 == 0,
            final(self).packetloss.0 == 0,
            match old(self).custom_counter {
                Some(c) => snapshot.custom_counter == Some(c.0.0) && (final(self).custom_counter
                    matches Some(n) && n.0.0 == 0 && n.1 == c.1),
                None => snapshot.custom_counter is None && final(self).custom_counter is None,
            },
            match old(self).custom_gauge {
                Some(g) => snapshot.custom_gauge == Some(g.0.0),
                None => snapshot.custom_gauge is None,
            },
            final(self).custom_gauge == old(self).custom_gauge,
    {
        let custom_counter: Option<u64> = match &mut self.custom_counter {
            Some(c) => Some(c.0.get_and_reset()),
            None => None,
        };
        let custom_gauge: Option<u64> = match &self.custom_gauge {
            Some(g) => Some(g.0.get()),
            None => None,
        };
        StatsSnapshot {
            in_bytes: self.in_bytes.get_and_reset(),
            in_packets: self.in_packets.get_and_reset(),
            out_bytes: self.out_bytes.get_and_reset(),
            out_packets: self.out_packets.get_and_reset(),
            dropped_bytes: self.dropped_bytes.get_and_reset(),
            dropped_packets: self.dropped_packets.get_and_reset(),
            packetloss: self.packetloss.get_and_reset(),
            custom_counter,
            custom_gauge,
        }
    }
}

impl Default for StatsAllHandlers {
    /// A statistics set with no custom fields, every accumulator at
    /// zero.
    fn default() -> (s: StatsAllHandlers)
        ensures
            s.is_fresh(),
    {
        StatsAllHandlers::new_with_custom_fields(None, None)
    }
}

/// An error a statistics operation can report.
#[derive(Debug, PartialEq, Eq, Structural, Clone, Copy)]
pub enum StatsError {
    /// The custom field the call addresses was not set up.
    CustomFieldMissing,
}

impl StatsError {
    /// A short description of the error.
    pub fn message(&self) -> &'static str {
        match self {
            StatsError::CustomFieldMissing => "Custom field not set correct",
        }
    }
}

} // verus!

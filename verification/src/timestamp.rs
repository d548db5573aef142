//! Instants of the system clock, as whole seconds since the Unix epoch and
//! a nanosecond part, with the range and the checked arithmetic that std's
//! `SystemTime` has on Unix targets (seconds held in an `i64`).
use vstd::prelude::*;

verus! {

/// An instant of the system clock.
#[derive(Clone, Copy, Debug, PartialEq, Eq, Structural)]
pub struct Timestamp {
    secs: i64,
    nanos: u32,
}

pub const NANOS_PER_SEC: u32 = 1_000_000_000;

impl Timestamp {
    #[verifier::type_invariant]
    spec fn well_formed(self) -> bool {
        self.nanos < NANOS_PER_SEC
    }

    /// Whole seconds since the epoch (rounded down).
    pub closed spec fn whole_secs(self) -> int {
        self.secs as int
    }

    /// The whole seconds of an instant fit in an `i64`.
    pub proof fn lemma_whole_secs_range(t: Timestamp)
        ensures
            i64::MIN <= t.whole_secs() <= i64::MAX,
    {
    }

    /// Nanoseconds since the epoch; negative before it.
    pub closed spec fn since_epoch(self) -> int {
        self.secs * 1_000_000_000 + self.nanos
    }

    /// The Unix epoch.
    pub fn unix_epoch() -> (t: Timestamp)
        ensures
            t.since_epoch() == 0,
            t.whole_secs() == 0,
    {
        Timestamp { secs: 0, nanos: 0 }
    }

    /// The instant `secs` seconds and `nanos` nanoseconds after the epoch;
    /// nothing when `nanos` is not below one second.
    pub fn from_parts(secs: i64, nanos: u32) -> (r: Option<Timestamp>)
        ensures
            r is Some <==> nanos < NANOS_PER_SEC,
            r matches Some(t) ==> t.whole_secs() == secs && t.since_epoch() == secs
                * 1_000_000_000 + nanos,
    {
        if nanos < NANOS_PER_SEC {
            Some(Timestamp { secs, nanos })
        } else {
            None
        }
    }

    /// The instant that lies `secs` seconds and `nanos` nanoseconds after
    /// the epoch, or before it when `before_epoch`; nothing when `nanos` is
    /// not below one second or the instant is not representable.
    pub fn from_epoch_offset(before_epoch: bool, secs: u64, nanos: u32) -> (r: Option<Timestamp>)
        ensures
            ({
                let offset = secs * 1_000_000_000 + nanos;
                let since = if before_epoch {
                    -offset
                } else {
                    offset
                };
                &&& r is Some <==> nanos < NANOS_PER_SEC && i64::MIN * 1_000_000_000 <= since
                    < (i64::MAX + 1) * 1_000_000_000
                &&& r matches Some(t) ==> t.since_epoch() == since
            }),
    {
        if nanos >= NANOS_PER_SEC {
            return None;
        }
        if !before_epoch {
            if secs <= i64::MAX as u64 {
                Some(Timestamp { secs: secs as i64, nanos })
            } else {
                None
            }
        } else if nanos == 0 {
            if secs <= i64::MAX as u64 + 1 {
                let s: i128 = 0 - secs as i128;
                Some(Timestamp { secs: s as i64, nanos: 0 })
            } else {
                None
            }
        } else {
            if secs <= i64::MAX as u64 {
                let s: i64 = 0 - secs as i64 - 1;
                Some(Timestamp { secs: s, nanos: NANOS_PER_SEC - nanos })
            } else {
                None
            }
        }
    }

    /// Whole seconds since the epoch (rounded down).
    pub fn secs(&self) -> (r: i64)
        ensures
            r == self.whole_secs(),
    {
        self.secs
    }

    /// The nanoseconds past the whole second.
    pub fn subsec_nanos(&self) -> (r: u32)
        ensures
            r == self.since_epoch() - self.whole_secs() * 1_000_000_000,
            r < NANOS_PER_SEC,
    {
        proof {
            use_type_invariant(self);
        }
        self.nanos
    }

    /// Whether `self` comes strictly before `other`.
    pub fn before(&self, other: &Timestamp) -> (r: bool)
        ensures
            r == (self.since_epoch() < other.since_epoch()),
    {
        proof {
            use_type_invariant(self);
            use_type_invariant(other);
        }
        self.secs < other.secs || (self.secs == other.secs && self.nanos < other.nanos)
    }

    /// `self + secs` seconds, when it is representable.
    pub fn checked_add_secs(&self, secs: u64) -> (r: Option<Timestamp>)
        ensures
            r is Some <==> self.whole_secs() + secs <= i64::MAX,
            r matches Some(t) ==> t.whole_secs() == self.whole_secs() + secs && t.since_epoch()
                == self.since_epoch() + secs * 1_000_000_000,
    {
        proof {
            use_type_invariant(self);
        }
        let sum: i128 = self.secs as i128 + secs as i128;
        if sum <= i64::MAX as i128 {
            Some(Timestamp { secs: sum as i64, nanos: self.nanos })
        } else {
            None
        }
    }

    /// `self - secs` seconds, when it is representable.
    pub fn checked_sub_secs(&self, secs: u64) -> (r: Option<Timestamp>)
        ensures
            r is Some <==> self.whole_secs() - secs >= i64::MIN,
            r matches Some(t) ==> t.whole_secs() == self.whole_secs() - secs && t.since_epoch()
                == self.since_epoch() - secs * 1_000_000_000,
    {
        proof {
            use_type_invariant(self);
        }
        let diff: i128 = self.secs as i128 - secs as i128;
        if diff >= i64::MIN as i128 {
            Some(Timestamp { secs: diff as i64, nanos: self.nanos })
        } else {
            None
        }
    }

    /// `self + secs` seconds; the sum must be representable.
    pub fn add_secs(&self, secs: u64) -> (t: Timestamp)
        requires
            self.whole_secs() + secs <= i64::MAX,
        ensures
            t.whole_secs() == self.whole_secs() + secs,
            t.since_epoch() == self.since_epoch() + secs * 1_000_000_000,
    {
        match self.checked_add_secs(secs) {
            Some(t) => t,
            None => {
                assert(false);
                *self
            },
        }
    }

    /// The instant `secs` whole seconds after the epoch, when it is
    /// representable.
    pub fn from_unix_secs(secs: u64) -> (r: Option<Timestamp>)
        ensures
            r is Some <==> secs <= i64::MAX,
            r matches Some(t) ==> t.whole_secs() == secs && t.since_epoch() == secs
                * 1_000_000_000,
    {
        Self::unix_epoch().checked_add_secs(secs)
    }
}

} // verus!

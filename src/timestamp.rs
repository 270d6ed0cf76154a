use vstd::prelude::*;

verus! {

/// A point in time, as signed nanoseconds from the Unix epoch.
///
/// It is the fingerprint of a file-backed resource: the modification time
/// seen when the resource was last read.
#[derive(Clone, Copy, Debug, PartialEq, Eq, Structural)]
pub struct Timestamp {
    pub nanos: i128,
}

pub const NANOS_PER_SEC: i128 = 1_000_000_000;

impl Timestamp {
    pub open spec fn spec_unix_epoch() -> Timestamp {
        Timestamp { nanos: 0 }
    }

    /// The Unix epoch, which stands in for a modification time that could not
    /// be read.
    #[verifier::when_used_as_spec(spec_unix_epoch)]
    pub fn unix_epoch() -> (r: Timestamp)
        ensures
            r == Self::spec_unix_epoch(),
    {
        Timestamp { nanos: 0 }
    }

    /// The instant `secs` seconds and `subsec_nanos` nanoseconds after the
    /// epoch, or before it where `after_epoch` is false.
    pub fn from_unix_offset(after_epoch: bool, secs: u64, subsec_nanos: u32) -> (r: Timestamp)
        ensures
            after_epoch ==> r.nanos == secs * NANOS_PER_SEC + subsec_nanos,
            !after_epoch ==> r.nanos == -(secs * NANOS_PER_SEC + subsec_nanos),
    {
        assert(0 <= secs * NANOS_PER_SEC <= 0xffff_ffff_ffff_ffff * NANOS_PER_SEC) by (nonlinear_arith)
            requires
                0 <= secs <= 0xffff_ffff_ffff_ffff,
        ;
        let offset: i128 = secs as i128 * NANOS_PER_SEC + subsec_nanos as i128;
        if after_epoch {
            Timestamp { nanos: offset }
        } else {
            Timestamp { nanos: -offset }
        }
    }

    /// Whether this instant comes strictly after `other`.
    pub fn is_after(&self, other: &Timestamp) -> (r: bool)
        ensures
            r == (self.nanos > other.nanos),
    {
        self.nanos > other.nanos
    }
}

/// The fingerprint recorded for a read: the modification time that came with
/// it, or the epoch where there was none.
pub open spec fn fingerprint_from(modified: Option<Timestamp>) -> Timestamp {
    match modified {
        Some(t) => t,
        None => Timestamp::spec_unix_epoch(),
    }
}

} // verus!

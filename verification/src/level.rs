//! Fixed-point quantities: levels and gains in decibels, confidences, and
//! times expressed as a sample position at a sample rate.

use vstd::prelude::*;

verus! {

/// Number of fixed-point steps in one decibel.
pub const NANO_PER_DB: i64 = 1_000_000_000;

/// A level or a gain in decibels, held as a whole number of nano-decibels
/// (one billionth of a decibel).
#[derive(Clone, Copy, Debug, PartialEq, Eq, Structural)]
pub struct Db {
    pub nano: i64,
}

/// A confidence value in millionths (1_000_000 stands for 1.0).
#[derive(Clone, Copy, Debug, PartialEq, Eq, Structural)]
pub struct Confidence {
    pub ppm: i32,
}

/// A point in time, `sample / sample_rate` seconds from the start.
#[derive(Clone, Copy, Debug, PartialEq, Eq, Structural)]
pub struct SampleTime {
    pub sample: usize,
    pub sample_rate: u32,
}

/// `db` whole decibels in nano-decibels.
pub open spec fn whole_db(db: int) -> int {
    db * NANO_PER_DB
}

/// The difference `a - b` of two levels, clamped to the representable range.
pub open spec fn db_difference(a: Db, b: Db) -> Db {
    let d = a.nano - b.nano;
    Db {
        nano: if d > i64::MAX {
            i64::MAX
        } else if d < i64::MIN {
            i64::MIN
        } else {
            d as i64
        },
    }
}

impl Db {
    /// `self - other`, saturating at the ends of the representable range.
    pub fn minus(self, other: Db) -> (r: Db)
        ensures
            r == db_difference(self, other),
    {
        match self.nano.checked_sub(other.nano) {
            Some(d) => Db { nano: d },
            None => {
                if other.nano < 0 {
                    Db { nano: i64::MAX }
                } else {
                    Db { nano: i64::MIN }
                }
            },
        }
    }
}

impl Confidence {
    /// Full confidence (1.0).
    pub fn full() -> (r: Confidence)
        ensures
            r.ppm == 1_000_000,
    {
        Confidence { ppm: 1_000_000 }
    }
}

impl SampleTime {
    /// The start of a recording (zero seconds).
    pub fn zero() -> (r: SampleTime)
        ensures
            r.sample == 0,
            r.sample_rate == 1,
    {
        SampleTime { sample: 0, sample_rate: 1 }
    }
}

} // verus!

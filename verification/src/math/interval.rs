//! Closed numeric intervals, with infinite endpoints.

use vstd::prelude::*;

verus! {

use crate::fx::{Fx, BOXB};

/// A scalar extended with the two infinities, so that the empty interval
/// and the universal interval have endpoints.
#[derive(Clone, Copy, Debug, PartialEq, Eq, Structural)]
pub enum ExtFx {
    NegInf,
    Fin(Fx),
    PosInf,
}

/// Order on extended scalars.
pub open spec fn ext_le(a: ExtFx, b: ExtFx) -> bool {
    match (a, b) {
        (ExtFx::NegInf, _) => true,
        (_, ExtFx::PosInf) => true,
        (ExtFx::Fin(x), ExtFx::Fin(y)) => x.0 <= y.0,
        (ExtFx::PosInf, _) => false,
        (_, ExtFx::NegInf) => false,
    }
}

pub open spec fn ext_lt(a: ExtFx, b: ExtFx) -> bool {
    ext_le(a, b) && a != b
}

/// The smaller of two extended scalars.
pub open spec fn ext_min(a: ExtFx, b: ExtFx) -> ExtFx {
    if ext_le(a, b) {
        a
    } else {
        b
    }
}

/// The larger of two extended scalars.
pub open spec fn ext_max(a: ExtFx, b: ExtFx) -> ExtFx {
    if ext_le(a, b) {
        b
    } else {
        a
    }
}

impl ExtFx {
    pub fn fin(x: Fx) -> (r: ExtFx)
        ensures
            r == ExtFx::Fin(x),
    {
        ExtFx::Fin(x)
    }

    pub fn le(self, o: ExtFx) -> (r: bool)
        ensures
            r == ext_le(self, o),
    {
        match (self, o) {
            (ExtFx::NegInf, _) => true,
            (_, ExtFx::PosInf) => true,
            (ExtFx::Fin(x), ExtFx::Fin(y)) => x.0 <= y.0,
            _ => false,
        }
    }

    pub fn lt(self, o: ExtFx) -> (r: bool)
        ensures
            r == ext_lt(self, o),
    {
        match (self, o) {
            (ExtFx::NegInf, ExtFx::NegInf) => false,
            (ExtFx::PosInf, ExtFx::PosInf) => false,
            (ExtFx::NegInf, _) => true,
            (_, ExtFx::PosInf) => true,
            (ExtFx::Fin(x), ExtFx::Fin(y)) => x.0 < y.0,
            _ => false,
        }
    }

    pub fn min(self, o: ExtFx) -> (r: ExtFx)
        ensures
            r == ext_min(self, o),
    {
        if self.le(o) {
            self
        } else {
            o
        }
    }

    pub fn max(self, o: ExtFx) -> (r: ExtFx)
        ensures
            r == ext_max(self, o),
    {
        if self.le(o) {
            o
        } else {
            self
        }
    }
}

/// A closed interval of scalars; empty when `min` exceeds `max`.
#[derive(Clone, Copy, Debug, PartialEq, Eq, Structural)]
pub struct Interval {
    pub min: ExtFx,
    pub max: ExtFx,
}

/// Both finite endpoints lie within `m` in magnitude.
pub open spec fn interval_endpoints_in(i: Interval, m: int) -> bool {
    &&& (i.spec_min() matches ExtFx::Fin(x) ==> -m <= x.0 <= m)
    &&& (i.spec_max() matches ExtFx::Fin(x) ==> -m <= x.0 <= m)
}

impl Interval {
    pub open spec fn spec_min(self) -> ExtFx {
        self.min
    }

    pub open spec fn spec_max(self) -> ExtFx {
        self.max
    }

    /// The interval holds `x` (endpoints included).
    pub open spec fn spec_contains(self, x: int) -> bool {
        ext_le(self.spec_min(), ExtFx::Fin(Fx(x as i128))) && ext_le(
            ExtFx::Fin(Fx(x as i128)),
            self.spec_max(),
        )
    }

    /// The interval holds `x` strictly inside both endpoints.
    pub open spec fn spec_surrounds(self, x: int) -> bool {
        ext_lt(self.spec_min(), ExtFx::Fin(Fx(x as i128))) && ext_lt(
            ExtFx::Fin(Fx(x as i128)),
            self.spec_max(),
        )
    }

    pub fn new(min: ExtFx, max: ExtFx) -> (r: Interval)
        ensures
            r.spec_min() == min,
            r.spec_max() == max,
    {
        Interval { min, max }
    }

    pub fn from_fx(min: Fx, max: Fx) -> (r: Interval)
        ensures
            r.spec_min() == ExtFx::Fin(min),
            r.spec_max() == ExtFx::Fin(max),
    {
        Interval { min: ExtFx::Fin(min), max: ExtFx::Fin(max) }
    }

    /// The empty interval: its lower end lies above its upper end.
    pub fn empty() -> (r: Interval)
        ensures
            r.spec_min() == ExtFx::PosInf,
            r.spec_max() == ExtFx::NegInf,
    {
        Interval { min: ExtFx::PosInf, max: ExtFx::NegInf }
    }

    /// The interval of all scalars.
    pub fn universe() -> (r: Interval)
        ensures
            r.spec_min() == ExtFx::NegInf,
            r.spec_max() == ExtFx::PosInf,
    {
        Interval { min: ExtFx::NegInf, max: ExtFx::PosInf }
    }

    pub fn min(&self) -> (r: ExtFx)
        ensures
            r == self.spec_min(),
    {
        self.min
    }

    pub fn max(&self) -> (r: ExtFx)
        ensures
            r == self.spec_max(),
    {
        self.max
    }

    pub fn is_empty(&self) -> (r: bool)
        ensures
            r == !ext_le(self.spec_min(), self.spec_max()),
    {
        !self.min.le(self.max)
    }

    /// The smallest interval holding both inputs.
    pub fn merge(a: &Interval, b: &Interval) -> (r: Interval)
        ensures
            r.spec_min() == ext_min(a.spec_min(), b.spec_min()),
            r.spec_max() == ext_max(a.spec_max(), b.spec_max()),
    {
        Interval { min: a.min.min(b.min), max: a.max.max(b.max) }
    }

    /// Widen so that `x` is held.
    pub fn widen(&mut self, x: Fx)
        ensures
            final(self).spec_min() == ext_min(old(self).spec_min(), ExtFx::Fin(x)),
            final(self).spec_max() == ext_max(old(self).spec_max(), ExtFx::Fin(x)),
    {
        self.min = self.min.min(ExtFx::Fin(x));
        self.max = self.max.max(ExtFx::Fin(x));
    }

    pub fn contains(&self, x: Fx) -> (r: bool)
        ensures
            r == self.spec_contains(x.0 as int),
    {
        self.min.le(ExtFx::Fin(x)) && ExtFx::Fin(x).le(self.max)
    }

    pub fn surrounds(&self, x: Fx) -> (r: bool)
        ensures
            r == self.spec_surrounds(x.0 as int),
    {
        self.min.lt(ExtFx::Fin(x)) && ExtFx::Fin(x).lt(self.max)
    }

    /// The length of the interval; an infinity when an endpoint is one, and
    /// negative infinity for the empty interval written as `[+inf, -inf]`.
    pub fn size(&self) -> (r: ExtFx)
        requires
            interval_endpoints_in(*self, BOXB as int),
        ensures
            r == spec_size(*self),
    {
        match (self.max, self.min) {
            (ExtFx::Fin(hi), ExtFx::Fin(lo)) => ExtFx::Fin(hi.sub(lo)),
            (ExtFx::NegInf, _) => ExtFx::NegInf,
            (_, ExtFx::PosInf) => ExtFx::NegInf,
            _ => ExtFx::PosInf,
        }
    }

    /// Widen each end by half of `delta`, rounded down: an odd `delta`
    /// widens by one representation step less than itself.
    pub fn expand(self, delta: Fx) -> (r: Interval)
        requires
            0 <= delta.0 <= BOXB,
            interval_endpoints_in(self, BOXB as int),
        ensures
            r == spec_expand(self, delta.0 as int),
    {
        let padding = Fx(delta.0.checked_div(2).unwrap());
        let min = match self.min {
            ExtFx::Fin(lo) => ExtFx::Fin(lo.sub(padding)),
            e => e,
        };
        let max = match self.max {
            ExtFx::Fin(hi) => ExtFx::Fin(hi.add(padding)),
            e => e,
        };
        Interval { min, max }
    }

    /// Pad to at least `delta` across, leaving wider intervals alone; the
    /// halves round down, so an odd `delta` grows the width by one step
    /// less than itself.
    pub fn expand_if_smaller_than(self, delta: Fx) -> (r: Interval)
        requires
            0 <= delta.0 <= BOXB,
            interval_endpoints_in(self, BOXB as int),
        ensures
            r == spec_pad(self, delta.0 as int),
    {
        let s = self.size();
        if s.lt(ExtFx::Fin(delta)) {
            self.expand(delta)
        } else {
            self
        }
    }

    /// Displace both ends.
    pub fn shift(self, displacement: Fx) -> (r: Interval)
        requires
            -BOXB <= displacement.0 <= BOXB,
            interval_endpoints_in(self, BOXB as int),
        ensures
            r == spec_shift(self, displacement.0 as int),
    {
        let min = match self.min {
            ExtFx::Fin(lo) => ExtFx::Fin(lo.add(displacement)),
            e => e,
        };
        let max = match self.max {
            ExtFx::Fin(hi) => ExtFx::Fin(hi.add(displacement)),
            e => e,
        };
        Interval { min, max }
    }
}

/// The size of an interval, on extended scalars.
pub open spec fn spec_size(i: Interval) -> ExtFx {
    match (i.spec_max(), i.spec_min()) {
        (ExtFx::Fin(hi), ExtFx::Fin(lo)) => ExtFx::Fin(Fx((hi.0 - lo.0) as i128)),
        (ExtFx::NegInf, _) => ExtFx::NegInf,
        (_, ExtFx::PosInf) => ExtFx::NegInf,
        _ => ExtFx::PosInf,
    }
}

/// An interval widened by half of `delta` at each finite end.
pub open spec fn spec_expand(i: Interval, delta: int) -> Interval {
    Interval {
        min: match i.spec_min() {
            ExtFx::Fin(lo) => ExtFx::Fin(Fx((lo.0 - delta / 2) as i128)),
            e => e,
        },
        max: match i.spec_max() {
            ExtFx::Fin(hi) => ExtFx::Fin(Fx((hi.0 + delta / 2) as i128)),
            e => e,
        },
    }
}

/// An interval padded to at least `delta` across.
pub open spec fn spec_pad(i: Interval, delta: int) -> Interval {
    if ext_lt(spec_size(i), ExtFx::Fin(Fx(delta as i128))) {
        spec_expand(i, delta)
    } else {
        i
    }
}

/// An interval displaced as a whole.
pub open spec fn spec_shift(i: Interval, d: int) -> Interval {
    Interval {
        min: match i.spec_min() {
            ExtFx::Fin(lo) => ExtFx::Fin(Fx((lo.0 + d) as i128)),
            e => e,
        },
        max: match i.spec_max() {
            ExtFx::Fin(hi) => ExtFx::Fin(Fx((hi.0 + d) as i128)),
            e => e,
        },
    }
}

} // verus!

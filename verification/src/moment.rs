//! Points in time and stretches of it.

use vstd::prelude::*;

use crate::outside::{clock, format_rfc3339, rfc3339_text, time_in_range, FIRST_SECOND, LAST_SECOND};

verus! {

/// A point in time: seconds since the Unix epoch, and nanoseconds since the
/// last whole second.
#[derive(Clone, Copy, Debug, PartialEq, Eq, PartialOrd, Ord, Hash, Structural)]
pub struct Moment {
    pub seconds: i64,
    pub nanos: u32,
}

impl View for Moment {
    type V = Moment;

    open spec fn view(&self) -> Moment {
        *self
    }
}

impl DeepView for Moment {
    type V = Moment;

    open spec fn deep_view(&self) -> Moment {
        *self
    }
}

/// A stretch of time: whole seconds and nanoseconds.
#[derive(Clone, Copy, Debug, PartialEq, Eq, PartialOrd, Ord, Hash, Structural)]
pub struct Span {
    pub seconds: u64,
    pub nanos: u32,
}

/// The longest stretch that can be added to a moment, in whole seconds.
pub const LONGEST_SECONDS: u64 = 9_223_372_036_854_775;

/// What the longest stretch holds beyond its whole seconds.
pub const LONGEST_NANOS: u32 = 807_000_000;

impl Span {
    /// Fewer nanoseconds than a whole second has.
    pub open spec fn well_formed(&self) -> bool {
        self.nanos < 1_000_000_000
    }

    /// Short enough to be added to a moment: at most `i64::MAX` milliseconds.
    pub open spec fn addable(&self) -> bool {
        ||| self.seconds < LONGEST_SECONDS
        ||| self.seconds == LONGEST_SECONDS && self.nanos <= LONGEST_NANOS
    }

    /// Whether the stretch is short enough to be added to a moment.
    pub fn is_addable(&self) -> (r: bool)
        ensures
            r == self.addable(),
    {
        self.seconds < LONGEST_SECONDS || (self.seconds == LONGEST_SECONDS && self.nanos
            <= LONGEST_NANOS)
    }
}

/// A moment the clock may show.
pub open spec fn on_the_clock(now: Moment) -> bool {
    now.regular() && now.seconds >= 0
}

/// A moment the clock may show, as it is written down.
pub open spec fn clock_text(now: Seq<char>) -> bool {
    exists|m: Moment| on_the_clock(m) && #[trigger] m.written() == now
}

impl Moment {
    /// A moment that can be written down.
    pub open spec fn valid(&self) -> bool {
        time_in_range(self.seconds, self.nanos)
    }

    /// A moment outside leap seconds.
    pub open spec fn regular(&self) -> bool {
        &&& FIRST_SECOND <= self.seconds <= LAST_SECOND
        &&& self.nanos < 1_000_000_000
    }

    /// The moment as it is written down.
    pub open spec fn written(&self) -> Seq<char> {
        rfc3339_text(self.seconds, self.nanos)
    }

    /// Nanoseconds since the Unix epoch.
    pub open spec fn total_nanos(&self) -> int {
        self.seconds * 1_000_000_000 + self.nanos
    }

    /// There is a moment that comes `span` after this one.
    pub open spec fn reaches(&self, span: Span) -> bool {
        self.seconds + span.seconds + (self.nanos + span.nanos) / 1_000_000_000 <= LAST_SECOND
    }

    /// The moment that comes `span` after this one.
    pub open spec fn plus(&self, span: Span) -> Moment {
        Moment {
            seconds: (self.seconds + span.seconds + (self.nanos + span.nanos)
                / 1_000_000_000) as i64,
            nanos: ((self.nanos + span.nanos) % 1_000_000_000) as u32,
        }
    }

    /// Whether there is a moment that comes `span` after this one.
    pub fn can_reach(&self, span: Span) -> (r: bool)
        requires
            self.regular(),
            span.well_formed(),
        ensures
            r == self.reaches(span),
    {
        let carry: u64 = if self.nanos + span.nanos >= 1_000_000_000 {
            1
        } else {
            0
        };
        let room: u64 = (LAST_SECOND - self.seconds) as u64;
        span.seconds <= room && carry <= room - span.seconds
    }

    /// The moment the clock shows.
    pub fn now() -> (r: Moment)
        ensures
            on_the_clock(r),
    {
        let (seconds, nanos): (i64, u32) = clock();
        Moment { seconds, nanos }
    }

    /// The moment in RFC 3339, in UTC.
    pub fn text(&self) -> (r: String)
        requires
            self.valid(),
        ensures
            r@ == self.written(),
    {
        format_rfc3339(self.seconds, self.nanos)
    }

    /// The moment that comes `span` after this one.
    pub fn after(&self, span: Span) -> (r: Moment)
        requires
            self.regular(),
            span.well_formed(),
            self.reaches(span),
        ensures
            r == self.plus(span),
            r.regular(),
            r.total_nanos() == self.total_nanos() + span.seconds * 1_000_000_000 + span.nanos,
    {
        let nanos: u32 = self.nanos + span.nanos;
        assert(span.seconds <= LAST_SECOND - FIRST_SECOND);
        let whole: i64 = span.seconds as i64;
        if nanos >= 1_000_000_000 {
            Moment { seconds: self.seconds + whole + 1, nanos: nanos - 1_000_000_000 }
        } else {
            Moment { seconds: self.seconds + whole, nanos }
        }
    }
}

} // verus!

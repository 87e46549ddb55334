//! Spans of time and instants, counted in nanoseconds, with the ranges of the
//! standard library's `Duration` and of protobuf timestamps.
use vstd::prelude::*;

verus! {

/// The largest duration, in nanoseconds: `u64::MAX` seconds and
/// 999,999,999 nanoseconds.
pub const MAX_DURATION_NANOS: u128 = 18446744073709551615999999999u128;

/// Nanoseconds in a second.
pub const NANOS_PER_SEC: u128 = 1000000000u128;

/// A span of time.
#[derive(PartialEq, Eq, Structural, Clone, Copy, Debug)]
pub struct Duration {
    nanos: u128,
}

/// An instant, as nanoseconds since the Unix epoch (negative before it).
#[derive(PartialEq, Eq, Structural, Clone, Copy, Debug)]
pub struct SystemTime {
    nanos: i128,
}

impl Duration {
    #[verifier::type_invariant]
    spec fn fits(self) -> bool {
        self.nanos <= MAX_DURATION_NANOS
    }

    /// The length of the span, in nanoseconds.
    pub closed spec fn spec_nanos(self) -> nat {
        self.nanos as nat
    }

    /// The span of `nanos` nanoseconds.
    pub fn from_nanos_u128(nanos: u128) -> (r: Self)
        requires
            nanos <= MAX_DURATION_NANOS,
        ensures
            r.spec_nanos() == nanos,
    {
        Duration { nanos }
    }

    /// The span of `nanos` nanoseconds.
    pub fn from_nanos(nanos: u64) -> (r: Self)
        ensures
            r.spec_nanos() == nanos,
    {
        Duration { nanos: nanos as u128 }
    }

    /// The span of `secs` seconds.
    pub fn from_secs(secs: u64) -> (r: Self)
        ensures
            r.spec_nanos() == secs * NANOS_PER_SEC,
    {
        assert(secs * NANOS_PER_SEC <= MAX_DURATION_NANOS) by (nonlinear_arith)
            requires
                secs <= u64::MAX,
        ;
        Duration { nanos: (secs as u128) * NANOS_PER_SEC }
    }

    /// The empty span.
    pub fn zero() -> (r: Self)
        ensures
            r.spec_nanos() == 0,
    {
        Duration { nanos: 0 }
    }

    /// The length in nanoseconds.
    pub fn as_nanos(&self) -> (r: u128)
        ensures
            r == self.spec_nanos(),
            r <= MAX_DURATION_NANOS,
    {
        proof {
            use_type_invariant(self);
        }
        self.nanos
    }

    /// The whole seconds of the span.
    pub fn as_secs(&self) -> (r: u64)
        ensures
            r == self.spec_nanos() / (NANOS_PER_SEC as nat),
    {
        proof {
            use_type_invariant(self);
        }
        (self.nanos / NANOS_PER_SEC) as u64
    }

    /// The whole milliseconds of the span.
    pub fn as_millis(&self) -> (r: u128)
        ensures
            r == self.spec_nanos() / 1000000,
    {
        self.nanos / 1000000
    }

    /// The sum of two spans, when it fits (`Duration::checked_add`).
    pub fn checked_add(&self, other: &Self) -> (r: Option<Self>)
        ensures
            match r {
                Some(d) => d.spec_nanos() == self.spec_nanos() + other.spec_nanos(),
                None => self.spec_nanos() + other.spec_nanos() > MAX_DURATION_NANOS,
            },
            r is Some <==> self.spec_nanos() + other.spec_nanos() <= MAX_DURATION_NANOS,
    {
        proof {
            use_type_invariant(self);
            use_type_invariant(other);
        }
        if self.nanos <= MAX_DURATION_NANOS - other.nanos {
            Some(Duration { nanos: self.nanos + other.nanos })
        } else {
            None
        }
    }

    /// The sum of two spans (`Duration + Duration`), which must fit.
    pub fn add(&self, other: &Self) -> (r: Self)
        requires
            self.spec_nanos() + other.spec_nanos() <= MAX_DURATION_NANOS,
        ensures
            r.spec_nanos() == self.spec_nanos() + other.spec_nanos(),
    {
        proof {
            use_type_invariant(self);
            use_type_invariant(other);
        }
        Duration { nanos: self.nanos + other.nanos }
    }

    /// The difference of two spans, when it is not negative
    /// (`Duration::checked_sub`).
    pub fn checked_sub(&self, other: &Self) -> (r: Option<Self>)
        ensures
            match r {
                Some(d) => other.spec_nanos() <= self.spec_nanos() && d.spec_nanos()
                    == self.spec_nanos() - other.spec_nanos(),
                None => other.spec_nanos() > self.spec_nanos(),
            },
    {
        proof {
            use_type_invariant(self);
        }
        if other.nanos <= self.nanos {
            Some(Duration { nanos: self.nanos - other.nanos })
        } else {
            None
        }
    }

    /// Whether `self` is shorter than `other`.
    pub fn lt(&self, other: &Self) -> (r: bool)
        ensures
            r == (self.spec_nanos() < other.spec_nanos()),
    {
        self.nanos < other.nanos
    }

    /// The span of a protobuf duration, whose parts must not be negative.
    pub fn from_pb(seconds: i64, nanos: i32) -> (r: Self)
        requires
            seconds >= 0,
            nanos >= 0,
        ensures
            r.spec_nanos() == seconds * NANOS_PER_SEC + nanos,
    {
        let secs = Duration::from_secs(seconds as u64);
        let ns = Duration::from_nanos(nanos as u64);
        proof {
            assert(seconds * NANOS_PER_SEC + nanos <= MAX_DURATION_NANOS) by (nonlinear_arith)
                requires
                    0 <= seconds <= i64::MAX,
                    0 <= nanos <= i32::MAX,
            ;
        }
        secs.add(&ns)
    }
}

impl Default for Duration {
    fn default() -> (r: Self)
        ensures
            r.spec_nanos() == 0,
    {
        Duration { nanos: 0 }
    }
}

/// What the debug format of a `std::time::Duration` of `secs` seconds and
/// `nanos` nanoseconds shows (`{:?}`).
pub uninterp spec fn duration_debug(secs: u64, nanos: u32) -> Seq<char>;

/// What the debug format of a `std::time::Duration` of `secs` seconds and
/// `nanos` nanoseconds shows, right-aligned in `width` characters, with
/// `prec` digits after the point (`{:>width$.prec$?}`).
pub uninterp spec fn duration_debug_padded(secs: u64, nanos: u32, width: usize, prec: usize) -> Seq<
    char,
>;

/// Formats a duration with `{:?}` (`std::time::Duration`'s debug format),
/// which picks a unit and prints a decimal number in it.
#[verifier::external_body]
fn std_duration_debug(secs: u64, nanos: u32) -> (r: String)
    requires
        nanos < NANOS_PER_SEC,
    ensures
        r@ == duration_debug(secs, nanos),
{
    format!("{:?}", std::time::Duration::new(secs, nanos))
}

/// Formats a duration with `{:>width$.prec$?}` (`std::time::Duration`'s
/// debug format, with a precision, right-aligned). The formatting machinery
/// panics on a width or a precision above `u16::MAX`, so neither may be.
#[verifier::external_body]
fn std_duration_debug_padded(secs: u64, nanos: u32, width: usize, prec: usize) -> (r: String)
    requires
        nanos < NANOS_PER_SEC,
        width <= u16::MAX,
        prec <= u16::MAX,
    ensures
        r@ == duration_debug_padded(secs, nanos, width, prec),
{
    format!("{:>width$.prec$?}", std::time::Duration::new(secs, nanos), width = width, prec = prec)
}

impl Duration {
    /// The whole seconds and the nanoseconds beyond them.
    pub open spec fn parts(self) -> (u64, u32) {
        duration_parts(self.spec_nanos())
    }

    /// The debug format of the duration (`{:?}`).
    pub fn to_debug_string(&self) -> (r: String)
        ensures
            r@ == duration_debug(self.parts().0, self.parts().1),
    {
        proof {
            use_type_invariant(self);
        }
        let secs = (self.nanos / NANOS_PER_SEC) as u64;
        let nanos = (self.nanos % NANOS_PER_SEC) as u32;
        std_duration_debug(secs, nanos)
    }

    /// The debug format of the duration with `prec` digits after the point,
    /// right-aligned in `width` characters (`{:>width$.prec$?}`); neither may
    /// exceed `u16::MAX`, as for the standard formatting.
    pub fn to_debug_string_padded(&self, width: usize, prec: usize) -> (r: String)
        requires
            width <= u16::MAX,
            prec <= u16::MAX,
        ensures
            r@ == duration_debug_padded(self.parts().0, self.parts().1, width, prec),
    {
        proof {
            use_type_invariant(self);
        }
        let secs = (self.nanos / NANOS_PER_SEC) as u64;
        let nanos = (self.nanos % NANOS_PER_SEC) as u32;
        std_duration_debug_padded(secs, nanos, width, prec)
    }
}

/// The whole seconds of `nanos` nanoseconds and the nanoseconds beyond them.
pub open spec fn duration_parts(nanos: nat) -> (u64, u32) {
    ((nanos / (NANOS_PER_SEC as nat)) as u64, (nanos % (NANOS_PER_SEC as nat)) as u32)
}

/// The earliest instant: `i64::MIN` seconds before the epoch.
pub open spec fn min_instant() -> int {
    i64::MIN * NANOS_PER_SEC
}

/// The latest instant: `i64::MAX` seconds and 999,999,999 nanoseconds after
/// the epoch.
pub open spec fn max_instant() -> int {
    i64::MAX * NANOS_PER_SEC + 999999999
}

impl SystemTime {
    #[verifier::type_invariant]
    spec fn in_range(self) -> bool {
        min_instant() <= self.nanos <= max_instant()
    }

    /// Nanoseconds since the Unix epoch.
    pub closed spec fn spec_nanos(self) -> int {
        self.nanos as int
    }

    /// The instant `secs` seconds and `nanos` nanoseconds after the epoch.
    pub fn from_unix(secs: i64, nanos: u32) -> (r: Self)
        requires
            nanos < NANOS_PER_SEC,
        ensures
            r.spec_nanos() == secs * NANOS_PER_SEC + nanos,
    {
        proof {
            assert(min_instant() <= secs * NANOS_PER_SEC + nanos <= max_instant()) by (nonlinear_arith)
                requires
                    i64::MIN <= secs <= i64::MAX,
                    0 <= nanos < NANOS_PER_SEC,
            ;
        }
        SystemTime { nanos: (secs as i128) * (NANOS_PER_SEC as i128) + (nanos as i128) }
    }

    /// Nanoseconds since the Unix epoch.
    pub fn as_unix_nanos(&self) -> (r: i128)
        ensures
            r == self.spec_nanos(),
    {
        self.nanos
    }

    /// The time from `earlier` to `self`, if `earlier` is not later
    /// (`SystemTime::duration_since(..).ok()`).
    pub fn duration_since(&self, earlier: &Self) -> (r: Option<Duration>)
        ensures
            match r {
                Some(d) => earlier.spec_nanos() <= self.spec_nanos() && d.spec_nanos()
                    == self.spec_nanos() - earlier.spec_nanos(),
                None => earlier.spec_nanos() > self.spec_nanos(),
            },
    {
        proof {
            use_type_invariant(self);
            use_type_invariant(earlier);
        }
        if earlier.nanos <= self.nanos {
            let d = (self.nanos - earlier.nanos) as u128;
            Some(Duration::from_nanos_u128(d))
        } else {
            None
        }
    }

    /// The time from `earlier` to `self`, or nothing if `earlier` is later
    /// (`duration_since(..).unwrap_or_default()`).
    pub fn elapsed_since(&self, earlier: &Self) -> (r: Duration)
        ensures
            r.spec_nanos() == elapsed(*self, *earlier),
    {
        match self.duration_since(earlier) {
            Some(d) => d,
            None => Duration::zero(),
        }
    }

    /// Whether `self` is later than `other`.
    pub fn gt(&self, other: &Self) -> (r: bool)
        ensures
            r == (self.spec_nanos() > other.spec_nanos()),
    {
        self.nanos > other.nanos
    }
}

/// The time from `earlier` to `later`, or 0 if `earlier` is later.
pub open spec fn elapsed(later: SystemTime, earlier: SystemTime) -> nat {
    if earlier.spec_nanos() <= later.spec_nanos() {
        (later.spec_nanos() - earlier.spec_nanos()) as nat
    } else {
        0
    }
}

/// Whether the optional instant `a` is later than `b`, where no instant is
/// earlier than every instant (the order of `Option<SystemTime>`).
pub open spec fn opt_later(a: Option<SystemTime>, b: Option<SystemTime>) -> bool {
    match (a, b) {
        (Some(x), Some(y)) => x.spec_nanos() > y.spec_nanos(),
        (Some(_), None) => true,
        (None, _) => false,
    }
}

/// Whether the optional instant `a` is later than `b` (`a > b` on options).
pub fn option_later(a: &Option<SystemTime>, b: &Option<SystemTime>) -> (r: bool)
    ensures
        r == opt_later(*a, *b),
{
    match (a, b) {
        (Some(x), Some(y)) => x.gt(y),
        (Some(_), None) => true,
        (None, _) => false,
    }
}

} // verus!

//! Durations and points in time, as plain numbers.
use vstd::prelude::*;
use vstd::string::*;

use crate::text;

verus! {

/// Nanoseconds in a second.
pub const NANOS_PER_SEC: u32 = 1_000_000_000;

/// A span of time: whole seconds and the nanoseconds beyond them. The
/// constructors keep `nanos` under one second.
#[derive(Clone, Copy, Debug, PartialEq, Eq, Structural)]
pub struct Duration {
    pub secs: u64,
    pub nanos: u32,
}

impl Duration {
    /// The length of the span in nanoseconds.
    pub open spec fn total(self) -> nat {
        (self.secs * 1_000_000_000 + self.nanos) as nat
    }

    pub fn from_secs(secs: u64) -> (r: Self)
        ensures
            r == (Duration { secs, nanos: 0 }),
            r.total() == secs * 1_000_000_000,
    {
        Duration { secs, nanos: 0 }
    }

    pub fn from_millis(millis: u64) -> (r: Self)
        ensures
            r == spec_millis(millis),
            r.total() == millis * 1_000_000,
            r.nanos < 1_000_000_000,
    {
        let rest: u64 = millis % 1000;
        Duration { secs: millis / 1000, nanos: (rest as u32) * 1_000_000 }
    }

    pub fn from_nanos(nanos: u64) -> (r: Self)
        ensures
            r == spec_nanos(nanos),
            r.total() == nanos,
            r.nanos < 1_000_000_000,
    {
        let rest: u64 = nanos % 1_000_000_000;
        Duration { secs: nanos / 1_000_000_000, nanos: rest as u32 }
    }

    pub fn as_nanos(self) -> (r: u128)
        ensures
            r == self.total(),
    {
        (self.secs as u128) * 1_000_000_000u128 + (self.nanos as u128)
    }

    /// The length of the span in whole milliseconds.
    pub fn as_millis(self) -> (r: u128)
        ensures
            r == self.total() / 1_000_000,
    {
        self.as_nanos() / 1_000_000u128
    }

    pub fn is_zero(self) -> (r: bool)
        ensures
            r == (self.total() == 0),
    {
        self.secs == 0 && self.nanos == 0
    }
}

/// The span of `millis` milliseconds, split into seconds and the rest.
pub open spec fn spec_millis(millis: u64) -> Duration {
    Duration { secs: millis / 1000, nanos: ((millis % 1000) * 1_000_000) as u32 }
}

/// The span of `nanos` nanoseconds, split into seconds and the rest.
pub open spec fn spec_nanos(nanos: u64) -> Duration {
    Duration { secs: nanos / 1_000_000_000, nanos: (nanos % 1_000_000_000) as u32 }
}

/// The digits of `frac` behind a decimal point, of which the first counts
/// `unit`, without zeros at the end.
pub open spec fn fraction(frac: nat, unit: nat) -> Seq<char>
    decreases unit,
{
    if frac == 0 || unit == 0 {
        Seq::empty()
    } else {
        seq![text::digit_char(frac / unit)] + fraction(frac % unit, unit / 10)
    }
}

/// A whole number and a fraction in a unit of time.
pub open spec fn quantity(whole: nat, frac: nat, unit: nat, suffix: Seq<char>) -> Seq<char> {
    text::decimal(whole) + (if frac == 0 {
        Seq::empty()
    } else {
        "."@ + fraction(frac, unit)
    }) + suffix
}

/// A span of time in words: a number in the largest unit out of `s`, `ms`, `µs`
/// and `ns` that it holds at least once.
pub open spec fn span_text(d: Duration) -> Seq<char> {
    let nanos = d.nanos as nat;
    if d.secs > 0 {
        quantity(d.secs as nat, nanos, 100_000_000, "s"@)
    } else if nanos >= 1_000_000 {
        quantity(nanos / 1_000_000, nanos % 1_000_000, 100_000, "ms"@)
    } else if nanos >= 1_000 {
        quantity(nanos / 1_000, nanos % 1_000, 100, "µs"@)
    } else {
        quantity(nanos, 0, 1, "ns"@)
    }
}

fn quantity_of(whole: u64, frac: u32, unit: u32, suffix: &str) -> (r: String)
    requires
        unit > 0,
    ensures
        r@ == quantity(whole as nat, frac as nat, unit as nat, suffix@),
{
    let mut out = text::decimal_of(whole);
    if frac > 0 {
        out.append(".");
        let ghost start = out@;
        let ghost all = fraction(frac as nat, unit as nat);
        let mut rest: u32 = frac;
        let mut place: u32 = unit;
        assert(start + all =~= out@ + fraction(rest as nat, place as nat));
        while rest > 0 && place > 0
            invariant
                start + all == out@ + fraction(rest as nat, place as nat),
            decreases place,
        {
            let ghost before = out@;
            let ghost f = fraction(rest as nat, place as nat);
            let digit: char = (((rest / place) % 10) as u8 + 48u8) as char;
            assert(digit == text::digit_char(rest as nat / place as nat));
            out.push(digit);
            rest = rest % place;
            place = place / 10;
            assert(out@ + fraction(rest as nat, place as nat) =~= before + f);
        }
        assert(out@ =~= start + all);
    }
    out.append(suffix);
    out
}

impl Duration {
    /// The span in words.
    pub fn shown(self) -> (r: String)
        ensures
            r@ == span_text(self),
    {
        let nanos = self.nanos;
        if self.secs > 0 {
            quantity_of(self.secs, nanos, 100_000_000, "s")
        } else if nanos >= 1_000_000 {
            quantity_of((nanos / 1_000_000) as u64, nanos % 1_000_000, 100_000, "ms")
        } else if nanos >= 1_000 {
            quantity_of((nanos / 1_000) as u64, nanos % 1_000, 100, "µs")
        } else {
            quantity_of(nanos as u64, 0, 1, "ns")
        }
    }
}

/// A point in time: nanoseconds on a monotonic clock since that clock's origin.
#[derive(Clone, Copy, Debug, PartialEq, Eq, Structural)]
pub struct Instant {
    pub nanos: u64,
}

/// The nanoseconds from `earlier` to `later`; zero if they stand the other way
/// round.
pub open spec fn elapsed(earlier: Instant, later: Instant) -> nat {
    if later.nanos >= earlier.nanos {
        (later.nanos - earlier.nanos) as nat
    } else {
        0
    }
}

impl Instant {
    /// The nanoseconds that have passed since `earlier`; zero if it lies ahead.
    pub fn nanos_since(self, earlier: Instant) -> (r: u64)
        ensures
            r == elapsed(earlier, self),
    {
        if self.nanos >= earlier.nanos {
            self.nanos - earlier.nanos
        } else {
            0
        }
    }

    /// The clock reading at which `span` has passed since this point.
    pub fn after(self, span: Duration) -> (r: u128)
        ensures
            r == self.nanos + span.total(),
    {
        (self.nanos as u128) + span.as_nanos()
    }
}

/// A span is as long as it was made, in whatever unit, and is told as long.
pub proof fn law_spans_are_as_long_as_they_were_made(
    n: u64,
    secs: Duration,
    millis: Duration,
    nanos: Duration,
    d: Duration,
    in_nanos: u128,
    in_millis: u128,
    zero: bool,
)
    requires
        call_ensures(Duration::from_secs, (n,), secs),
        call_ensures(Duration::from_millis, (n,), millis),
        call_ensures(Duration::from_nanos, (n,), nanos),
        call_ensures(Duration::as_nanos, (d,), in_nanos),
        call_ensures(Duration::as_millis, (d,), in_millis),
        call_ensures(Duration::is_zero, (d,), zero),
    ensures
        secs.secs == n && secs.nanos == 0,
        millis.secs * 1000 + millis.nanos / 1_000_000 == n,
        millis.nanos % 1_000_000 == 0,
        millis.nanos < 1_000_000_000,
        nanos.secs * 1_000_000_000 + nanos.nanos == n,
        nanos.nanos < 1_000_000_000,
        in_nanos == d.secs * 1_000_000_000 + d.nanos,
        in_millis * 1_000_000 <= d.secs * 1_000_000_000 + d.nanos < (in_millis + 1) * 1_000_000,
        zero <==> d.secs == 0 && d.nanos == 0,
{
}

/// What has passed since a moment is how far the clock has gone on since, and a
/// moment ahead has not begun; a span after a moment is that far ahead of it.
pub proof fn law_clock_goes_forward(
    earlier: Instant,
    later: Instant,
    d: Duration,
    passed: u64,
    end: u128,
)
    requires
        call_ensures(Instant::nanos_since, (later, earlier), passed),
        call_ensures(Instant::after, (later, d), end),
    ensures
        earlier.nanos <= later.nanos ==> earlier.nanos + passed == later.nanos,
        earlier.nanos > later.nanos ==> passed == 0,
        end == later.nanos + d.secs * 1_000_000_000 + d.nanos,
{
}

/// What the digits of a fraction add up to, if the first counts `unit`.
pub open spec fn fraction_value(digits: Seq<char>, unit: nat) -> nat
    decreases digits.len(),
{
    if digits.len() == 0 {
        0
    } else {
        (digits[0] as nat - '0' as nat) as nat * unit + fraction_value(digits.skip(1), unit / 10)
    }
}

proof fn lemma_fraction(frac: nat, unit: nat)
    requires
        unit == 100_000_000 || unit == 10_000_000 || unit == 1_000_000 || unit == 100_000 || unit
            == 10_000 || unit == 1_000 || unit == 100 || unit == 10 || unit == 1 || unit == 0,
        unit > 0 ==> frac < 10 * unit,
        unit == 0 ==> frac == 0,
    ensures
        fraction_value(fraction(frac, unit), unit) == frac,
        forall|i: int|
            0 <= i < fraction(frac, unit).len() ==> '0' <= #[trigger] fraction(frac, unit)[i]
                <= '9',
        frac > 0 ==> fraction(frac, unit).len() > 0 && fraction(frac, unit).last() != '0',
    decreases unit,
{
    let f = fraction(frac, unit);
    if frac > 0 {
        let d = frac / unit;
        let rest = frac % unit;
        let g = fraction(rest, unit / 10);
        assert(d < 10 && d * unit + rest == frac && rest < unit) by (nonlinear_arith)
            requires
                d == frac / unit,
                rest == frac % unit,
                unit > 0,
                frac < 10 * unit,
        ;
        lemma_fraction(rest, unit / 10);
        assert(f.skip(1) =~= g);
        assert(f[0] == text::digit_char(d));
        assert(text::digit_char(d) as nat == '0' as nat + d);
        assert forall|i: int| 0 <= i < f.len() implies '0' <= #[trigger] f[i] <= '9' by {
            if i > 0 {
                assert(f[i] == g[i - 1]);
            }
        }
        if rest > 0 {
            assert(f.last() == g.last());
        } else {
            assert(g.len() == 0);
            assert(f.last() == f[0]);
            assert(d > 0) by (nonlinear_arith)
                requires
                    d * unit + rest == frac,
                    rest == 0,
                    frac > 0,
            ;
        }
    }
}

/// Whether `told` is the number `whole`, behind a point the fraction `left` if
/// there is one, of which the first digit counts `first`, and the unit.
pub open spec fn tells(
    told: Seq<char>,
    whole: nat,
    left: nat,
    first: nat,
    unit: Seq<char>,
) -> bool {
    &&& left == 0 ==> told == text::decimal(whole) + unit
    &&& left > 0 ==> exists|digits: Seq<char>|
        {
            &&& #[trigger] fraction_value(digits, first) == left
            &&& forall|i: int| 0 <= i < digits.len() ==> '0' <= #[trigger] digits[i] <= '9'
            &&& digits.len() > 0 && digits.last() != '0'
            &&& told == text::decimal(whole) + "."@ + digits + unit
        }
}

proof fn lemma_quantity(whole: nat, left: nat, first: nat, unit: Seq<char>)
    requires
        first == 100_000_000 || first == 100_000 || first == 100 || first == 1,
        left < 10 * first,
    ensures
        tells(quantity(whole, left, first, unit), whole, left, first, unit),
{
    let told = quantity(whole, left, first, unit);
    if left == 0 {
        assert(told =~= text::decimal(whole) + unit);
    } else {
        lemma_fraction(left, first);
        let digits = fraction(left, first);
        assert(fraction_value(digits, first) == left);
        assert(told =~= text::decimal(whole) + "."@ + digits + unit);
    }
}

/// A span is told in the largest unit that it holds at least once: the whole
/// ones as a number, and behind a point what is left, to the last nanosecond.
pub proof fn law_span_is_told_in_its_largest_unit(d: Duration, told: String)
    requires
        call_ensures(Duration::shown, (d,), told),
        d.nanos < 1_000_000_000,
    ensures
        d.secs > 0 ==> tells(told@, d.secs as nat, d.nanos as nat, 100_000_000, "s"@),
        d.secs == 0 && 1_000_000 <= d.nanos ==> tells(
            told@,
            d.nanos as nat / 1_000_000,
            d.nanos as nat % 1_000_000,
            100_000,
            "ms"@,
        ),
        d.secs == 0 && 1_000 <= d.nanos < 1_000_000 ==> tells(
            told@,
            d.nanos as nat / 1_000,
            d.nanos as nat % 1_000,
            100,
            "µs"@,
        ),
        d.secs == 0 && d.nanos < 1_000 ==> told@ == text::decimal(d.nanos as nat) + "ns"@,
{
    lemma_quantity(d.secs as nat, d.nanos as nat, 100_000_000, "s"@);
    lemma_quantity(d.nanos as nat / 1_000_000, d.nanos as nat % 1_000_000, 100_000, "ms"@);
    lemma_quantity(d.nanos as nat / 1_000, d.nanos as nat % 1_000, 100, "µs"@);
    lemma_quantity(d.nanos as nat, 0, 1, "ns"@);
}

} // verus!

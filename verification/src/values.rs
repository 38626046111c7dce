//! The values of configuration directives.
use vstd::prelude::*;
use vstd::string::*;

use crate::text;
use crate::text::IntegerError;
use crate::time::Duration;

verus! {

/// Why a directive's value cannot be taken.
#[derive(Debug)]
pub enum ValueError {
    Integer(IntegerError),
    NotBoolean(String),
    EmptyDuration,
    DurationWithoutDigits,
    DurationSuffix(String),
    EmptyByteSize,
    ByteSizeWithoutDigits,
    ByteSizeSuffix(String),
    ByteSizeTooLarge,
    UnknownLogLevel(String),
    UnknownExecMode(String),
}

/// What a `ValueError` says.
pub enum ValueErrorView {
    Integer(IntegerError),
    NotBoolean(Seq<char>),
    EmptyDuration,
    DurationWithoutDigits,
    DurationSuffix(Seq<char>),
    EmptyByteSize,
    ByteSizeWithoutDigits,
    ByteSizeSuffix(Seq<char>),
    ByteSizeTooLarge,
    UnknownLogLevel(Seq<char>),
    UnknownExecMode(Seq<char>),
}

impl View for ValueError {
    type V = ValueErrorView;

    open spec fn view(&self) -> ValueErrorView {
        match self {
            ValueError::Integer(e) => ValueErrorView::Integer(*e),
            ValueError::NotBoolean(s) => ValueErrorView::NotBoolean(s@),
            ValueError::EmptyDuration => ValueErrorView::EmptyDuration,
            ValueError::DurationWithoutDigits => ValueErrorView::DurationWithoutDigits,
            ValueError::DurationSuffix(s) => ValueErrorView::DurationSuffix(s@),
            ValueError::EmptyByteSize => ValueErrorView::EmptyByteSize,
            ValueError::ByteSizeWithoutDigits => ValueErrorView::ByteSizeWithoutDigits,
            ValueError::ByteSizeSuffix(s) => ValueErrorView::ByteSizeSuffix(s@),
            ValueError::ByteSizeTooLarge => ValueErrorView::ByteSizeTooLarge,
            ValueError::UnknownLogLevel(s) => ValueErrorView::UnknownLogLevel(s@),
            ValueError::UnknownExecMode(s) => ValueErrorView::UnknownExecMode(s@),
        }
    }
}

impl ValueErrorView {
    pub open spec fn message(self) -> Seq<char> {
        match self {
            ValueErrorView::Integer(IntegerError::Empty) =>
                "cannot parse integer from empty string"@,
            ValueErrorView::Integer(IntegerError::InvalidDigit) =>
                "invalid digit found in string"@,
            ValueErrorView::Integer(IntegerError::TooLarge) =>
                "number too large to fit in target type"@,
            ValueErrorView::NotBoolean(s) => "expected yes/no boolean, got "@ + s,
            ValueErrorView::EmptyDuration => "duration must not be empty"@,
            ValueErrorView::DurationWithoutDigits => "duration must start with digits"@,
            ValueErrorView::DurationSuffix(s) => "unsupported duration suffix: "@ + s,
            ValueErrorView::EmptyByteSize => "byte size must not be empty"@,
            ValueErrorView::ByteSizeWithoutDigits => "byte size must start with digits"@,
            ValueErrorView::ByteSizeSuffix(s) => "unsupported byte size suffix: "@ + s,
            ValueErrorView::ByteSizeTooLarge => "byte size is too large"@,
            ValueErrorView::UnknownLogLevel(s) => "unsupported LogLevel value: "@ + s,
            ValueErrorView::UnknownExecMode(s) => "unsupported ExecMode value: "@ + s,
        }
    }
}

/// `head` followed by `tail`.
pub(crate) fn sentence(head: &str, tail: &str) -> (r: String)
    ensures
        r@ == head@ + tail@,
{
    let mut out = String::from_str(head);
    out.append(tail);
    out
}

impl ValueError {
    /// The error in words.
    pub fn message(&self) -> (r: String)
        ensures
            r@ == self@.message(),
    {
        match self {
            ValueError::Integer(e) => match e {
                IntegerError::Empty => String::from_str("cannot parse integer from empty string"),
                IntegerError::InvalidDigit => String::from_str("invalid digit found in string"),
                IntegerError::TooLarge => String::from_str(
                    "number too large to fit in target type",
                ),
            },
            ValueError::NotBoolean(s) => sentence("expected yes/no boolean, got ", s.as_str()),
            ValueError::EmptyDuration => String::from_str("duration must not be empty"),
            ValueError::DurationWithoutDigits => String::from_str(
                "duration must start with digits",
            ),
            ValueError::DurationSuffix(s) => sentence("unsupported duration suffix: ", s.as_str()),
            ValueError::EmptyByteSize => String::from_str("byte size must not be empty"),
            ValueError::ByteSizeWithoutDigits => String::from_str(
                "byte size must start with digits",
            ),
            ValueError::ByteSizeSuffix(s) => sentence("unsupported byte size suffix: ", s.as_str()),
            ValueError::ByteSizeTooLarge => String::from_str("byte size is too large"),
            ValueError::UnknownLogLevel(s) => sentence("unsupported LogLevel value: ", s.as_str()),
            ValueError::UnknownExecMode(s) => sentence("unsupported ExecMode value: ", s.as_str()),
        }
    }
}

/// What the result `r` of a value's reading stands for.
pub open spec fn outcome<T>(r: Result<T, ValueError>) -> Result<T, ValueErrorView> {
    match r {
        Ok(v) => Ok(v),
        Err(e) => Err(e@),
    }
}

/// The unsigned integer, no greater than `max`, that `s` spells.
pub open spec fn integer_value(s: Seq<char>, max: nat) -> Result<nat, ValueErrorView> {
    match text::unsigned_value(s, max) {
        Ok(n) => Ok(n),
        Err(e) => Err(ValueErrorView::Integer(e)),
    }
}

pub(crate) fn parse_integer(v: &Vec<char>, max: u64) -> (r: Result<u64, ValueError>)
    ensures
        match integer_value(v@, max as nat) {
            Ok(n) => r == Ok::<u64, ValueError>(n as u64) && n <= max,
            Err(e) => outcome(r) == Err::<u64, ValueErrorView>(e),
        },
{
    match text::parse_unsigned(v, max) {
        Ok(n) => Ok(n),
        Err(e) => Err(ValueError::Integer(e)),
    }
}

/// The truth value that `s` spells, in any letter case.
pub open spec fn bool_value(s: Seq<char>) -> Result<bool, ValueErrorView> {
    let w = text::lowered(text::trimmed(s));
    if w == "yes"@ || w == "true"@ || w == "on"@ || w == "1"@ {
        Ok(true)
    } else if w == "no"@ || w == "false"@ || w == "off"@ || w == "0"@ {
        Ok(false)
    } else {
        Err(ValueErrorView::NotBoolean(w))
    }
}

pub(crate) fn bool_of(v: &Vec<char>) -> (r: Result<bool, ValueError>)
    ensures
        outcome(r) == bool_value(v@),
{
    let w = text::lowercase(&text::trim(v));
    if text::spells(&w, "yes") || text::spells(&w, "true") || text::spells(&w, "on")
        || text::spells(&w, "1") {
        Ok(true)
    } else if text::spells(&w, "no") || text::spells(&w, "false") || text::spells(&w, "off")
        || text::spells(&w, "0") {
        Ok(false)
    } else {
        Err(ValueError::NotBoolean(text::string_of(&w)))
    }
}

/// Reads `yes`, `true`, `on` and `1` as true, `no`, `false`, `off` and `0` as
/// false.
pub fn parse_bool(input: &str) -> (r: Result<bool, ValueError>)
    ensures
        outcome(r) == bool_value(input@),
{
    bool_of(&text::chars_of(input))
}

/// The product of two factors, or the largest `u64` if that is less.
pub open spec fn capped_product(a: nat, b: nat) -> u64 {
    if a * b <= u64::MAX {
        (a * b) as u64
    } else {
        u64::MAX
    }
}

fn times_capped(a: u64, b: u64) -> (r: u64)
    ensures
        r == capped_product(a as nat, b as nat),
{
    match a.checked_mul(b) {
        Some(n) => n,
        None => u64::MAX,
    }
}

/// The span of `value` units that `unit` names.
pub open spec fn span_of(value: nat, unit: Seq<char>) -> Option<Duration> {
    if unit == ""@ || unit == "s"@ {
        Some(Duration { secs: value as u64, nanos: 0 })
    } else if unit == "ms"@ {
        Some(crate::time::spec_millis(value as u64))
    } else if unit == "m"@ {
        Some(Duration { secs: capped_product(value, 60), nanos: 0 })
    } else if unit == "h"@ {
        Some(Duration { secs: capped_product(value, 3600), nanos: 0 })
    } else {
        None
    }
}

/// The span of time that `s` spells: decimal digits, then a unit.
pub open spec fn duration_value(s: Seq<char>) -> Result<Duration, ValueErrorView> {
    let t = text::trimmed(s);
    let n = text::digit_run(t) as int;
    let unit = text::lowered(t.skip(n));
    if t.len() == 0 {
        Err(ValueErrorView::EmptyDuration)
    } else if n == 0 {
        Err(ValueErrorView::DurationWithoutDigits)
    } else {
        match integer_value(t.take(n), u64::MAX as nat) {
            Err(e) => Err(e),
            Ok(value) => match span_of(value, unit) {
                Some(d) => Ok(d),
                None => Err(ValueErrorView::DurationSuffix(unit)),
            },
        }
    }
}

pub(crate) fn duration_of(v: &Vec<char>) -> (r: Result<Duration, ValueError>)
    ensures
        outcome(r) == duration_value(v@),
{
    let t = text::trim(v);
    if t.len() == 0 {
        return Err(ValueError::EmptyDuration);
    }
    let n = text::leading_digits(&t);
    if n == 0 {
        return Err(ValueError::DurationWithoutDigits);
    }
    let digits = text::piece(&t, 0, n);
    assert(digits@ =~= t@.take(n as int));
    let rest = text::piece(&t, n, t.len());
    assert(rest@ =~= t@.skip(n as int));
    let unit = text::lowercase(&rest);
    let value = match parse_integer(&digits, u64::MAX) {
        Ok(value) => value,
        Err(e) => {
            return Err(e);
        },
    };
    if text::spells(&unit, "") || text::spells(&unit, "s") {
        Ok(Duration::from_secs(value))
    } else if text::spells(&unit, "ms") {
        Ok(Duration::from_millis(value))
    } else if text::spells(&unit, "m") {
        Ok(Duration::from_secs(times_capped(value, 60)))
    } else if text::spells(&unit, "h") {
        Ok(Duration::from_secs(times_capped(value, 3600)))
    } else {
        Err(ValueError::DurationSuffix(text::string_of(&unit)))
    }
}

/// Reads a span of time: digits and a unit out of `ms`, `s`, `m`, `h`; without
/// a unit the digits count seconds.
pub fn parse_duration(input: &str) -> (r: Result<Duration, ValueError>)
    ensures
        outcome(r) == duration_value(input@),
{
    duration_of(&text::chars_of(input))
}

/// How many bytes one unit of a byte size stands for.
pub open spec fn bytes_per(unit: Seq<char>) -> Option<nat> {
    if unit == ""@ || unit == "b"@ {
        Some(1)
    } else if unit == "k"@ || unit == "kb"@ {
        Some(1_000)
    } else if unit == "ki"@ || unit == "kib"@ {
        Some(1_024)
    } else if unit == "m"@ || unit == "mb"@ {
        Some(1_000_000)
    } else if unit == "mi"@ || unit == "mib"@ {
        Some(1_048_576)
    } else {
        None
    }
}

/// The number of bytes that `s` spells: decimal digits, then a unit.
pub open spec fn byte_size_value(s: Seq<char>) -> Result<usize, ValueErrorView> {
    let t = text::trimmed(s);
    let n = text::digit_run(t) as int;
    let unit = text::lowered(t.skip(n));
    if t.len() == 0 {
        Err(ValueErrorView::EmptyByteSize)
    } else if n == 0 {
        Err(ValueErrorView::ByteSizeWithoutDigits)
    } else {
        match integer_value(t.take(n), usize::MAX as nat) {
            Err(e) => Err(e),
            Ok(value) => match bytes_per(unit) {
                None => Err(ValueErrorView::ByteSizeSuffix(unit)),
                Some(factor) => if value * factor <= usize::MAX {
                    Ok((value * factor) as usize)
                } else {
                    Err(ValueErrorView::ByteSizeTooLarge)
                },
            },
        }
    }
}

pub(crate) fn byte_size_of(v: &Vec<char>) -> (r: Result<usize, ValueError>)
    ensures
        outcome(r) == byte_size_value(v@),
{
    let t = text::trim(v);
    if t.len() == 0 {
        return Err(ValueError::EmptyByteSize);
    }
    let n = text::leading_digits(&t);
    if n == 0 {
        return Err(ValueError::ByteSizeWithoutDigits);
    }
    let digits = text::piece(&t, 0, n);
    assert(digits@ =~= t@.take(n as int));
    let rest = text::piece(&t, n, t.len());
    assert(rest@ =~= t@.skip(n as int));
    let unit = text::lowercase(&rest);
    let value: usize = match parse_integer(&digits, usize::MAX as u64) {
        Ok(value) => value as usize,
        Err(e) => {
            return Err(e);
        },
    };
    let factor: usize = if text::spells(&unit, "") || text::spells(&unit, "b") {
        1
    } else if text::spells(&unit, "k") || text::spells(&unit, "kb") {
        1_000
    } else if text::spells(&unit, "ki") || text::spells(&unit, "kib") {
        1_024
    } else if text::spells(&unit, "m") || text::spells(&unit, "mb") {
        1_000_000
    } else if text::spells(&unit, "mi") || text::spells(&unit, "mib") {
        1_048_576
    } else {
        return Err(ValueError::ByteSizeSuffix(text::string_of(&unit)));
    };
    match value.checked_mul(factor) {
        Some(bytes) => Ok(bytes),
        None => Err(ValueError::ByteSizeTooLarge),
    }
}

/// Reads a byte size: digits and a unit out of `b`, `k`, `kb` (thousands),
/// `ki`, `kib` (binary), and likewise with `m`.
pub fn parse_byte_size(input: &str) -> (r: Result<usize, ValueError>)
    ensures
        outcome(r) == byte_size_value(input@),
{
    byte_size_of(&text::chars_of(input))
}

/// The truth value is read off the word, in any letter case and with white space
/// around it: four words are true, four are false, and no other word is either.
pub proof fn law_truth_values(input: &str, r: Result<bool, ValueError>)
    requires
        call_ensures(parse_bool, (input,), r),
    ensures
        ({
            let w = text::lowered(text::trimmed(input@));
            &&& w == "yes"@ || w == "true"@ || w == "on"@ || w == "1"@ <==> r == Ok::<
                bool,
                ValueError,
            >(true)
            &&& w == "no"@ || w == "false"@ || w == "off"@ || w == "0"@ <==> r == Ok::<
                bool,
                ValueError,
            >(false)
            &&& r matches Err(e) ==> e@ == ValueErrorView::NotBoolean(w)
        }),
{
    reveal_strlit("yes");
    reveal_strlit("true");
    reveal_strlit("on");
    reveal_strlit("1");
    reveal_strlit("no");
    reveal_strlit("false");
    reveal_strlit("off");
    reveal_strlit("0");
    assert("yes"@[0] != "off"@[0]);
    assert("on"@[1] != "no"@[1]);
    assert("1"@[0] != "0"@[0]);
    assert("true"@.len() == 4);
    assert("false"@.len() == 5);
}

proof fn lemma_digit_run(digits: Seq<char>, unit: Seq<char>)
    requires
        forall|i: int| 0 <= i < digits.len() ==> text::digit(#[trigger] digits[i]),
        unit.len() > 0 ==> !text::digit(unit[0]),
    ensures
        text::digit_run(digits + unit) == digits.len(),
    decreases digits.len(),
{
    let s = digits + unit;
    if digits.len() > 0 {
        let rest = digits.skip(1);
        assert forall|i: int| 0 <= i < rest.len() implies text::digit(#[trigger] rest[i]) by {
            assert(rest[i] == digits[i + 1]);
        }
        lemma_digit_run(rest, unit);
        assert(s.skip(1) =~= rest + unit);
        assert(s[0] == digits[0]);
    } else if unit.len() > 0 {
        assert(s[0] == unit[0]);
    }
}

/// A decimal number in front of a unit is read apart from it.
proof fn lemma_number_and_unit(n: nat, unit: Seq<char>)
    requires
        forall|i: int| 0 <= i < unit.len() ==> 'a' <= #[trigger] unit[i] <= 'z',
    ensures
        ({
            let s = text::decimal(n) + unit;
            let k = text::decimal(n).len() as int;
            &&& text::trimmed(s) == s
            &&& text::digit_run(s) == k
            &&& s.take(k) == text::decimal(n)
            &&& text::lowered(s.skip(k)) == unit
            &&& k > 0
        }),
{
    let digits = text::decimal(n);
    let s = digits + unit;
    let k = digits.len() as int;
    text::lemma_decimal_shape(n);
    assert(text::digit(digits[0]));
    assert(s[0] == digits[0]);
    assert(!text::whitespace(s[0]));
    if unit.len() > 0 {
        assert(s.last() == unit.last());
    } else {
        assert(s.last() == digits.last());
        assert(text::digit(digits[digits.len() - 1]));
    }
    assert(!text::whitespace(s.last()));
    assert(text::trimmed(s) == s);
    lemma_digit_run(digits, unit);
    assert(s.take(k) =~= digits);
    assert(s.skip(k) =~= unit);
    assert forall|i: int| 0 <= i < unit.len() implies text::lower(#[trigger] unit[i]) == unit[i] by {
    }
    assert(text::lowered(unit) =~= unit);
}

/// A span of time is as long as it says: a number of milliseconds, seconds,
/// minutes or hours, and of seconds where no unit is named.
pub proof fn law_spans_are_as_long_as_they_say(n: u64)
    ensures
        duration_value(text::decimal(n as nat)) matches Ok(d) && d.secs == n && d.nanos == 0,
        duration_value(text::decimal(n as nat) + seq!['s']) matches Ok(d) && d.secs == n && d.nanos
            == 0,
        duration_value(text::decimal(n as nat) + seq!['m', 's']) matches Ok(d) && d.secs
            * 1_000_000_000 + d.nanos == n * 1_000_000 && d.nanos < 1_000_000_000,
        n <= 0xffff_ffff_ffff ==> (duration_value(text::decimal(n as nat) + seq!['m']) matches Ok(d)
            && d.secs == n * 60 && d.nanos == 0),
        n <= 0xffff_ffff_ffff ==> (duration_value(text::decimal(n as nat) + seq!['h']) matches Ok(d)
            && d.secs == n * 3600 && d.nanos == 0),
{
    let none = Seq::<char>::empty();
    reveal_strlit("");
    reveal_strlit("s");
    reveal_strlit("ms");
    reveal_strlit("m");
    reveal_strlit("h");
    assert(""@ =~= none);
    assert("s"@ =~= seq!['s']);
    assert("ms"@ =~= seq!['m', 's']);
    assert("m"@ =~= seq!['m']);
    assert("h"@ =~= seq!['h']);
    assert("s"@[0] != "m"@[0] && "s"@[0] != "h"@[0] && "m"@[0] != "h"@[0]);
    text::law_decimal_reads_back(n as nat, u64::MAX as nat);
    lemma_number_and_unit(n as nat, none);
    lemma_number_and_unit(n as nat, seq!['s']);
    lemma_number_and_unit(n as nat, seq!['m', 's']);
    lemma_number_and_unit(n as nat, seq!['m']);
    lemma_number_and_unit(n as nat, seq!['h']);
    assert(text::decimal(n as nat) + none =~= text::decimal(n as nat));
    assert(crate::time::spec_millis(n).secs * 1_000_000_000 + crate::time::spec_millis(n).nanos == n
        * 1_000_000);
}

/// A span with a unit that is none is refused, with the unit; one that is empty
/// or begins without a digit is refused too.
pub proof fn law_spans_need_a_unit_that_is_one(n: u64, unit: Seq<char>)
    requires
        forall|i: int| 0 <= i < unit.len() ==> 'a' <= #[trigger] unit[i] <= 'z',
        unit != ""@ && unit != "s"@ && unit != "ms"@ && unit != "m"@ && unit != "h"@,
    ensures
        duration_value(text::decimal(n as nat) + unit) == Err::<Duration, ValueErrorView>(
            ValueErrorView::DurationSuffix(unit),
        ),
        duration_value(unit) == Err::<Duration, ValueErrorView>(
            ValueErrorView::DurationWithoutDigits,
        ),
        duration_value(Seq::empty()) == Err::<Duration, ValueErrorView>(
            ValueErrorView::EmptyDuration,
        ),
{
    reveal_strlit("");
    text::law_decimal_reads_back(n as nat, u64::MAX as nat);
    lemma_number_and_unit(n as nat, unit);
    assert(unit.len() > 0) by {
        if unit.len() == 0 {
            assert(unit =~= ""@);
        }
    }
    assert('a' <= unit[0]);
    assert('a' <= unit[unit.len() - 1]);
    assert(!text::whitespace(unit[0]) && !text::whitespace(unit.last()));
    assert(text::trimmed(unit) == unit);
}

/// A size is as large as it says: a number of bytes, of thousands and millions
/// of them, or of their binary counterparts; one that does not fit is refused.
pub proof fn law_sizes_are_as_large_as_they_say(n: usize, unit: Seq<char>, factor: nat)
    requires
        ({
            ||| factor == 1 && (unit == ""@ || unit == "b"@)
            ||| factor == 1000 && (unit == "k"@ || unit == "kb"@)
            ||| factor == 1024 && (unit == "ki"@ || unit == "kib"@)
            ||| factor == 1000 * 1000 && (unit == "m"@ || unit == "mb"@)
            ||| factor == 1024 * 1024 && (unit == "mi"@ || unit == "mib"@)
        }),
    ensures
        n * factor <= usize::MAX ==> byte_size_value(text::decimal(n as nat) + unit) == Ok::<
            usize,
            ValueErrorView,
        >((n * factor) as usize),
        n * factor > usize::MAX ==> byte_size_value(text::decimal(n as nat) + unit) == Err::<
            usize,
            ValueErrorView,
        >(ValueErrorView::ByteSizeTooLarge),
{
    lemma_size_units();
    reveal_strlit("");
    reveal_strlit("b");
    reveal_strlit("k");
    reveal_strlit("kb");
    reveal_strlit("ki");
    reveal_strlit("kib");
    reveal_strlit("m");
    reveal_strlit("mb");
    reveal_strlit("mi");
    reveal_strlit("mib");
    assert forall|i: int| 0 <= i < unit.len() implies 'a' <= #[trigger] unit[i] <= 'z' by {
        assert(unit.len() <= 3);
        assert(i == 0 || i == 1 || i == 2);
    }
    lemma_number_and_unit(n as nat, unit);
    text::law_decimal_reads_back(n as nat, usize::MAX as nat);
    assert(bytes_per(unit) == Some(factor));
}

proof fn lemma_size_units()
    ensures
        bytes_per(""@) == Some(1nat),
        bytes_per("b"@) == Some(1nat),
        bytes_per("k"@) == Some(1000nat),
        bytes_per("kb"@) == Some(1000nat),
        bytes_per("ki"@) == Some(1024nat),
        bytes_per("kib"@) == Some(1024nat),
        bytes_per("m"@) == Some(1_000_000nat),
        bytes_per("mb"@) == Some(1_000_000nat),
        bytes_per("mi"@) == Some(1_048_576nat),
        bytes_per("mib"@) == Some(1_048_576nat),
{
    reveal_strlit("");
    reveal_strlit("b");
    reveal_strlit("k");
    reveal_strlit("kb");
    reveal_strlit("ki");
    reveal_strlit("kib");
    reveal_strlit("m");
    reveal_strlit("mb");
    reveal_strlit("mi");
    reveal_strlit("mib");
    assert(""@.len() == 0);
    assert("b"@.len() == 1 && "k"@.len() == 1 && "m"@.len() == 1);
    assert("kb"@.len() == 2 && "ki"@.len() == 2 && "mb"@.len() == 2 && "mi"@.len() == 2);
    assert("kib"@.len() == 3 && "mib"@.len() == 3);
    assert("k"@[0] != "b"@[0]);
    assert("m"@[0] != "b"@[0]);
    assert("m"@[0] != "k"@[0]);
    assert("ki"@[1] != "kb"@[1]);
    assert("mb"@[0] != "kb"@[0]);
    assert("mb"@[0] != "ki"@[0]);
    assert("mi"@[0] != "kb"@[0]);
    assert("mi"@[0] != "ki"@[0]);
    assert("mi"@[1] != "mb"@[1]);
    assert("mib"@[0] != "kib"@[0]);
}

/// A size with a unit that is none is refused, with the unit; so is one that is
/// empty or begins without a digit.
pub proof fn law_sizes_need_a_unit_that_is_one(n: usize, unit: Seq<char>)
    requires
        forall|i: int| 0 <= i < unit.len() ==> 'a' <= #[trigger] unit[i] <= 'z',
        unit != ""@ && unit != "b"@ && unit != "k"@ && unit != "kb"@ && unit != "ki"@ && unit
            != "kib"@ && unit != "m"@ && unit != "mb"@ && unit != "mi"@ && unit != "mib"@,
    ensures
        byte_size_value(text::decimal(n as nat) + unit) == Err::<usize, ValueErrorView>(
            ValueErrorView::ByteSizeSuffix(unit),
        ),
        byte_size_value(unit) == Err::<usize, ValueErrorView>(
            ValueErrorView::ByteSizeWithoutDigits,
        ),
        byte_size_value(Seq::empty()) == Err::<usize, ValueErrorView>(
            ValueErrorView::EmptyByteSize,
        ),
{
    reveal_strlit("");
    text::law_decimal_reads_back(n as nat, usize::MAX as nat);
    lemma_number_and_unit(n as nat, unit);
    assert(unit.len() > 0) by {
        if unit.len() == 0 {
            assert(unit =~= ""@);
        }
    }
    assert('a' <= unit[0]);
    assert('a' <= unit[unit.len() - 1]);
    assert(!text::whitespace(unit[0]) && !text::whitespace(unit.last()));
    assert(text::trimmed(unit) == unit);
}

/// White space around a value and the letter case of its unit do not matter.
pub proof fn law_values_are_read_without_white_space(s: Seq<char>, t: Seq<char>)
    requires
        text::trimmed(s) == text::trimmed(t),
    ensures
        bool_value(s) == bool_value(t),
        duration_value(s) == duration_value(t),
        byte_size_value(s) == byte_size_value(t),
{
}

/// What is read as text is read by these rules.
pub proof fn law_values_are_read_by_these_rules(
    input: &str,
    span: Result<Duration, ValueError>,
    size: Result<usize, ValueError>,
)
    requires
        call_ensures(parse_duration, (input,), span),
        call_ensures(parse_byte_size, (input,), size),
    ensures
        span is Ok <==> duration_value(input@) is Ok,
        span is Ok ==> span->Ok_0 == duration_value(input@)->Ok_0,
        size is Ok <==> byte_size_value(input@) is Ok,
        size is Ok ==> size->Ok_0 == byte_size_value(input@)->Ok_0,
{
}

/// What is wrong with a value is told in words that carry the value where it is
/// of use.
pub proof fn law_value_errors_are_told_in_words(e: ValueError, words: String)
    requires
        call_ensures(ValueError::message, (&e,), words),
    ensures
        e is Integer <==> e@ is Integer,
        e is NotBoolean <==> e@ is NotBoolean,
        e is EmptyDuration <==> e@ is EmptyDuration,
        e is DurationWithoutDigits <==> e@ is DurationWithoutDigits,
        e is DurationSuffix <==> e@ is DurationSuffix,
        e is EmptyByteSize <==> e@ is EmptyByteSize,
        e is ByteSizeWithoutDigits <==> e@ is ByteSizeWithoutDigits,
        e is ByteSizeSuffix <==> e@ is ByteSizeSuffix,
        e is ByteSizeTooLarge <==> e@ is ByteSizeTooLarge,
        e is UnknownLogLevel <==> e@ is UnknownLogLevel,
        e is UnknownExecMode <==> e@ is UnknownExecMode,
        words@ == (match e@ {
            ValueErrorView::Integer(IntegerError::Empty) =>
                "cannot parse integer from empty string"@,
            ValueErrorView::Integer(IntegerError::InvalidDigit) =>
                "invalid digit found in string"@,
            ValueErrorView::Integer(IntegerError::TooLarge) =>
                "number too large to fit in target type"@,
            ValueErrorView::NotBoolean(s) => "expected yes/no boolean, got "@ + s,
            ValueErrorView::EmptyDuration => "duration must not be empty"@,
            ValueErrorView::DurationWithoutDigits => "duration must start with digits"@,
            ValueErrorView::DurationSuffix(s) => "unsupported duration suffix: "@ + s,
            ValueErrorView::EmptyByteSize => "byte size must not be empty"@,
            ValueErrorView::ByteSizeWithoutDigits => "byte size must start with digits"@,
            ValueErrorView::ByteSizeSuffix(s) => "unsupported byte size suffix: "@ + s,
            ValueErrorView::ByteSizeTooLarge => "byte size is too large"@,
            ValueErrorView::UnknownLogLevel(s) => "unsupported LogLevel value: "@ + s,
            ValueErrorView::UnknownExecMode(s) => "unsupported ExecMode value: "@ + s,
        }),
{
}

} // verus!

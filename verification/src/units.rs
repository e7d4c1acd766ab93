//! Sizes and durations as people write them.
use crate::duration::Duration;
use crate::errors::{PolicyError, PolicyFault};
use crate::number::{
    decimal, decimal_text, is_digit, lemma_decimal, lemma_parsed_decimal, parse_u64, parsed_u64,
};
use crate::text::{
    has_suffix, lemma_lowered_fixed, lemma_trimmed_fixed, lowercase, lowered, strip_suffix, trim,
    trimmed,
};
use vstd::prelude::*;

verus! {

broadcast use vstd::seq::group_seq_axioms;

/// The product of two numbers, or the largest `u64` where that is smaller.
pub open spec fn capped_product(a: u64, b: u64) -> u64 {
    if a * b <= u64::MAX {
        (a * b) as u64
    } else {
        u64::MAX
    }
}

/// `s` without its last `n` characters.
pub open spec fn without_last(s: Seq<char>, n: int) -> Seq<char> {
    s.take(s.len() - n)
}

/// A size is a number and a unit in bytes. The units are powers of 1024; a number
/// without a unit counts bytes.
pub open spec fn size_parts(t: Seq<char>) -> (Seq<char>, u64) {
    if has_suffix(t, "kb"@) {
        (without_last(t, 2), 1024)
    } else if has_suffix(t, "k"@) {
        (without_last(t, 1), 1024)
    } else if has_suffix(t, "mb"@) {
        (without_last(t, 2), 1_048_576)
    } else if has_suffix(t, "m"@) {
        (without_last(t, 1), 1_048_576)
    } else if has_suffix(t, "gb"@) {
        (without_last(t, 2), 1_073_741_824)
    } else if has_suffix(t, "g"@) {
        (without_last(t, 1), 1_073_741_824)
    } else if has_suffix(t, "tb"@) {
        (without_last(t, 2), 1_099_511_627_776)
    } else if has_suffix(t, "t"@) {
        (without_last(t, 1), 1_099_511_627_776)
    } else {
        (t, 1)
    }
}

/// A duration is a number and a unit in milliseconds; a number without a unit counts
/// seconds.
pub open spec fn duration_parts(t: Seq<char>) -> (Seq<char>, u64) {
    if has_suffix(t, "ms"@) {
        (without_last(t, 2), 1)
    } else if has_suffix(t, "s"@) {
        (without_last(t, 1), 1_000)
    } else if has_suffix(t, "m"@) {
        (without_last(t, 1), 60_000)
    } else if has_suffix(t, "h"@) {
        (without_last(t, 1), 3_600_000)
    } else {
        (t, 1_000)
    }
}

/// The quantity that a number and its unit denote.
pub open spec fn quantity(parts: (Seq<char>, u64)) -> Option<u64> {
    match parsed_u64(trimmed(parts.0)) {
        Some(n) => Some(capped_product(n, parts.1)),
        None => None,
    }
}

/// The number of bytes that `input` denotes. Letter case and surrounding white space
/// do not count.
pub open spec fn parsed_size(input: Seq<char>) -> Option<u64> {
    quantity(size_parts(lowered(trimmed(input))))
}

/// The number of milliseconds that `input` denotes. Letter case and surrounding white
/// space do not count.
pub open spec fn parsed_millis(input: Seq<char>) -> Option<u64> {
    quantity(duration_parts(lowered(trimmed(input))))
}

/// `bytes` in the largest binary unit up to gigabytes that divides it.
pub open spec fn formatted_bytes(bytes: nat) -> Seq<char> {
    if bytes >= 1_073_741_824 && bytes % 1_073_741_824 == 0 {
        decimal(bytes / 1_073_741_824) + "g"@
    } else if bytes >= 1_048_576 && bytes % 1_048_576 == 0 {
        decimal(bytes / 1_048_576) + "m"@
    } else if bytes >= 1024 && bytes % 1024 == 0 {
        decimal(bytes / 1024) + "k"@
    } else {
        decimal(bytes)
    }
}

/// `millis` milliseconds in the largest unit up to hours that divides it.
pub open spec fn formatted_millis(millis: nat) -> Seq<char> {
    if millis % 3_600_000 == 0 {
        decimal(millis / 3_600_000) + "h"@
    } else if millis % 60_000 == 0 {
        decimal(millis / 60_000) + "m"@
    } else if millis % 1_000 == 0 {
        decimal(millis / 1_000) + "s"@
    } else {
        decimal(millis) + "ms"@
    }
}

/// A text with a nonempty suffix ends with the suffix's last character.
proof fn lemma_suffix_last(t: Seq<char>, suffix: Seq<char>)
    requires
        suffix.len() > 0,
        has_suffix(t, suffix),
    ensures
        t.len() > 0,
        t.last() == suffix.last(),
{
    assert(t.skip(t.len() - suffix.len()).last() == t.last());
}

/// A number followed by a unit of lower-case letters is its own canonical form, and
/// the number is read back from it.
proof fn lemma_canonical(n: nat, unit: Seq<char>)
    requires
        forall|i: int| 0 <= i < unit.len() ==> 'a' <= #[trigger] unit[i] <= 'z',
    ensures
        lowered(trimmed(decimal(n) + unit)) == decimal(n) + unit,
        trimmed(decimal(n)) == decimal(n),
        without_last(decimal(n) + unit, unit.len() as int) == decimal(n),
        unit.len() > 0 ==> has_suffix(decimal(n) + unit, unit),
{
    let d = decimal(n);
    let t = d + unit;
    lemma_decimal(n);
    assert(is_digit(d[0]));
    assert(is_digit(d[d.len() - 1]));
    if unit.len() == 0 {
        assert(t =~= d);
    } else {
        assert(t.last() == unit[unit.len() - 1]);
        assert(t.skip(d.len() as int) =~= unit);
    }
    assert(t[0] == d[0]);
    lemma_trimmed_fixed(t);
    lemma_trimmed_fixed(d);
    assert forall|i: int| 0 <= i < t.len() implies !('A' <= #[trigger] t[i] <= 'Z') by {
        if i < d.len() {
            assert(is_digit(d[i]));
        } else {
            assert(t[i] == unit[i - d.len()]);
        }
    }
    lemma_lowered_fixed(t);
    assert(t.take(d.len() as int) =~= d);
}

/// No unit of size is found behind a bare number.
proof fn lemma_bare_size(n: nat)
    ensures
        size_parts(decimal(n)) == (decimal(n), 1u64),
{
    let d = decimal(n);
    lemma_decimal(n);
    assert(is_digit(d[d.len() - 1]));
    reveal_strlit("kb");
    reveal_strlit("k");
    reveal_strlit("mb");
    reveal_strlit("m");
    reveal_strlit("gb");
    reveal_strlit("g");
    reveal_strlit("tb");
    reveal_strlit("t");
    assert forall|suffix: Seq<char>|
        suffix.len() > 0 && !is_digit(suffix.last()) implies !#[trigger] has_suffix(d, suffix) by {
        if has_suffix(d, suffix) {
            lemma_suffix_last(d, suffix);
        }
    }
}

/// A text that ends with `last` has no suffix that ends otherwise.
proof fn lemma_other_suffixes(t: Seq<char>, last: char)
    requires
        t.len() > 0,
        t.last() == last,
    ensures
        forall|suffix: Seq<char>|
            suffix.len() > 0 && suffix.last() != last ==> !#[trigger] has_suffix(t, suffix),
{
    assert forall|suffix: Seq<char>| suffix.len() > 0 && suffix.last() != last implies !#[trigger] has_suffix(
        t,
        suffix,
    ) by {
        if has_suffix(t, suffix) {
            lemma_suffix_last(t, suffix);
        }
    }
}

/// Reading a formatted size gives back the size, whatever it is.
pub proof fn lemma_size_roundtrip(bytes: u64)
    ensures
        parsed_size(formatted_bytes(bytes as nat)) == Some(bytes),
{
    reveal_strlit("kb");
    reveal_strlit("k");
    reveal_strlit("mb");
    reveal_strlit("m");
    reveal_strlit("gb");
    reveal_strlit("g");
    let b = bytes as nat;
    let t = formatted_bytes(b);
    if bytes >= 1_073_741_824 && bytes % 1_073_741_824 == 0 {
        let n = b / 1_073_741_824;
        lemma_canonical(n, "g"@);
        lemma_other_suffixes(t, 'g');
        lemma_parsed_decimal(n as u64);
    } else if bytes >= 1_048_576 && bytes % 1_048_576 == 0 {
        let n = b / 1_048_576;
        lemma_canonical(n, "m"@);
        lemma_other_suffixes(t, 'm');
        lemma_parsed_decimal(n as u64);
    } else if bytes >= 1024 && bytes % 1024 == 0 {
        let n = b / 1024;
        lemma_canonical(n, "k"@);
        lemma_other_suffixes(t, 'k');
        lemma_parsed_decimal(n as u64);
    } else {
        lemma_canonical(b, Seq::<char>::empty());
        assert(decimal(b) + Seq::<char>::empty() =~= decimal(b));
        lemma_bare_size(b);
        lemma_parsed_decimal(bytes);
    }
}

/// Reading a formatted duration of whole milliseconds gives back the duration, as long
/// as it fits the range that can be read.
pub proof fn lemma_duration_roundtrip(millis: u64)
    ensures
        parsed_millis(formatted_millis(millis as nat)) == Some(millis),
{
    reveal_strlit("ms");
    reveal_strlit("s");
    reveal_strlit("m");
    reveal_strlit("h");
    let ms = millis as nat;
    let t = formatted_millis(ms);
    if ms % 3_600_000 == 0 {
        let n = ms / 3_600_000;
        lemma_canonical(n, "h"@);
        assert(t == decimal(n) + "h"@);
        lemma_other_suffixes(t, 'h');
        assert(duration_parts(t) == (decimal(n), 3_600_000u64));
        lemma_parsed_decimal(n as u64);
        assert(n * 3_600_000 == ms);
    } else if ms % 60_000 == 0 {
        let n = ms / 60_000;
        lemma_canonical(n, "m"@);
        assert(t == decimal(n) + "m"@);
        lemma_other_suffixes(t, 'm');
        assert(duration_parts(t) == (decimal(n), 60_000u64));
        lemma_parsed_decimal(n as u64);
        assert(n * 60_000 == ms);
    } else if ms % 1_000 == 0 {
        let n = ms / 1_000;
        lemma_canonical(n, "s"@);
        lemma_decimal(n);
        assert(is_digit(decimal(n)[decimal(n).len() - 1]));
        assert(t[t.len() - 2] == decimal(n)[decimal(n).len() - 1]);
        if has_suffix(t, "ms"@) {
            assert(t.skip(t.len() - 2)[0] == t[t.len() - 2]);
        }
        assert(duration_parts(t) == (decimal(n), 1_000u64));
        lemma_parsed_decimal(n as u64);
        assert(n * 1_000 == ms);
    } else {
        lemma_canonical(ms, "ms"@);
        assert(duration_parts(t) == (decimal(ms), 1u64));
        lemma_parsed_decimal(millis);
    }
}

/// `a` times `b`, or the largest `u64` where the product is larger.
fn saturating_product(a: u64, b: u64) -> (r: u64)
    ensures
        r == capped_product(a, b),
{
    match a.checked_mul(b) {
        Some(product) => product,
        None => u64::MAX,
    }
}

/// The number and the unit of a size.
fn split_size(t: &str) -> (parts: (String, u64))
    ensures
        (parts.0@, parts.1) == size_parts(t@),
{
    proof {
        reveal_strlit("kb");
        reveal_strlit("k");
        reveal_strlit("mb");
        reveal_strlit("m");
        reveal_strlit("gb");
        reveal_strlit("g");
        reveal_strlit("tb");
        reveal_strlit("t");
    }
    if let Some(value) = strip_suffix(t, "kb") {
        (value, 1024)
    } else if let Some(value) = strip_suffix(t, "k") {
        (value, 1024)
    } else if let Some(value) = strip_suffix(t, "mb") {
        (value, 1_048_576)
    } else if let Some(value) = strip_suffix(t, "m") {
        (value, 1_048_576)
    } else if let Some(value) = strip_suffix(t, "gb") {
        (value, 1_073_741_824)
    } else if let Some(value) = strip_suffix(t, "g") {
        (value, 1_073_741_824)
    } else if let Some(value) = strip_suffix(t, "tb") {
        (value, 1_099_511_627_776)
    } else if let Some(value) = strip_suffix(t, "t") {
        (value, 1_099_511_627_776)
    } else {
        (t.to_string(), 1)
    }
}

/// The number and the unit of a duration.
fn split_duration(t: &str) -> (parts: (String, u64))
    ensures
        (parts.0@, parts.1) == duration_parts(t@),
{
    proof {
        reveal_strlit("ms");
        reveal_strlit("s");
        reveal_strlit("m");
        reveal_strlit("h");
    }
    if let Some(value) = strip_suffix(t, "ms") {
        (value, 1)
    } else if let Some(value) = strip_suffix(t, "s") {
        (value, 1_000)
    } else if let Some(value) = strip_suffix(t, "m") {
        (value, 60_000)
    } else if let Some(value) = strip_suffix(t, "h") {
        (value, 3_600_000)
    } else {
        (t.to_string(), 1_000)
    }
}

/// The quantity that a number and its unit denote.
fn read_quantity(number: &str, unit: u64) -> (r: Option<u64>)
    ensures
        r == quantity((number@, unit)),
{
    match parse_u64(trim(number).as_str()) {
        Some(n) => Some(saturating_product(n, unit)),
        None => None,
    }
}

/// Reads a size such as `512m` or `1 GB` into bytes. A size beyond the range of `u64`
/// is taken as its largest value.
pub fn parse_human_size(input: &str) -> (r: Result<u64, PolicyError>)
    ensures
        match r {
            Ok(bytes) => parsed_size(input@) == Some(bytes),
            Err(error) => parsed_size(input@) is None && error@ == PolicyFault::InvalidSize(input@),
        },
{
    let canonical = lowercase(trim(input).as_str());
    let (number, unit) = split_size(canonical.as_str());
    match read_quantity(number.as_str(), unit) {
        Some(bytes) => Ok(bytes),
        None => Err(PolicyError::InvalidSize(input.to_string())),
    }
}

/// Reads a duration such as `250ms`, `60s`, `5m` or `1h`.
pub fn parse_human_duration(input: &str) -> (r: Result<Duration, PolicyError>)
    ensures
        match r {
            Ok(span) => parsed_millis(input@) matches Some(millis) && span@ == millis * 1_000_000,
            Err(error) => parsed_millis(input@) is None && error@ == PolicyFault::InvalidDuration(
                input@,
            ),
        },
{
    let canonical = lowercase(trim(input).as_str());
    let (number, unit) = split_duration(canonical.as_str());
    match read_quantity(number.as_str(), unit) {
        Some(millis) => Ok(Duration::from_millis(millis)),
        None => Err(PolicyError::InvalidDuration(input.to_string())),
    }
}

/// The decimal numeral of `n` followed by a unit.
fn with_unit(n: u128, unit: &str) -> (out: String)
    ensures
        out@ == decimal(n as nat) + unit@,
{
    let mut out = decimal_text(n);
    out.append(unit);
    out
}

/// A size in the largest binary unit up to gigabytes that divides it.
pub fn format_bytes(bytes: u64) -> (out: String)
    ensures
        out@ == formatted_bytes(bytes as nat),
{
    if bytes >= 1_073_741_824 && bytes % 1_073_741_824 == 0 {
        with_unit((bytes / 1_073_741_824) as u128, "g")
    } else if bytes >= 1_048_576 && bytes % 1_048_576 == 0 {
        with_unit((bytes / 1_048_576) as u128, "m")
    } else if bytes >= 1024 && bytes % 1024 == 0 {
        with_unit((bytes / 1024) as u128, "k")
    } else {
        decimal_text(bytes as u128)
    }
}

/// A duration, cut to whole milliseconds, in the largest unit up to hours that divides
/// it.
pub fn format_duration(duration: Duration) -> (out: String)
    ensures
        out@ == formatted_millis(duration@ / 1_000_000),
{
    let millis = duration.as_millis();
    if millis % 3_600_000 == 0 {
        with_unit(millis / 3_600_000, "h")
    } else if millis % 60_000 == 0 {
        with_unit(millis / 60_000, "m")
    } else if millis % 1_000 == 0 {
        with_unit(millis / 1_000, "s")
    } else {
        with_unit(millis, "ms")
    }
}

} // verus!

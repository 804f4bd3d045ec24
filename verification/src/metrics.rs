//! Metrics of the whole daemon, rendered in the Prometheus text format.
//!
//! A couple of dozen counters, gauges and fixed-bucket histograms live in one
//! [`Registry`]; rendering walks it and writes text, once per scrape. Values
//! that only exist at scrape time (queue depths, transport statistics, process
//! usage) are appended by the metrics server.
//!
//! Fractional values are doubles, kept as their bit patterns. Their decimal
//! texts are produced by whoever scrapes and handed to [`render`].

use crate::double::{at_most, times_floor};
#[allow(unused_imports)]
use crate::double::{
    at_most_bound, cap, double_of, exponent_field, half_even, hidden_bit, lemma_bit_length_between,
    lemma_same_order, nearest_to_ratio, product_floor, product_nearest, round53, sign_bit, Double,
};
use crate::text::{push_decimal, push_seconds, push_signed};
#[allow(unused_imports)]
use crate::text::{all_digits, decimal, digits_value, is_digit, seconds_text, signed_decimal};
#[allow(unused_imports)]
use vstd::arithmetic::power2::{lemma2_to64, lemma2_to64_rest, lemma_pow2_unfold, pow2};
use vstd::prelude::*;

verus! {

/// Addition in 64 bits, wrapping around.
pub open spec fn wrapping_sum(a: u64, b: nat) -> int {
    (a + b) % 0x1_0000_0000_0000_0000
}

/// A number that only grows, wrapping around after 2^64.
#[derive(Debug, Clone, Copy, PartialEq, Eq, Structural)]
pub struct Counter {
    pub value: u64,
}

impl Default for Counter {
    fn default() -> (r: Counter)
        ensures
            r.value == 0,
    {
        Counter::new()
    }
}

impl Counter {
    pub fn new() -> (r: Counter)
        ensures
            r.value == 0,
    {
        Counter { value: 0 }
    }

    pub fn inc(&mut self)
        ensures
            final(self).value == wrapping_sum(old(self).value, 1),
    {
        self.value = self.value.wrapping_add(1);
    }

    pub fn add(&mut self, amount: u64)
        ensures
            final(self).value == wrapping_sum(old(self).value, amount as nat),
    {
        self.value = self.value.wrapping_add(amount);
    }

    pub fn get(&self) -> (r: u64)
        ensures
            r == self.value,
    {
        self.value
    }
}

/// A whole number that can be set (worker up or down, failure streak,
/// negotiated width).
#[derive(Debug, Clone, Copy, PartialEq, Eq, Structural)]
pub struct Gauge {
    pub value: i64,
}

impl Gauge {
    pub fn new(initial: i64) -> (r: Gauge)
        ensures
            r.value == initial,
    {
        Gauge { value: initial }
    }

    pub fn set(&mut self, value: i64)
        ensures
            final(self).value == value,
    {
        self.value = value;
    }

    pub fn get(&self) -> (r: i64)
        ensures
            r == self.value,
    {
        self.value
    }
}

/// A double that can be set, stored as its bit pattern (timestamps, seconds).
#[derive(Debug, Clone, Copy, PartialEq, Eq, Structural)]
pub struct GaugeF {
    pub bits: u64,
}

impl Default for GaugeF {
    fn default() -> (r: GaugeF)
        ensures
            r.bits == 0,
    {
        GaugeF::new()
    }
}

impl GaugeF {
    pub fn new() -> (r: GaugeF)
        ensures
            r.bits == 0,
    {
        GaugeF { bits: 0 }
    }

    pub fn set(&mut self, bits: u64)
        ensures
            final(self).bits == bits,
    {
        self.bits = bits;
    }

    pub fn get(&self) -> (r: u64)
        ensures
            r == self.bits,
    {
        self.bits
    }
}

/// Whole microseconds in a number of seconds, none for a negative one.
pub open spec fn seconds_to_micros(seconds: u64) -> nat {
    product_floor(double_of(seconds), 1_000_000, u64::MAX as nat)
}

/// Elapsed time, accumulated in microseconds.
#[derive(Debug, Clone, Copy, PartialEq, Eq, Structural)]
pub struct SecondsCounter {
    pub micros: u64,
}

impl Default for SecondsCounter {
    fn default() -> (r: SecondsCounter)
        ensures
            r.micros == 0,
    {
        SecondsCounter::new()
    }
}

impl SecondsCounter {
    pub fn new() -> (r: SecondsCounter)
        ensures
            r.micros == 0,
    {
        SecondsCounter { micros: 0 }
    }

    /// Adds a duration, given as the bit pattern of its seconds.
    pub fn add_seconds(&mut self, seconds: u64)
        ensures
            final(self).micros == wrapping_sum(old(self).micros, seconds_to_micros(seconds)),
    {
        self.micros = self.micros.wrapping_add(times_floor(seconds, 1_000_000, u64::MAX));
    }

    pub fn micros(&self) -> (r: u64)
        ensures
            r == self.micros,
    {
        self.micros
    }
}

/// Upper bounds of the latency buckets in seconds, as bit patterns, ascending.
pub const LATENCY_BUCKETS: [u64; 13] = [
    0x3f40_624d_d2f1_a9fc,
    0x3f50_624d_d2f1_a9fc,
    0x3f60_624d_d2f1_a9fc,
    0x3f74_7ae1_47ae_147b,
    0x3f84_7ae1_47ae_147b,
    0x3f8e_b851_eb85_1eb8,
    0x3f94_7ae1_47ae_147b,
    0x3f9e_b851_eb85_1eb8,
    0x3fa4_7ae1_47ae_147b,
    0x3fa9_9999_9999_999a,
    0x3fb3_3333_3333_3333,
    0x3fc3_3333_3333_3333,
    0x3fe0_0000_0000_0000,
];

/// The same bounds, spelled out.
pub const BUCKET_LABELS: [&'static str; 13] = [
    "0.0005",
    "0.001",
    "0.002",
    "0.005",
    "0.01",
    "0.015",
    "0.02",
    "0.03",
    "0.04",
    "0.05",
    "0.075",
    "0.15",
    "0.5",
];

/// The number that a label spells, in ten-thousandths: the digits behind its
/// point, as many as it has of the four places.
pub open spec fn label_units(label: Seq<char>) -> nat {
    digits_value(label.skip(2)) * if label.len() == 3 {
        1000
    } else if label.len() == 4 {
        100
    } else if label.len() == 5 {
        10
    } else {
        1nat
    }
}

/// Each bound is what its label spells: times ten thousand and rounded, the
/// bound is the label's number, and no other double comes nearer to it.
pub proof fn law_bounds_are_their_labels(i: int)
    requires
        0 <= i < 13,
    ensures
        ({
            let label = BUCKET_LABELS@[i]@;
            let bound = double_of(LATENCY_BUCKETS@[i]);
            &&& 3 <= label.len() <= 6
            &&& label[0] == '0' && label[1] == '.'
            &&& all_digits(label.skip(2))
            &&& product_nearest(bound, 10_000, u64::MAX as nat) == label_units(label)
            &&& nearest_to_ratio(bound, label_units(label), 10_000)
        }),
{
    lemma_label(i);
    lemma_bound(i);
}

/// The labels' numbers, in ten-thousandths.
spec fn label_number(i: int) -> nat {
    if i == 0 {
        5
    } else if i == 1 {
        10
    } else if i == 2 {
        20
    } else if i == 3 {
        50
    } else if i == 4 {
        100
    } else if i == 5 {
        150
    } else if i == 6 {
        200
    } else if i == 7 {
        300
    } else if i == 8 {
        400
    } else if i == 9 {
        500
    } else if i == 10 {
        750
    } else if i == 11 {
        1500
    } else {
        5000
    }
}

proof fn lemma_label(i: int)
    requires
        0 <= i < 13,
    ensures
        ({
            let label = BUCKET_LABELS@[i]@;
            &&& 3 <= label.len() <= 6
            &&& label[0] == '0' && label[1] == '.'
            &&& all_digits(label.skip(2))
            &&& label_units(label) == label_number(i)
        }),
{
    if i == 0 {
        reveal_strlit("0.0005");
        assert("0.0005"@.skip(2) =~= seq!['0', '0', '0', '5']);
        lemma_digits("0.0005"@.skip(2));
    } else if i == 1 {
        reveal_strlit("0.001");
        assert("0.001"@.skip(2) =~= seq!['0', '0', '1']);
        lemma_digits("0.001"@.skip(2));
    } else if i == 2 {
        reveal_strlit("0.002");
        assert("0.002"@.skip(2) =~= seq!['0', '0', '2']);
        lemma_digits("0.002"@.skip(2));
    } else if i == 3 {
        reveal_strlit("0.005");
        assert("0.005"@.skip(2) =~= seq!['0', '0', '5']);
        lemma_digits("0.005"@.skip(2));
    } else if i == 4 {
        reveal_strlit("0.01");
        assert("0.01"@.skip(2) =~= seq!['0', '1']);
        lemma_digits("0.01"@.skip(2));
    } else if i == 5 {
        reveal_strlit("0.015");
        assert("0.015"@.skip(2) =~= seq!['0', '1', '5']);
        lemma_digits("0.015"@.skip(2));
    } else if i == 6 {
        reveal_strlit("0.02");
        assert("0.02"@.skip(2) =~= seq!['0', '2']);
        lemma_digits("0.02"@.skip(2));
    } else if i == 7 {
        reveal_strlit("0.03");
        assert("0.03"@.skip(2) =~= seq!['0', '3']);
        lemma_digits("0.03"@.skip(2));
    } else if i == 8 {
        reveal_strlit("0.04");
        assert("0.04"@.skip(2) =~= seq!['0', '4']);
        lemma_digits("0.04"@.skip(2));
    } else if i == 9 {
        reveal_strlit("0.05");
        assert("0.05"@.skip(2) =~= seq!['0', '5']);
        lemma_digits("0.05"@.skip(2));
    } else if i == 10 {
        reveal_strlit("0.075");
        assert("0.075"@.skip(2) =~= seq!['0', '7', '5']);
        lemma_digits("0.075"@.skip(2));
    } else if i == 11 {
        reveal_strlit("0.15");
        assert("0.15"@.skip(2) =~= seq!['1', '5']);
        lemma_digits("0.15"@.skip(2));
    } else {
        reveal_strlit("0.5");
        assert("0.5"@.skip(2) =~= seq!['5']);
        lemma_digits("0.5"@.skip(2));
    }
}

proof fn lemma_digits(s: Seq<char>)
    requires
        1 <= s.len() <= 4,
        all_digits(s),
    ensures
        s.len() == 1 ==> digits_value(s) == s[0] as int - 48,
        s.len() == 2 ==> digits_value(s) == (s[0] as int - 48) * 10 + (s[1] as int - 48),
        s.len() == 3 ==> digits_value(s) == (s[0] as int - 48) * 100 + (s[1] as int - 48) * 10 + (
        s[2] as int - 48),
        s.len() == 4 ==> digits_value(s) == (s[0] as int - 48) * 1000 + (s[1] as int - 48) * 100 + (
        s[2] as int - 48) * 10 + (s[3] as int - 48),
    decreases s.len(),
{
    assert(is_digit(s.last()));
    if s.len() > 1 {
        let front = s.drop_last();
        assert forall|k: int| 0 <= k < front.len() implies is_digit(#[trigger] front[k]) by {
            assert(is_digit(s[k]));
        }
        lemma_digits(front);
    } else {
        reveal_with_fuel(digits_value, 2);
    }
}

/// What [`law_bounds_are_their_labels`] says of a bound, from its mantissa, its
/// exponent, and the product of ten thousand with them, rounded.
proof fn lemma_bound_by_parts(
    bits: u64,
    mantissa: nat,
    shift: nat,
    len: nat,
    unit: nat,
    rounded: nat,
    units: nat,
)
    requires
        double_of(bits) == (Double::Finite { negative: false, mantissa, exponent: -shift }),
        hidden_bit() <= mantissa < 2 * hidden_bit(),
        0 < shift,
        53 < len,
        pow2((len - 1) as nat) <= mantissa * 10_000 < pow2(len),
        unit == pow2((len - 53) as nat),
        rounded == half_even(mantissa * 10_000, unit) * unit,
        units == (2 * rounded + pow2(shift)) / pow2(shift + 1),
        units <= u64::MAX,
        mantissa == half_even(units * pow2(shift), 10_000),
    ensures
        product_nearest(double_of(bits), 10_000, u64::MAX as nat) == units,
        nearest_to_ratio(double_of(bits), units, 10_000),
{
    lemma_bit_length_between(mantissa * 10_000, len);
    assert(round53(mantissa * 10_000) == rounded);
}

proof fn lemma_bound(i: int)
    requires
        0 <= i < 13,
    ensures
        product_nearest(double_of(LATENCY_BUCKETS@[i]), 10_000, u64::MAX as nat) == label_number(i),
        nearest_to_ratio(double_of(LATENCY_BUCKETS@[i]), label_number(i), 10_000),
{
    lemma2_to64();
    lemma2_to64_rest();
    lemma_pow2_unfold(65);
    lemma_pow2_unfold(66);
    lemma_pow2_unfold(67);
    if i == 0 {
        assert(half_even(0x2_8000_0000_0000_03c0, 8192) == 0x14_0000_0000_0000);
        assert((2 * 0x2_8000_0000_0000_0000nat + 0x8000_0000_0000_0000) / 0x1_0000_0000_0000_0000 == 5);
        assert(half_even(0x2_8000_0000_0000_0000, 10_000) == 0x10_624d_d2f1_a9fc);
        lemma_bound_by_parts(0x3f40_624d_d2f1_a9fc, 0x10_624d_d2f1_a9fc, 63, 66, 8192, 0x2_8000_0000_0000_0000, 5);
    } else if i == 1 {
        assert(half_even(0x2_8000_0000_0000_03c0, 8192) == 0x14_0000_0000_0000);
        assert((2 * 0x2_8000_0000_0000_0000nat + 0x4000_0000_0000_0000) / 0x8000_0000_0000_0000 == 10);
        assert(half_even(0x2_8000_0000_0000_0000, 10_000) == 0x10_624d_d2f1_a9fc);
        lemma_bound_by_parts(0x3f50_624d_d2f1_a9fc, 0x10_624d_d2f1_a9fc, 62, 66, 8192, 0x2_8000_0000_0000_0000, 10);
    } else if i == 2 {
        assert(half_even(0x2_8000_0000_0000_03c0, 8192) == 0x14_0000_0000_0000);
        assert((2 * 0x2_8000_0000_0000_0000nat + 0x2000_0000_0000_0000) / 0x4000_0000_0000_0000 == 20);
        assert(half_even(0x2_8000_0000_0000_0000, 10_000) == 0x10_624d_d2f1_a9fc);
        lemma_bound_by_parts(0x3f60_624d_d2f1_a9fc, 0x10_624d_d2f1_a9fc, 61, 66, 8192, 0x2_8000_0000_0000_0000, 20);
    } else if i == 3 {
        assert(half_even(0x3_2000_0000_0000_04b0, 8192) == 0x19_0000_0000_0000);
        assert((2 * 0x3_2000_0000_0000_0000nat + 0x1000_0000_0000_0000) / 0x2000_0000_0000_0000 == 50);
        assert(half_even(0x3_2000_0000_0000_0000, 10_000) == 0x14_7ae1_47ae_147b);
        lemma_bound_by_parts(0x3f74_7ae1_47ae_147b, 0x14_7ae1_47ae_147b, 60, 66, 8192, 0x3_2000_0000_0000_0000, 50);
    } else if i == 4 {
        assert(half_even(0x3_2000_0000_0000_04b0, 8192) == 0x19_0000_0000_0000);
        assert((2 * 0x3_2000_0000_0000_0000nat + 0x800_0000_0000_0000) / 0x1000_0000_0000_0000 == 100);
        assert(half_even(0x3_2000_0000_0000_0000, 10_000) == 0x14_7ae1_47ae_147b);
        lemma_bound_by_parts(0x3f84_7ae1_47ae_147b, 0x14_7ae1_47ae_147b, 59, 66, 8192, 0x3_2000_0000_0000_0000, 100);
    } else if i == 5 {
        assert(half_even(0x4_afff_ffff_ffff_f380, 16384) == 0x12_c000_0000_0000);
        assert((2 * 0x4_b000_0000_0000_0000nat + 0x800_0000_0000_0000) / 0x1000_0000_0000_0000 == 150);
        assert(half_even(0x4_b000_0000_0000_0000, 10_000) == 0x1e_b851_eb85_1eb8);
        lemma_bound_by_parts(0x3f8e_b851_eb85_1eb8, 0x1e_b851_eb85_1eb8, 59, 67, 16384, 0x4_b000_0000_0000_0000, 150);
    } else if i == 6 {
        assert(half_even(0x3_2000_0000_0000_04b0, 8192) == 0x19_0000_0000_0000);
        assert((2 * 0x3_2000_0000_0000_0000nat + 0x400_0000_0000_0000) / 0x800_0000_0000_0000 == 200);
        assert(half_even(0x3_2000_0000_0000_0000, 10_000) == 0x14_7ae1_47ae_147b);
        lemma_bound_by_parts(0x3f94_7ae1_47ae_147b, 0x14_7ae1_47ae_147b, 58, 66, 8192, 0x3_2000_0000_0000_0000, 200);
    } else if i == 7 {
        assert(half_even(0x4_afff_ffff_ffff_f380, 16384) == 0x12_c000_0000_0000);
        assert((2 * 0x4_b000_0000_0000_0000nat + 0x400_0000_0000_0000) / 0x800_0000_0000_0000 == 300);
        assert(half_even(0x4_b000_0000_0000_0000, 10_000) == 0x1e_b851_eb85_1eb8);
        lemma_bound_by_parts(0x3f9e_b851_eb85_1eb8, 0x1e_b851_eb85_1eb8, 58, 67, 16384, 0x4_b000_0000_0000_0000, 300);
    } else if i == 8 {
        assert(half_even(0x3_2000_0000_0000_04b0, 8192) == 0x19_0000_0000_0000);
        assert((2 * 0x3_2000_0000_0000_0000nat + 0x200_0000_0000_0000) / 0x400_0000_0000_0000 == 400);
        assert(half_even(0x3_2000_0000_0000_0000, 10_000) == 0x14_7ae1_47ae_147b);
        lemma_bound_by_parts(0x3fa4_7ae1_47ae_147b, 0x14_7ae1_47ae_147b, 57, 66, 8192, 0x3_2000_0000_0000_0000, 400);
    } else if i == 9 {
        assert(half_even(0x3_e800_0000_0000_0fa0, 8192) == 0x1f_4000_0000_0000);
        assert((2 * 0x3_e800_0000_0000_0000nat + 0x200_0000_0000_0000) / 0x400_0000_0000_0000 == 500);
        assert(half_even(0x3_e800_0000_0000_0000, 10_000) == 0x19_9999_9999_999a);
        lemma_bound_by_parts(0x3fa9_9999_9999_999a, 0x19_9999_9999_999a, 57, 66, 8192, 0x3_e800_0000_0000_0000, 500);
    } else if i == 10 {
        assert(half_even(0x2_edff_ffff_ffff_f830, 8192) == 0x17_7000_0000_0000);
        assert((2 * 0x2_ee00_0000_0000_0000nat + 0x100_0000_0000_0000) / 0x200_0000_0000_0000 == 750);
        assert(half_even(0x2_ee00_0000_0000_0000, 10_000) == 0x13_3333_3333_3333);
        lemma_bound_by_parts(0x3fb3_3333_3333_3333, 0x13_3333_3333_3333, 56, 66, 8192, 0x2_ee00_0000_0000_0000, 750);
    } else if i == 11 {
        assert(half_even(0x2_edff_ffff_ffff_f830, 8192) == 0x17_7000_0000_0000);
        assert((2 * 0x2_ee00_0000_0000_0000nat + 0x80_0000_0000_0000) / 0x100_0000_0000_0000 == 1500);
        assert(half_even(0x2_ee00_0000_0000_0000, 10_000) == 0x13_3333_3333_3333);
        lemma_bound_by_parts(0x3fc3_3333_3333_3333, 0x13_3333_3333_3333, 55, 66, 8192, 0x2_ee00_0000_0000_0000, 1500);
    } else {
        assert(half_even(0x2_7100_0000_0000_0000, 8192) == 0x13_8800_0000_0000);
        assert((2 * 0x2_7100_0000_0000_0000nat + 0x20_0000_0000_0000) / 0x40_0000_0000_0000 == 5000);
        assert(half_even(0x2_7100_0000_0000_0000, 10_000) == 0x10_0000_0000_0000);
        lemma_bound_by_parts(0x3fe0_0000_0000_0000, 0x10_0000_0000_0000, 53, 66, 8192, 0x2_7100_0000_0000_0000, 5000);
    }
}

/// A latency distribution: how many observations were at most each bound, how
/// many there were in all, and their sum.
#[derive(Debug, Clone, Copy, PartialEq, Eq)]
pub struct Histogram {
    pub buckets: [u64; 13],
    pub sum_us: u64,
    pub count: u64,
}

/// Whether an observation of `seconds` falls under bound `i`.
pub open spec fn under_bound(seconds: u64, i: int) -> bool {
    at_most_bound(double_of(seconds), double_of(LATENCY_BUCKETS@[i]))
}

/// What one observation does to a histogram.
pub open spec fn observes(before: Histogram, after: Histogram, seconds: u64) -> bool {
    &&& forall|i: int|
        0 <= i < 13 ==> #[trigger] after.buckets@[i] == if under_bound(seconds, i) {
            wrapping_sum(before.buckets@[i], 1)
        } else {
            before.buckets@[i] as int
        }
    &&& after.sum_us == wrapping_sum(before.sum_us, seconds_to_micros(seconds))
    &&& after.count == wrapping_sum(before.count, 1)
}

/// Each bucket counts what the one before it counts, and the total counts
/// every observation.
pub open spec fn cumulative(h: Histogram) -> bool {
    &&& forall|i: int, j: int| 0 <= i <= j < 13 ==> h.buckets@[i] <= h.buckets@[j]
    &&& forall|i: int| 0 <= i < 13 ==> h.buckets@[i] <= h.count
}

/// A cumulative histogram stays so through every observation short of wrapping
/// around.
pub proof fn law_histogram_stays_cumulative(before: Histogram, after: Histogram, seconds: u64)
    requires
        cumulative(before),
        before.count < u64::MAX,
        observes(before, after, seconds),
    ensures
        cumulative(after),
{
    assert forall|i: int, j: int| 0 <= i <= j < 13 implies after.buckets@[i]
        <= after.buckets@[j] by {
        if under_bound(seconds, i) {
            lemma_bounds_ascend(seconds, i, j);
        }
    }
}

/// How many observations fall under bound `i`.
pub open spec fn under_count(seconds: Seq<u64>, i: int) -> nat
    decreases seconds.len(),
{
    if seconds.len() == 0 {
        0
    } else {
        under_count(seconds.drop_last(), i) + if under_bound(seconds.last(), i) {
            1nat
        } else {
            0nat
        }
    }
}

/// The whole microseconds of all observations together.
pub open spec fn total_micros(seconds: Seq<u64>) -> nat
    decreases seconds.len(),
{
    if seconds.len() == 0 {
        0
    } else {
        total_micros(seconds.drop_last()) + seconds_to_micros(seconds.last())
    }
}

/// Over any series of observations each bucket grows by the number of those
/// under its bound, the count by their number and the sum by their sum, all of
/// them up to wrapping around.
#[verifier::spinoff_prover]
#[verifier::rlimit(40)]
pub proof fn law_buckets_count_what_was_observed(
    states: Seq<Histogram>,
    seconds: Seq<u64>,
    i: int,
)
    requires
        0 <= i < 13,
        states.len() == seconds.len() + 1,
        forall|k: int|
            0 <= k < seconds.len() ==> #[trigger] observes(states[k], states[k + 1], seconds[k]),
    ensures
        states.last().buckets@[i] == wrapping_sum(states[0].buckets@[i], under_count(seconds, i)),
        states.last().count == wrapping_sum(states[0].count, seconds.len()),
        states.last().sum_us == wrapping_sum(states[0].sum_us, total_micros(seconds)),
    decreases seconds.len(),
{
    if seconds.len() > 0 {
        let before = states.drop_last();
        let earlier = seconds.drop_last();
        assert forall|k: int| 0 <= k < earlier.len() implies #[trigger] observes(
            before[k],
            before[k + 1],
            earlier[k],
        ) by {
            assert(observes(states[k], states[k + 1], seconds[k]));
        }
        law_buckets_count_what_was_observed(before, earlier, i);
        let n = seconds.len() - 1;
        assert(observes(states[n], states[n + 1], seconds[n]));
        assert(before.last() == states[n]);
    }
}

proof fn lemma_bounds_ascend(seconds: u64, i: int, j: int)
    requires
        0 <= i <= j < 13,
        under_bound(seconds, i),
    ensures
        under_bound(seconds, j),
{
    let lo = LATENCY_BUCKETS@[i];
    let hi = LATENCY_BUCKETS@[j];
    assert(lo <= hi);
    if seconds < sign_bit() && exponent_field(seconds) != 2047 {
        lemma_same_order(seconds, lo);
        lemma_same_order(seconds, hi);
    }
}

/// Below this many microseconds a double holds the seconds to the last digit,
/// so that their text can be told without one.
pub const EXACT_MICROS: u64 = 1_000_000_000_000_000;

/// A number of microseconds in seconds. From [`EXACT_MICROS`] on, it is the
/// text of the double that comes nearest.
pub open spec fn seconds_or(us: u64, nearest: Seq<char>) -> Seq<char> {
    if us < EXACT_MICROS {
        seconds_text(us as nat)
    } else {
        nearest
    }
}

fn push_seconds_or(out: &mut String, us: u64, nearest: &str)
    ensures
        final(out)@ == old(out)@ + seconds_or(us, nearest@),
{
    if us < EXACT_MICROS {
        push_seconds(out, us);
    } else {
        out.append(nearest);
    }
}

/// The lines of the first `n` buckets.
pub open spec fn bucket_lines(h: Histogram, name: Seq<char>, n: nat) -> Seq<char>
    decreases n,
{
    if n == 0 {
        seq![]
    } else {
        bucket_lines(h, name, (n - 1) as nat) + (name + "_bucket{le=\""@ + BUCKET_LABELS@[n - 1]@
            + "\"} "@ + decimal(h.buckets@[n - 1] as nat) + "\n"@)
    }
}

/// A histogram as text: its buckets, the bucket without a bound, the sum and
/// the count. `sum` is the text of a sum that is not exact.
pub open spec fn histogram_text(h: Histogram, name: Seq<char>, sum: Seq<char>) -> Seq<char> {
    ("# TYPE "@ + name + " histogram\n"@) + bucket_lines(h, name, 13) + (name
        + "_bucket{le=\"+Inf\"} "@ + decimal(h.count as nat) + "\n"@) + (name + "_sum "@ + seconds_or(
        h.sum_us,
        sum,
    ) + "\n"@) + (name + "_count "@ + decimal(h.count as nat) + "\n"@)
}

impl Default for Histogram {
    fn default() -> (r: Histogram)
        ensures
            r.sum_us == 0,
            r.count == 0,
            forall|i: int| 0 <= i < 13 ==> r.buckets@[i] == 0,
    {
        Histogram::new()
    }
}

impl Histogram {
    pub fn new() -> (r: Histogram)
        ensures
            r.sum_us == 0,
            r.count == 0,
            forall|i: int| 0 <= i < 13 ==> r.buckets@[i] == 0,
            cumulative(r),
    {
        Histogram { buckets: [0; 13], sum_us: 0, count: 0 }
    }

    /// Counts an observation, given as the bit pattern of its seconds.
    pub fn observe_seconds(&mut self, seconds: u64)
        ensures
            observes(*old(self), *final(self), seconds),
    {
        let mut i: usize = 0;
        while i < 13
            invariant
                i <= 13,
                self.sum_us == old(self).sum_us,
                self.count == old(self).count,
                forall|k: int|
                    0 <= k < i ==> #[trigger] self.buckets@[k] == if under_bound(seconds, k) {
                        wrapping_sum(old(self).buckets@[k], 1)
                    } else {
                        old(self).buckets@[k] as int
                    },
                forall|k: int|
                    i <= k < 13 ==> #[trigger] self.buckets@[k] == old(self).buckets@[k],
            decreases 13 - i,
        {
            if at_most(seconds, LATENCY_BUCKETS[i]) {
                self.buckets[i] = self.buckets[i].wrapping_add(1);
            }
            i += 1;
        }
        self.sum_us = self.sum_us.wrapping_add(times_floor(seconds, 1_000_000, u64::MAX));
        self.count = self.count.wrapping_add(1);
    }

    /// Appends the histogram; `sum` is the text of its sum in seconds, which
    /// matters only where the sum is not exact.
    pub fn render(&self, out: &mut String, name: &str, sum: &str)
        ensures
            final(out)@ == old(out)@ + histogram_text(*self, name@, sum@),
    {
        out.append("# TYPE ");
        out.append(name);
        out.append(" histogram\n");
        let ghost before = out@;
        let mut i: usize = 0;
        assert(before + bucket_lines(*self, name@, 0) =~= before);
        while i < 13
            invariant
                i <= 13,
                out@ == before + bucket_lines(*self, name@, i as nat),
            decreases 13 - i,
        {
            let ghost start = out@;
            out.append(name);
            out.append("_bucket{le=\"");
            out.append(BUCKET_LABELS[i]);
            out.append("\"} ");
            push_decimal(out, self.buckets[i]);
            out.append("\n");
            assert(out@ =~= start + (name@ + "_bucket{le=\""@ + BUCKET_LABELS@[i as int]@ + "\"} "@
                + decimal(self.buckets@[i as int] as nat) + "\n"@));
            assert(out@ =~= before + bucket_lines(*self, name@, (i + 1) as nat));
            i += 1;
        }
        out.append(name);
        out.append("_bucket{le=\"+Inf\"} ");
        push_decimal(out, self.count);
        out.append("\n");
        out.append(name);
        out.append("_sum ");
        push_seconds_or(out, self.sum_us, sum);
        out.append("\n");
        out.append(name);
        out.append("_count ");
        push_decimal(out, self.count);
        out.append("\n");
        assert(out@ =~= old(out)@ + histogram_text(*self, name@, sum@));
    }
}

/// Every metric of the daemon.
pub struct Registry {
    // Lifecycle.
    pub up: Gauge,
    // Frame outcomes and latency, updated by the relay.
    pub frames_ai: Counter,
    pub frames_passthrough: Counter,
    pub roundtrip_seconds: Histogram,
    pub worker_processing_seconds: Histogram,
    pub relay_deadline_seconds: GaugeF,
    pub last_ai_frame_timestamp: GaugeF,
    pub stale_acks: Counter,
    pub relay_channel_drops: Counter,
    pub shm_full: Counter,
    // Failover, updated by the control bridge and the watchdog.
    pub failure_streak: Gauge,
    pub worker_healthy: Gauge,
    pub active_branch: Gauge,
    pub branch_switches_to_ai: Counter,
    pub branch_switches_to_passthrough: Counter,
    pub branch_seconds_ai: SecondsCounter,
    pub branch_seconds_passthrough: SecondsCounter,
    // Worker supervision.
    pub worker_up: Gauge,
    pub worker_exits: Counter,
    pub worker_last_exit_code: Gauge,
    pub worker_cpu_seconds: GaugeF,
    pub worker_rss_bytes: Gauge,
    // Media path, updated by pad probes.
    pub input_frames: Counter,
    pub input_interval_seconds: Histogram,
    pub pts_discontinuities: Counter,
    pub input_width: Gauge,
    pub input_height: Gauge,
    pub input_fps: GaugeF,
    pub output_frames: Counter,
    pub sink_bytes: Counter,
    pub sink_buffers: Counter,
    pub keyframes: Counter,
    pub queue_overruns_pass: Counter,
    pub queue_overruns_ai: Counter,
    pub bus_errors: Counter,
    pub bus_warnings: Counter,
    /// Last timestamp of each stream at the muxer, in microseconds; negative
    /// until the stream has been seen.
    pub last_video_pts_us: i64,
    pub last_audio_pts_us: i64,
}

/// A histogram in which nothing has been observed.
pub open spec fn nothing_observed(h: Histogram) -> bool {
    &&& forall|i: int| 0 <= i < 13 ==> h.buckets@[i] == 0
    &&& h.sum_us == 0
    &&& h.count == 0
}

/// A registry in which nothing has happened: every number is zero, and
/// neither stream has reached the muxer.
pub open spec fn untouched(r: Registry) -> bool {
    &&& r.up.value == 0
    &&& r.frames_ai.value == 0
    &&& r.frames_passthrough.value == 0
    &&& nothing_observed(r.roundtrip_seconds)
    &&& nothing_observed(r.worker_processing_seconds)
    &&& r.relay_deadline_seconds.bits == 0
    &&& r.last_ai_frame_timestamp.bits == 0
    &&& r.stale_acks.value == 0
    &&& r.relay_channel_drops.value == 0
    &&& r.shm_full.value == 0
    &&& r.failure_streak.value == 0
    &&& r.worker_healthy.value == 0
    &&& r.active_branch.value == 0
    &&& r.branch_switches_to_ai.value == 0
    &&& r.branch_switches_to_passthrough.value == 0
    &&& r.branch_seconds_ai.micros == 0
    &&& r.branch_seconds_passthrough.micros == 0
    &&& r.worker_up.value == 0
    &&& r.worker_exits.value == 0
    &&& r.worker_last_exit_code.value == 0
    &&& r.worker_cpu_seconds.bits == 0
    &&& r.worker_rss_bytes.value == 0
    &&& r.input_frames.value == 0
    &&& nothing_observed(r.input_interval_seconds)
    &&& r.pts_discontinuities.value == 0
    &&& r.input_width.value == 0
    &&& r.input_height.value == 0
    &&& r.input_fps.bits == 0
    &&& r.output_frames.value == 0
    &&& r.sink_bytes.value == 0
    &&& r.sink_buffers.value == 0
    &&& r.keyframes.value == 0
    &&& r.queue_overruns_pass.value == 0
    &&& r.queue_overruns_ai.value == 0
    &&& r.bus_errors.value == 0
    &&& r.bus_warnings.value == 0
    &&& r.last_video_pts_us == -1
    &&& r.last_audio_pts_us == -1
}

impl Registry {
    pub fn new() -> (r: Registry)
        ensures
            untouched(r),
    {
        Registry {
            up: Gauge::new(0),
            frames_ai: Counter::new(),
            frames_passthrough: Counter::new(),
            roundtrip_seconds: Histogram::new(),
            worker_processing_seconds: Histogram::new(),
            relay_deadline_seconds: GaugeF::new(),
            last_ai_frame_timestamp: GaugeF::new(),
            stale_acks: Counter::new(),
            relay_channel_drops: Counter::new(),
            shm_full: Counter::new(),
            failure_streak: Gauge::new(0),
            worker_healthy: Gauge::new(0),
            active_branch: Gauge::new(0),
            branch_switches_to_ai: Counter::new(),
            branch_switches_to_passthrough: Counter::new(),
            branch_seconds_ai: SecondsCounter::new(),
            branch_seconds_passthrough: SecondsCounter::new(),
            worker_up: Gauge::new(0),
            worker_exits: Counter::new(),
            worker_last_exit_code: Gauge::new(0),
            worker_cpu_seconds: GaugeF::new(),
            worker_rss_bytes: Gauge::new(0),
            input_frames: Counter::new(),
            input_interval_seconds: Histogram::new(),
            pts_discontinuities: Counter::new(),
            input_width: Gauge::new(0),
            input_height: Gauge::new(0),
            input_fps: GaugeF::new(),
            output_frames: Counter::new(),
            sink_bytes: Counter::new(),
            sink_buffers: Counter::new(),
            keyframes: Counter::new(),
            queue_overruns_pass: Counter::new(),
            queue_overruns_ai: Counter::new(),
            bus_errors: Counter::new(),
            bus_warnings: Counter::new(),
            last_video_pts_us: -1,
            last_audio_pts_us: -1,
        }
    }

    /// Video minus audio at the muxer in microseconds, once both streams have
    /// been seen.
    pub fn av_skew_micros(&self) -> (r: Option<i64>)
        ensures
            match r {
                Some(us) => skew_micros(*self) == Some(us as int),
                None => skew_micros(*self) is None,
            },
    {
        if self.last_video_pts_us >= 0 && self.last_audio_pts_us >= 0 {
            Some(self.last_video_pts_us - self.last_audio_pts_us)
        } else {
            None
        }
    }
}

/// The decimal texts of the fractional values of a registry. Those of sums,
/// branch times and the skew matter only where the value is not exact.
pub struct FloatTexts {
    pub roundtrip_sum: String,
    pub worker_processing_sum: String,
    pub relay_deadline: String,
    pub last_ai_frame: String,
    pub branch_seconds_ai: String,
    pub branch_seconds_passthrough: String,
    pub worker_cpu: String,
    pub input_interval_sum: String,
    pub input_fps: String,
    pub av_skew: String,
}

/// The two comment lines above the samples of a counter.
pub open spec fn counter_head(name: Seq<char>, help: Seq<char>) -> Seq<char> {
    "# HELP "@ + name + " "@ + help + "\n# TYPE "@ + name + " counter\n"@
}

/// One sample line.
pub open spec fn sample_text(name: Seq<char>, label: Seq<char>, value: Seq<char>) -> Seq<char> {
    name + label + " "@ + value + "\n"@
}

/// A gauge: its two comment lines and its sample.
pub open spec fn gauge_text(name: Seq<char>, help: Seq<char>, value: Seq<char>) -> Seq<char> {
    "# HELP "@ + name + " "@ + help + "\n# TYPE "@ + name + " gauge\n"@ + name + " "@ + value + "\n"@
}

/// Frame outcomes and roundtrip latency.
pub open spec fn frame_metrics(r: Registry, t: FloatTexts) -> Seq<char> {
    gauge_text(
        "braidpipe_up"@,
        "1 while the daemon is running, 0 once shutdown has begun"@,
        signed_decimal(r.up.value as int),
    )
        + counter_head(
            "braidpipe_frames_total"@,
            "Frames pushed downstream by the relay, by outcome"@,
        )
        + sample_text(
            "braidpipe_frames_total"@,
            "{outcome=\"ai\"}"@,
            decimal(r.frames_ai.value as nat),
        )
        + sample_text(
            "braidpipe_frames_total"@,
            "{outcome=\"passthrough\"}"@,
            decimal(r.frames_passthrough.value as nat),
        )
        + histogram_text(r.roundtrip_seconds, "braidpipe_roundtrip_seconds"@, t.roundtrip_sum@)
        + histogram_text(
            r.worker_processing_seconds,
            "braidpipe_worker_processing_seconds"@,
            t.worker_processing_sum@,
        )
}

/// The relay's deadline and what it had to drop.
pub open spec fn relay_metrics(r: Registry, t: FloatTexts) -> Seq<char> {
    gauge_text(
        "braidpipe_relay_deadline_seconds"@,
        "Per-frame budget for the AI roundtrip"@,
        t.relay_deadline@,
    )
        + gauge_text(
            "braidpipe_last_ai_frame_timestamp_seconds"@,
            "Unix time of the last successful AI frame"@,
            t.last_ai_frame@,
        )
        + counter_head("braidpipe_stale_acks_total"@, "Acks for frames that had already timed out"@)
        + sample_text("braidpipe_stale_acks_total"@, ""@, decimal(r.stale_acks.value as nat))
        + counter_head(
            "braidpipe_relay_channel_drops_total"@,
            "Frames dropped because the relay was still busy"@,
        )
        + sample_text(
            "braidpipe_relay_channel_drops_total"@,
            ""@,
            decimal(r.relay_channel_drops.value as nat),
        )
        + counter_head("braidpipe_shm_full_total"@, "Frames dropped because no SHM slot was free"@)
        + sample_text("braidpipe_shm_full_total"@, ""@, decimal(r.shm_full.value as nat))
}

/// Failover state and history.
pub open spec fn failover_metrics(r: Registry, t: FloatTexts) -> Seq<char> {
    gauge_text(
        "braidpipe_failure_streak"@,
        "Consecutive failed roundtrips"@,
        signed_decimal(r.failure_streak.value as int),
    )
        + gauge_text(
            "braidpipe_worker_healthy"@,
            "1 while the worker is considered healthy"@,
            signed_decimal(r.worker_healthy.value as int),
        )
        + gauge_text(
            "braidpipe_active_branch"@,
            "1 while the AI branch is selected"@,
            signed_decimal(r.active_branch.value as int),
        )
        + counter_head("braidpipe_branch_switches_total"@, "Selector switches, by direction"@)
        + sample_text(
            "braidpipe_branch_switches_total"@,
            "{direction=\"to_ai\"}"@,
            decimal(r.branch_switches_to_ai.value as nat),
        )
        + sample_text(
            "braidpipe_branch_switches_total"@,
            "{direction=\"to_passthrough\"}"@,
            decimal(r.branch_switches_to_passthrough.value as nat),
        )
        + counter_head("braidpipe_branch_seconds_total"@, "Stream time spent on each branch"@)
        + sample_text(
            "braidpipe_branch_seconds_total"@,
            "{branch=\"ai\"}"@,
            seconds_or(r.branch_seconds_ai.micros, t.branch_seconds_ai@),
        )
        + sample_text(
            "braidpipe_branch_seconds_total"@,
            "{branch=\"passthrough\"}"@,
            seconds_or(r.branch_seconds_passthrough.micros, t.branch_seconds_passthrough@),
        )
}

/// The worker process.
pub open spec fn worker_metrics(r: Registry, t: FloatTexts) -> Seq<char> {
    gauge_text(
        "braidpipe_worker_up"@,
        "1 while the Python worker process is running"@,
        signed_decimal(r.worker_up.value as int),
    )
        + counter_head("braidpipe_worker_exits_total"@, "Times the worker process has exited"@)
        + sample_text("braidpipe_worker_exits_total"@, ""@, decimal(r.worker_exits.value as nat))
        + gauge_text(
            "braidpipe_worker_last_exit_code"@,
            "Exit code of the most recent worker exit"@,
            signed_decimal(r.worker_last_exit_code.value as int),
        )
        + gauge_text(
            "braidpipe_worker_cpu_seconds_total"@,
            "Cumulative CPU time of the worker process"@,
            t.worker_cpu@,
        )
        + gauge_text(
            "braidpipe_worker_resident_memory_bytes"@,
            "Resident memory of the worker process"@,
            signed_decimal(r.worker_rss_bytes.value as int),
        )
}

/// The input side of the pipeline.
pub open spec fn input_metrics(r: Registry, t: FloatTexts) -> Seq<char> {
    counter_head("braidpipe_input_frames_total"@, "Frames arriving from the source"@)
        + sample_text("braidpipe_input_frames_total"@, ""@, decimal(r.input_frames.value as nat))
        + histogram_text(
            r.input_interval_seconds,
            "braidpipe_input_interval_seconds"@,
            t.input_interval_sum@,
        )
        + counter_head(
            "braidpipe_pts_discontinuities_total"@,
            "Input timestamps that went backwards or gapped"@,
        )
        + sample_text(
            "braidpipe_pts_discontinuities_total"@,
            ""@,
            decimal(r.pts_discontinuities.value as nat),
        )
        + gauge_text(
            "braidpipe_input_width"@,
            "Negotiated input width"@,
            signed_decimal(r.input_width.value as int),
        )
        + gauge_text(
            "braidpipe_input_height"@,
            "Negotiated input height"@,
            signed_decimal(r.input_height.value as int),
        )
        + gauge_text("braidpipe_input_fps"@, "Negotiated input frame rate"@, t.input_fps@)
}

/// The output side of the pipeline.
pub open spec fn output_metrics(r: Registry, t: FloatTexts) -> Seq<char> {
    counter_head("braidpipe_output_frames_total"@, "Frames leaving the selector toward the sink"@)
        + sample_text("braidpipe_output_frames_total"@, ""@, decimal(r.output_frames.value as nat))
        + counter_head("braidpipe_sink_bytes_total"@, "Bytes handed to the final sink"@)
        + sample_text("braidpipe_sink_bytes_total"@, ""@, decimal(r.sink_bytes.value as nat))
        + counter_head("braidpipe_sink_buffers_total"@, "Buffers handed to the final sink"@)
        + sample_text("braidpipe_sink_buffers_total"@, ""@, decimal(r.sink_buffers.value as nat))
        + counter_head("braidpipe_keyframes_total"@, "Keyframes leaving the video encoder"@)
        + sample_text("braidpipe_keyframes_total"@, ""@, decimal(r.keyframes.value as nat))
        + counter_head(
            "braidpipe_queue_drop_events_total"@,
            "Queue overrun events, per branch queue"@,
        )
        + sample_text(
            "braidpipe_queue_drop_events_total"@,
            "{queue=\"q_pass\"}"@,
            decimal(r.queue_overruns_pass.value as nat),
        )
        + sample_text(
            "braidpipe_queue_drop_events_total"@,
            "{queue=\"q_ai\"}"@,
            decimal(r.queue_overruns_ai.value as nat),
        )
        + counter_head("braidpipe_bus_messages_total"@, "GStreamer bus messages, by severity"@)
        + sample_text(
            "braidpipe_bus_messages_total"@,
            "{severity=\"error\"}"@,
            decimal(r.bus_errors.value as nat),
        )
        + sample_text(
            "braidpipe_bus_messages_total"@,
            "{severity=\"warning\"}"@,
            decimal(r.bus_warnings.value as nat),
        )
}

/// Video minus audio at the muxer, once both streams have been seen.
pub open spec fn skew_micros(r: Registry) -> Option<int> {
    if r.last_video_pts_us >= 0 && r.last_audio_pts_us >= 0 {
        Some(r.last_video_pts_us - r.last_audio_pts_us)
    } else {
        None
    }
}

/// A signed number of microseconds in seconds, where a double holds it exactly.
pub open spec fn signed_seconds_or(us: int, nearest: Seq<char>) -> Seq<char> {
    if 0 <= us < EXACT_MICROS {
        seconds_text(us as nat)
    } else if -EXACT_MICROS < us < 0 {
        "-"@ + seconds_text((-us) as nat)
    } else {
        nearest
    }
}

/// The skew gauge, absent until both streams have been seen.
pub open spec fn skew_metrics(r: Registry, t: FloatTexts) -> Seq<char> {
    match skew_micros(r) {
        Some(us) => gauge_text(
            "braidpipe_av_skew_seconds"@,
            "Video minus audio PTS at the muxer"@,
            signed_seconds_or(us, t.av_skew@),
        ),
        None => seq![],
    }
}

/// The metrics page of a registry.
pub open spec fn registry_text(r: Registry, t: FloatTexts) -> Seq<char> {
    frame_metrics(r, t) + relay_metrics(r, t) + failover_metrics(r, t) + worker_metrics(r, t)
        + input_metrics(r, t) + output_metrics(r, t) + skew_metrics(r, t)
}

fn push_counter_head(out: &mut String, name: &str, help: &str)
    ensures
        final(out)@ == old(out)@ + counter_head(name@, help@),
{
    out.append("# HELP ");
    out.append(name);
    out.append(" ");
    out.append(help);
    out.append("\n# TYPE ");
    out.append(name);
    out.append(" counter\n");
    assert(out@ =~= old(out)@ + counter_head(name@, help@));
}

fn push_text_sample(out: &mut String, name: &str, label: &str, value: &str)
    ensures
        final(out)@ == old(out)@ + sample_text(name@, label@, value@),
{
    out.append(name);
    out.append(label);
    out.append(" ");
    out.append(value);
    out.append("\n");
    assert(out@ =~= old(out)@ + sample_text(name@, label@, value@));
}

fn push_sample(out: &mut String, name: &str, label: &str, value: u64)
    ensures
        final(out)@ == old(out)@ + sample_text(name@, label@, decimal(value as nat)),
{
    let mut text = String::new();
    push_decimal(&mut text, value);
    assert(text@ =~= decimal(value as nat));
    push_text_sample(out, name, label, text.as_str());
}

fn push_seconds_sample(out: &mut String, name: &str, label: &str, us: u64, nearest: &str)
    ensures
        final(out)@ == old(out)@ + sample_text(name@, label@, seconds_or(us, nearest@)),
{
    let mut text = String::new();
    push_seconds_or(&mut text, us, nearest);
    assert(text@ =~= seconds_or(us, nearest@));
    push_text_sample(out, name, label, text.as_str());
}

fn push_float_gauge(out: &mut String, name: &str, help: &str, value: &str)
    ensures
        final(out)@ == old(out)@ + gauge_text(name@, help@, value@),
{
    out.append("# HELP ");
    out.append(name);
    out.append(" ");
    out.append(help);
    out.append("\n# TYPE ");
    out.append(name);
    out.append(" gauge\n");
    out.append(name);
    out.append(" ");
    out.append(value);
    out.append("\n");
    assert(out@ =~= old(out)@ + gauge_text(name@, help@, value@));
}

fn push_gauge(out: &mut String, name: &str, help: &str, value: i64)
    ensures
        final(out)@ == old(out)@ + gauge_text(name@, help@, signed_decimal(value as int)),
{
    let mut text = String::new();
    push_signed(&mut text, value);
    assert(text@ =~= signed_decimal(value as int));
    push_float_gauge(out, name, help, text.as_str());
}

fn push_frame_metrics(out: &mut String, r: &Registry, t: &FloatTexts)
    ensures
        final(out)@ == old(out)@ + frame_metrics(*r, *t),
{
    push_gauge(
        out,
        "braidpipe_up",
        "1 while the daemon is running, 0 once shutdown has begun",
        r.up.get(),
    );
    push_counter_head(
        out,
        "braidpipe_frames_total",
        "Frames pushed downstream by the relay, by outcome",
    );
    push_sample(out, "braidpipe_frames_total", "{outcome=\"ai\"}", r.frames_ai.get());
    push_sample(
        out,
        "braidpipe_frames_total",
        "{outcome=\"passthrough\"}",
        r.frames_passthrough.get(),
    );
    r.roundtrip_seconds.render(out, "braidpipe_roundtrip_seconds", t.roundtrip_sum.as_str());
    r.worker_processing_seconds.render(
        out,
        "braidpipe_worker_processing_seconds",
        t.worker_processing_sum.as_str(),
    );
    assert(out@ =~= old(out)@ + frame_metrics(*r, *t));
}

fn push_relay_metrics(out: &mut String, r: &Registry, t: &FloatTexts)
    ensures
        final(out)@ == old(out)@ + relay_metrics(*r, *t),
{
    push_float_gauge(
        out,
        "braidpipe_relay_deadline_seconds",
        "Per-frame budget for the AI roundtrip",
        t.relay_deadline.as_str(),
    );
    push_float_gauge(
        out,
        "braidpipe_last_ai_frame_timestamp_seconds",
        "Unix time of the last successful AI frame",
        t.last_ai_frame.as_str(),
    );
    push_counter_head(
        out,
        "braidpipe_stale_acks_total",
        "Acks for frames that had already timed out",
    );
    push_sample(out, "braidpipe_stale_acks_total", "", r.stale_acks.get());
    push_counter_head(
        out,
        "braidpipe_relay_channel_drops_total",
        "Frames dropped because the relay was still busy",
    );
    push_sample(out, "braidpipe_relay_channel_drops_total", "", r.relay_channel_drops.get());
    push_counter_head(
        out,
        "braidpipe_shm_full_total",
        "Frames dropped because no SHM slot was free",
    );
    push_sample(out, "braidpipe_shm_full_total", "", r.shm_full.get());
    assert(out@ =~= old(out)@ + relay_metrics(*r, *t));
}

fn push_failover_metrics(out: &mut String, r: &Registry, t: &FloatTexts)
    ensures
        final(out)@ == old(out)@ + failover_metrics(*r, *t),
{
    push_gauge(
        out,
        "braidpipe_failure_streak",
        "Consecutive failed roundtrips",
        r.failure_streak.get(),
    );
    push_gauge(
        out,
        "braidpipe_worker_healthy",
        "1 while the worker is considered healthy",
        r.worker_healthy.get(),
    );
    push_gauge(
        out,
        "braidpipe_active_branch",
        "1 while the AI branch is selected",
        r.active_branch.get(),
    );
    push_counter_head(out, "braidpipe_branch_switches_total", "Selector switches, by direction");
    push_sample(
        out,
        "braidpipe_branch_switches_total",
        "{direction=\"to_ai\"}",
        r.branch_switches_to_ai.get(),
    );
    push_sample(
        out,
        "braidpipe_branch_switches_total",
        "{direction=\"to_passthrough\"}",
        r.branch_switches_to_passthrough.get(),
    );
    push_counter_head(out, "braidpipe_branch_seconds_total", "Stream time spent on each branch");
    push_seconds_sample(
        out,
        "braidpipe_branch_seconds_total",
        "{branch=\"ai\"}",
        r.branch_seconds_ai.micros(),
        t.branch_seconds_ai.as_str(),
    );
    push_seconds_sample(
        out,
        "braidpipe_branch_seconds_total",
        "{branch=\"passthrough\"}",
        r.branch_seconds_passthrough.micros(),
        t.branch_seconds_passthrough.as_str(),
    );
    assert(out@ =~= old(out)@ + failover_metrics(*r, *t));
}

fn push_worker_metrics(out: &mut String, r: &Registry, t: &FloatTexts)
    ensures
        final(out)@ == old(out)@ + worker_metrics(*r, *t),
{
    push_gauge(
        out,
        "braidpipe_worker_up",
        "1 while the Python worker process is running",
        r.worker_up.get(),
    );
    push_counter_head(out, "braidpipe_worker_exits_total", "Times the worker process has exited");
    push_sample(out, "braidpipe_worker_exits_total", "", r.worker_exits.get());
    push_gauge(
        out,
        "braidpipe_worker_last_exit_code",
        "Exit code of the most recent worker exit",
        r.worker_last_exit_code.get(),
    );
    push_float_gauge(
        out,
        "braidpipe_worker_cpu_seconds_total",
        "Cumulative CPU time of the worker process",
        t.worker_cpu.as_str(),
    );
    push_gauge(
        out,
        "braidpipe_worker_resident_memory_bytes",
        "Resident memory of the worker process",
        r.worker_rss_bytes.get(),
    );
    assert(out@ =~= old(out)@ + worker_metrics(*r, *t));
}

fn push_input_metrics(out: &mut String, r: &Registry, t: &FloatTexts)
    ensures
        final(out)@ == old(out)@ + input_metrics(*r, *t),
{
    push_counter_head(out, "braidpipe_input_frames_total", "Frames arriving from the source");
    push_sample(out, "braidpipe_input_frames_total", "", r.input_frames.get());
    r.input_interval_seconds.render(
        out,
        "braidpipe_input_interval_seconds",
        t.input_interval_sum.as_str(),
    );
    push_counter_head(
        out,
        "braidpipe_pts_discontinuities_total",
        "Input timestamps that went backwards or gapped",
    );
    push_sample(out, "braidpipe_pts_discontinuities_total", "", r.pts_discontinuities.get());
    push_gauge(out, "braidpipe_input_width", "Negotiated input width", r.input_width.get());
    push_gauge(out, "braidpipe_input_height", "Negotiated input height", r.input_height.get());
    push_float_gauge(
        out,
        "braidpipe_input_fps",
        "Negotiated input frame rate",
        t.input_fps.as_str(),
    );
    assert(out@ =~= old(out)@ + input_metrics(*r, *t));
}

fn push_output_metrics(out: &mut String, r: &Registry, t: &FloatTexts)
    ensures
        final(out)@ == old(out)@ + output_metrics(*r, *t),
{
    push_counter_head(
        out,
        "braidpipe_output_frames_total",
        "Frames leaving the selector toward the sink",
    );
    push_sample(out, "braidpipe_output_frames_total", "", r.output_frames.get());
    push_counter_head(out, "braidpipe_sink_bytes_total", "Bytes handed to the final sink");
    push_sample(out, "braidpipe_sink_bytes_total", "", r.sink_bytes.get());
    push_counter_head(out, "braidpipe_sink_buffers_total", "Buffers handed to the final sink");
    push_sample(out, "braidpipe_sink_buffers_total", "", r.sink_buffers.get());
    push_counter_head(out, "braidpipe_keyframes_total", "Keyframes leaving the video encoder");
    push_sample(out, "braidpipe_keyframes_total", "", r.keyframes.get());
    push_counter_head(
        out,
        "braidpipe_queue_drop_events_total",
        "Queue overrun events, per branch queue",
    );
    push_sample(
        out,
        "braidpipe_queue_drop_events_total",
        "{queue=\"q_pass\"}",
        r.queue_overruns_pass.get(),
    );
    push_sample(
        out,
        "braidpipe_queue_drop_events_total",
        "{queue=\"q_ai\"}",
        r.queue_overruns_ai.get(),
    );
    push_counter_head(out, "braidpipe_bus_messages_total", "GStreamer bus messages, by severity");
    push_sample(out, "braidpipe_bus_messages_total", "{severity=\"error\"}", r.bus_errors.get());
    push_sample(
        out,
        "braidpipe_bus_messages_total",
        "{severity=\"warning\"}",
        r.bus_warnings.get(),
    );
    assert(out@ =~= old(out)@ + output_metrics(*r, *t));
}

fn skew_text(us: i64, nearest: &str) -> (r: String)
    ensures
        r@ == signed_seconds_or(us as int, nearest@),
{
    let mut text = String::new();
    if us >= 0 {
        if us < EXACT_MICROS as i64 {
            push_seconds(&mut text, us as u64);
            assert(text@ =~= seconds_text(us as nat));
            return text;
        }
    } else if us > -(EXACT_MICROS as i64) {
        text.append("-");
        push_seconds(&mut text, (-us) as u64);
        assert(text@ =~= "-"@ + seconds_text((-us) as nat));
        return text;
    }
    nearest.to_owned()
}

/// Appends the metrics page of a registry. `texts` holds the decimal texts of
/// the fractional values that it holds as doubles, and of those that are too
/// large to be exact.
pub fn render(registry: &Registry, texts: &FloatTexts, out: &mut String)
    ensures
        final(out)@ == old(out)@ + registry_text(*registry, *texts),
{
    push_frame_metrics(out, registry, texts);
    push_relay_metrics(out, registry, texts);
    push_failover_metrics(out, registry, texts);
    push_worker_metrics(out, registry, texts);
    push_input_metrics(out, registry, texts);
    push_output_metrics(out, registry, texts);
    if let Some(us) = registry.av_skew_micros() {
        let skew = skew_text(us, texts.av_skew.as_str());
        push_float_gauge(
            out,
            "braidpipe_av_skew_seconds",
            "Video minus audio PTS at the muxer",
            skew.as_str(),
        );
    }
    proof {
        let (r, t) = (*registry, *texts);
        lemma_seven(
            old(out)@,
            frame_metrics(r, t),
            relay_metrics(r, t),
            failover_metrics(r, t),
            worker_metrics(r, t),
            input_metrics(r, t),
            output_metrics(r, t),
            skew_metrics(r, t),
        );
        if skew_micros(r) is None {
            assert(out@ + skew_metrics(r, t) =~= out@);
        }
    }
}

/// Text appended part by part is the text of all the parts.
proof fn lemma_seven(
    o: Seq<char>,
    a: Seq<char>,
    b: Seq<char>,
    c: Seq<char>,
    d: Seq<char>,
    e: Seq<char>,
    f: Seq<char>,
    g: Seq<char>,
)
    ensures
        o + a + b + c + d + e + f + g == o + (a + b + c + d + e + f + g),
{
    assert(o + a + b + c + d + e + f + g =~= o + (a + b + c + d + e + f + g));
}

/// A power of two of seconds is a million times as many microseconds.
pub proof fn law_seconds_are_a_million_micros(bits: u64, e: nat)
    requires
        e <= 20,
        bits == (1023 + e) * hidden_bit(),
    ensures
        seconds_to_micros(bits) == 1_000_000 * pow2(e),
        seconds_to_micros(0) == 0,
{
    crate::double::law_powers_of_two_multiply_exactly(bits, e, 1_000_000, u64::MAX as nat);
    lemma2_to64();
    lemma2_to64_rest();
    if e < 20 {
        vstd::arithmetic::power2::lemma_pow2_strictly_increases(e, 20);
    }
    crate::double::law_zero_times_anything(1_000_000, u64::MAX as nat);
}

/// Counting is addition: whatever is added to a counter shows in it, and so
/// does everything that was in it before, as long as it does not wrap around.
pub proof fn law_counters_add_up(value: u64, amounts: (nat, nat))
    ensures
        wrapping_sum(wrapping_sum(value, amounts.0) as u64, amounts.1) == wrapping_sum(
            value,
            amounts.0 + amounts.1,
        ),
        value + amounts.0 <= u64::MAX ==> wrapping_sum(value, amounts.0) == value + amounts.0,
        wrapping_sum(value, 0) == value,
{
}

/// A bound counts what is at most as large: a duration falls under a bound
/// exactly if its bit pattern is not above the bound's, a bound falls under
/// itself and all that come behind it, and what is not a number under none.
pub proof fn law_bounds_count_up_to_themselves(seconds: u64, i: int, j: int)
    requires
        0 <= i < 13,
        0 <= j < 13,
    ensures
        seconds < 0x7ff0_0000_0000_0000 ==> (under_bound(seconds, i) <==> seconds
            <= LATENCY_BUCKETS@[i]),
        under_bound(LATENCY_BUCKETS@[i], j) <==> i <= j,
        0x7ff0_0000_0000_0000 <= seconds < 0x8000_0000_0000_0000 ==> !under_bound(seconds, i),
{
    let bound = LATENCY_BUCKETS@[i];
    lemma_same_order(LATENCY_BUCKETS@[i], LATENCY_BUCKETS@[j]);
    if seconds < 0x7ff0_0000_0000_0000 {
        assert(exponent_field(seconds) != 2047) by {
            assert(seconds as int / 0x10_0000_0000_0000 < 2047);
        }
        lemma_same_order(seconds, bound);
    } else if seconds < 0x8000_0000_0000_0000 {
        assert(seconds as int / 0x10_0000_0000_0000 == 2047);
    }
}

/// In a fresh registry nothing has happened: nothing has been counted, nobody
/// is up or healthy, the stream is on the untouched frames, and neither stream
/// has reached the muxer.
pub proof fn law_a_fresh_registry_is_empty(r: Registry)
    requires
        untouched(r),
    ensures
        r.up.value == 0 && r.worker_up.value == 0 && r.worker_healthy.value == 0,
        r.failure_streak.value == 0,
        r.roundtrip_seconds.sum_us + r.worker_processing_seconds.sum_us
            + r.input_interval_seconds.sum_us == 0,
        r.active_branch.value == 0,
        r.relay_deadline_seconds.bits == 0 && r.last_ai_frame_timestamp.bits == 0
            && r.worker_cpu_seconds.bits == 0 && r.input_fps.bits == 0,
        r.frames_ai.value + r.frames_passthrough.value + r.stale_acks.value
            + r.relay_channel_drops.value + r.shm_full.value == 0,
        r.branch_switches_to_ai.value + r.branch_switches_to_passthrough.value
            + r.branch_seconds_ai.micros + r.branch_seconds_passthrough.micros == 0,
        r.worker_exits.value + r.input_frames.value + r.pts_discontinuities.value
            + r.output_frames.value + r.sink_bytes.value + r.sink_buffers.value
            + r.keyframes.value + r.queue_overruns_pass.value + r.queue_overruns_ai.value
            + r.bus_errors.value + r.bus_warnings.value == 0,
        r.roundtrip_seconds.count + r.worker_processing_seconds.count
            + r.input_interval_seconds.count == 0,
        cumulative(r.roundtrip_seconds),
        cumulative(r.worker_processing_seconds),
        cumulative(r.input_interval_seconds),
        skew_micros(r) is None,
{
}

/// The microseconds of a duration are those of its exact value, cut to whole
/// ones, but for what a product in double precision may be off: one part in
/// 2^53.
pub proof fn law_micros_are_right_to_a_double(seconds: u64)
    ensures
        double_of(seconds) matches Double::Finite { negative: false, mantissa, exponent } ==> {
            let us = seconds_to_micros(seconds);
            let unit = pow2((-exponent) as nat);
            &&& exponent < 0 && us < u64::MAX ==> {
                &&& 0x20_0000_0000_0000 * (us * unit) <= 0x20_0000_0000_0001 * (mantissa
                    * 1_000_000)
                &&& 0x20_0000_0000_0000 * ((us + 1) * unit) > 0x1f_ffff_ffff_ffff * (mantissa
                    * 1_000_000)
            }
        },
        double_of(seconds) matches Double::Finite { negative: true, .. } ==> seconds_to_micros(
            seconds,
        ) == 0,
        double_of(seconds) is NotANumber ==> seconds_to_micros(seconds) == 0,
{
    match double_of(seconds) {
        Double::Finite { negative: false, mantissa, exponent } => {
            if exponent < 0 {
                crate::double::law_cut_products_are_close(
                    mantissa,
                    (-exponent) as nat,
                    1_000_000,
                );
            }
        },
        _ => {},
    }
}

/// A span that runs backwards is the same span forwards with a minus in front,
/// and only such a span has one: nothing at all does not.
pub proof fn law_only_negative_spans_have_a_minus(us: int, nearest: Seq<char>)
    requires
        -1_000_000_000_000_000 < us < 1_000_000_000_000_000,
    ensures
        us < 0 ==> signed_seconds_or(us, nearest) == "-"@ + signed_seconds_or(-us, nearest),
        us >= 0 ==> signed_seconds_or(us, nearest) == seconds_text(us as nat),
{
}

} // verus!

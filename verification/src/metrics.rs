//! Minimal Prometheus metrics, rendered in the text exposition format.

use vstd::prelude::*;
use vstd::string::*;

use crate::text;
use crate::text::{all_digits, decimal, digit, has_part, occurs_at, signed_decimal};

verus! {

/// Number of buckets of a histogram, not counting the one without a bound.
pub const BUCKETS: usize = 12;

/// Upper bounds of the buckets, in nanoseconds.
pub const BOUND_NANOS: [u64; 12] = [
    100_000_000,
    250_000_000,
    500_000_000,
    1_000_000_000,
    2_000_000_000,
    3_000_000_000,
    5_000_000_000,
    10_000_000_000,
    20_000_000_000,
    30_000_000_000,
    60_000_000_000,
    120_000_000_000,
];

/// Upper bounds of the buckets as they are shown, in seconds.
pub const BOUND_LABELS: [&'static str; 12] = [
    "0.1",
    "0.25",
    "0.5",
    "1",
    "2",
    "3",
    "5",
    "10",
    "20",
    "30",
    "60",
    "120",
];

/// A counter of 64 bits after `n` is added; it starts over at 0 when it is full.
pub open spec fn added(counter: u64, n: u64) -> u64 {
    ((counter + n) % 0x1_0000_0000_0000_0000) as u64
}

/// A gauge of 64 bits after a step up or down; it wraps around at its ends.
pub open spec fn moved(gauge: i64, step: int) -> i64 {
    if gauge + step > i64::MAX {
        (gauge + step - 0x1_0000_0000_0000_0000) as i64
    } else if gauge + step < i64::MIN {
        (gauge + step + 0x1_0000_0000_0000_0000) as i64
    } else {
        (gauge + step) as i64
    }
}

/// Add `n` to a counter.
pub fn count(counter: &mut u64, n: u64)
    ensures
        *final(counter) == added(*old(counter), n),
{
    *counter = counter.wrapping_add(n);
}

/// Move a gauge up by one.
pub fn raise(gauge: &mut i64)
    ensures
        *final(gauge) == moved(*old(gauge), 1),
{
    *gauge = gauge.wrapping_add(1);
}

/// Move a gauge down by one.
pub fn lower(gauge: &mut i64)
    ensures
        *final(gauge) == moved(*old(gauge), -1),
{
    *gauge = gauge.wrapping_sub(1);
}

/// Law: a counter counts by what is added and a gauge by its step, as far as 64 bits hold them.
pub proof fn law_counters_add_up(counter: u64, n: u64, gauge: i64, step: int)
    ensures
        counter + n <= u64::MAX ==> added(counter, n) == counter + n,
        i64::MIN <= gauge + step <= i64::MAX ==> moved(gauge, step) == gauge + step,
{
}

/// Law: moving a gauge up and down again leaves it where it was.
pub proof fn law_gauge_up_and_down(gauge: i64)
    ensures
        moved(moved(gauge, 1), -1) == gauge,
        moved(moved(gauge, -1), 1) == gauge,
{
}

/// Fixed-bucket histogram of durations.
#[derive(Debug)]
pub struct Histogram {
    pub buckets: [u64; 12],
    pub count: u64,
    pub sum_micros: u64,
}

/// What a histogram holds.
pub struct HistogramView {
    pub buckets: Seq<u64>,
    pub count: u64,
    pub sum_micros: u64,
}

impl View for Histogram {
    type V = HistogramView;

    open spec fn view(&self) -> HistogramView {
        HistogramView { buckets: self.buckets@, count: self.count, sum_micros: self.sum_micros }
    }
}

/// A duration in whole microseconds, as far as 64 bits hold them.
pub open spec fn whole_micros(nanos: u128) -> u64 {
    if nanos / 1000 > u64::MAX {
        u64::MAX
    } else {
        (nanos / 1000) as u64
    }
}

/// A histogram after one more observation.
pub open spec fn observed(h: HistogramView, nanos: u128) -> HistogramView {
    HistogramView {
        buckets: Seq::new(
            h.buckets.len(),
            |i: int|
                if nanos <= BOUND_NANOS@[i] {
                    added(h.buckets[i], 1)
                } else {
                    h.buckets[i]
                },
        ),
        count: added(h.count, 1),
        sum_micros: added(h.sum_micros, whole_micros(nanos)),
    }
}

/// The histogram before any observation.
pub open spec fn nothing_observed(h: HistogramView) -> bool {
    &&& h.buckets == Seq::new(12, |i: int| 0u64)
    &&& h.count == 0
    &&& h.sum_micros == 0
}

/// Each bucket counts at least what the one before it counts, and at most all observations.
pub open spec fn cumulative(h: HistogramView) -> bool {
    &&& h.buckets.len() == 12
    &&& forall|i: int| 0 <= i < 12 ==> #[trigger] h.buckets[i] <= h.count
    &&& forall|i: int, j: int|
        0 <= i <= j < 12 ==> #[trigger] h.buckets[i] <= #[trigger] h.buckets[j]
}

/// Decimals of a fraction, `unit` being what one of the next decimal is worth; it stops where
/// nothing is left.
pub open spec fn decimals(fraction: nat, unit: nat) -> Seq<char>
    decreases unit,
{
    if fraction == 0 || unit == 0 {
        Seq::empty()
    } else {
        seq![digit(fraction / unit)] + decimals(fraction % unit, unit / 10)
    }
}

/// Microseconds as seconds in decimal notation, without trailing zeros.
pub open spec fn seconds(micros: nat) -> Seq<char> {
    if micros % 1_000_000 == 0 {
        decimal(micros / 1_000_000)
    } else {
        decimal(micros / 1_000_000).push('.') + decimals(micros % 1_000_000, 100_000)
    }
}

/// The two comment lines that introduce a metric.
pub open spec fn header_text(name: Seq<char>, help: Seq<char>, kind: Seq<char>) -> Seq<char> {
    "# HELP "@ + name + " "@ + help + "\n# TYPE "@ + name + " "@ + kind + "\n"@
}

/// A metric of one value.
pub open spec fn value_text(
    name: Seq<char>,
    help: Seq<char>,
    kind: Seq<char>,
    value: Seq<char>,
) -> Seq<char> {
    header_text(name, help, kind) + name + " "@ + value + "\n"@
}

/// The line of one bucket.
pub open spec fn bucket_text(name: Seq<char>, label: Seq<char>, value: u64) -> Seq<char> {
    name + "_bucket{le=\""@ + label + "\"} "@ + decimal(value as nat) + "\n"@
}

/// The lines of the first `n` buckets.
pub open spec fn buckets_text(name: Seq<char>, buckets: Seq<u64>, n: nat) -> Seq<char>
    decreases n,
{
    if n == 0 {
        Seq::empty()
    } else {
        buckets_text(name, buckets, (n - 1) as nat) + bucket_text(
            name,
            BOUND_LABELS@[n - 1]@,
            buckets[n - 1],
        )
    }
}

/// A histogram in the exposition format.
pub open spec fn histogram_text(h: HistogramView, name: Seq<char>, help: Seq<char>) -> Seq<char> {
    header_text(name, help, "histogram"@) + buckets_text(name, h.buckets, 12) + bucket_text(
        name,
        "+Inf"@,
        h.count,
    ) + name + "_sum "@ + seconds(h.sum_micros as nat) + "\n"@ + name + "_count "@ + decimal(
        h.count as nat,
    ) + "\n"@
}

/// `line` stands in `s` as a line behind another.
pub open spec fn has_line(s: Seq<char>, line: Seq<char>) -> bool {
    has_part(s, "\n"@ + line + "\n"@)
}

/// What stands in one of two texts stands in both together.
broadcast proof fn lemma_part_of_sum(a: Seq<char>, b: Seq<char>, part: Seq<char>)
    ensures
        has_part(a, part) || has_part(b, part) ==> #[trigger] has_part(a + b, part),
{
    if has_part(a, part) {
        let at = choose|at: int| occurs_at(a, part, at);
        assert((a + b).subrange(at, at + part.len()) =~= a.subrange(at, at + part.len()));
        assert(occurs_at(a + b, part, at));
    }
    if has_part(b, part) {
        let at = choose|at: int| occurs_at(b, part, at);
        let n = a.len() as int;
        assert((a + b).subrange(n + at, n + at + part.len()) =~= b.subrange(at, at + part.len()));
        assert(occurs_at(a + b, part, n + at));
    }
}

/// A line that follows another is a line of the text.
proof fn lemma_line_follows(before: Seq<char>, line: Seq<char>)
    requires
        before.len() > 0,
        before.last() == '\n',
    ensures
        has_line(before + (line + "\n"@), line),
        (before + (line + "\n"@)).len() > 0,
        (before + (line + "\n"@)).last() == '\n',
{
    reveal_strlit("\n");
    let all = before + (line + "\n"@);
    let part = "\n"@ + line + "\n"@;
    let at = before.len() - 1;
    assert(part.len() == line.len() + 2);
    assert forall|i: int| 0 <= i < part.len() implies all.subrange(at, at + part.len())[i]
        == part[i] by {
        if i == 0 {
            assert(all[at] == before[at]);
        } else if i < part.len() - 1 {
            assert(all[at + i] == line[i - 1]);
        }
    }
    assert(all.subrange(at, at + part.len()) =~= part);
    assert(occurs_at(all, part, at));
}

/// The comment lines of a metric tell what it is, then its kind, and end as a line does.
proof fn lemma_header(name: Seq<char>, help: Seq<char>, kind: Seq<char>)
    ensures
        ("# HELP "@ + name + " "@ + help + "\n"@).is_prefix_of(header_text(name, help, kind)),
        has_line(header_text(name, help, kind), "# TYPE "@ + name + " "@ + kind),
        header_text(name, help, kind).len() > 0,
        header_text(name, help, kind).last() == '\n',
{
    let first = "# HELP "@ + name + " "@ + help + "\n"@;
    let line = "# TYPE "@ + name + " "@ + kind;
    let head = header_text(name, help, kind);
    lemma_type_mark();
    assert(head =~= first + (line + "\n"@));
    assert(first =~= head.subrange(0, first.len() as int));
    lemma_line_follows(first, line);
}

/// What stands between the two comment lines ends the first and begins the second.
proof fn lemma_type_mark()
    ensures
        "\n# TYPE "@ == "\n"@ + "# TYPE "@,
        "\n"@.len() == 1,
        "\n"@[0] == '\n',
{
    reveal_strlit("\n# TYPE ");
    reveal_strlit("# TYPE ");
    reveal_strlit("\n");
    assert("\n# TYPE "@ =~= "\n"@ + "# TYPE "@);
}

/// Law: a metric of one value is shown with its own help, its kind and that value.
pub proof fn law_value_is_shown(
    name: Seq<char>,
    help: Seq<char>,
    kind: Seq<char>,
    value: Seq<char>,
)
    ensures
        ("# HELP "@ + name + " "@ + help + "\n"@).is_prefix_of(
            value_text(name, help, kind, value),
        ),
        has_line(value_text(name, help, kind, value), "# TYPE "@ + name + " "@ + kind),
        has_line(value_text(name, help, kind, value), name + " "@ + value),
{
    lemma_header(name, help, kind);
    let head = header_text(name, help, kind);
    let line = name + " "@ + value;
    let whole = value_text(name, help, kind, value);
    lemma_line_follows(head, line);
    assert(whole =~= head + (line + "\n"@));
    lemma_part_of_sum(head, line + "\n"@, "\n"@ + ("# TYPE "@ + name + " "@ + kind) + "\n"@);
    let first = "# HELP "@ + name + " "@ + help + "\n"@;
    assert(first =~= head.subrange(0, first.len() as int));
    assert(first =~= whole.subrange(0, first.len() as int));
}

/// The line of a bucket, without the line feed that ends it.
pub open spec fn bucket_line(name: Seq<char>, label: Seq<char>, value: u64) -> Seq<char> {
    name + "_bucket{le=\""@ + label + "\"} "@ + decimal(value as nat)
}

/// The lines of the buckets end as a line does.
proof fn lemma_buckets_end(before: Seq<char>, name: Seq<char>, buckets: Seq<u64>, n: nat)
    requires
        before.len() > 0,
        before.last() == '\n',
    ensures
        (before + buckets_text(name, buckets, n)).len() > 0,
        (before + buckets_text(name, buckets, n)).last() == '\n',
    decreases n,
{
    let all = before + buckets_text(name, buckets, n);
    if n > 0 {
        let less = (n - 1) as nat;
        let line = bucket_line(name, BOUND_LABELS@[n - 1]@, buckets[n - 1]);
        let some = before + buckets_text(name, buckets, less);
        lemma_buckets_end(before, name, buckets, less);
        lemma_line_follows(some, line);
        assert(all =~= some + (line + "\n"@));
    } else {
        assert(all =~= before);
    }
}

/// The line of each bucket stands among the lines of the buckets.
proof fn lemma_bucket_line(before: Seq<char>, name: Seq<char>, buckets: Seq<u64>, n: nat, i: int)
    requires
        0 <= i < n,
        before.len() > 0,
        before.last() == '\n',
    ensures
        has_line(
            before + buckets_text(name, buckets, n),
            bucket_line(name, BOUND_LABELS@[i]@, buckets[i]),
        ),
    decreases n,
{
    let less = (n - 1) as nat;
    let some = before + buckets_text(name, buckets, less);
    let line = bucket_line(name, BOUND_LABELS@[n - 1]@, buckets[n - 1]);
    let all = before + buckets_text(name, buckets, n);
    assert(all =~= some + (line + "\n"@));
    if i < n - 1 {
        lemma_bucket_line(before, name, buckets, less, i);
        lemma_part_of_sum(
            some,
            line + "\n"@,
            "\n"@ + bucket_line(name, BOUND_LABELS@[i]@, buckets[i]) + "\n"@,
        );
    } else {
        lemma_buckets_end(before, name, buckets, less);
        lemma_line_follows(some, line);
    }
}

/// Law: a histogram is shown with every bucket under its own bound, with the number of all
/// observations under no bound and again as the count, and with the sum in seconds.
pub proof fn law_histogram_is_shown(h: HistogramView, name: Seq<char>, help: Seq<char>, i: int)
    requires
        0 <= i < 12,
    ensures
        has_line(
            histogram_text(h, name, help),
            name + "_bucket{le=\""@ + BOUND_LABELS@[i]@ + "\"} "@ + decimal(h.buckets[i] as nat),
        ),
        has_line(
            histogram_text(h, name, help),
            name + "_bucket{le=\""@ + "+Inf"@ + "\"} "@ + decimal(h.count as nat),
        ),
        has_line(
            histogram_text(h, name, help),
            name + "_sum "@ + seconds(h.sum_micros as nat),
        ),
        has_line(histogram_text(h, name, help), name + "_count "@ + decimal(h.count as nat)),
        has_line(histogram_text(h, name, help), "# TYPE "@ + name + " "@ + "histogram"@),
        ("# HELP "@ + name + " "@ + help + "\n"@).is_prefix_of(histogram_text(h, name, help)),
{
    let head = header_text(name, help, "histogram"@);
    let buckets = head + buckets_text(name, h.buckets, 12);
    let bounded = bucket_line(name, BOUND_LABELS@[i]@, h.buckets[i]);
    let every = bucket_line(name, "+Inf"@, h.count);
    let sum = name + "_sum "@ + seconds(h.sum_micros as nat);
    let count = name + "_count "@ + decimal(h.count as nat);
    let with_every = buckets + (every + "\n"@);
    let with_sum = with_every + (sum + "\n"@);
    let whole = with_sum + (count + "\n"@);
    lemma_histogram_text(h, name, help);
    lemma_header(name, help, "histogram"@);
    lemma_bucket_line(head, name, h.buckets, 12, i);
    lemma_buckets_end(head, name, h.buckets, 12);
    lemma_line_follows(buckets, every);
    lemma_line_follows(with_every, sum);
    lemma_line_follows(with_sum, count);
    let kind = "\n"@ + ("# TYPE "@ + name + " "@ + "histogram"@) + "\n"@;
    lemma_part_of_sum(head, buckets_text(name, h.buckets, 12), kind);
    lemma_part_of_sum(buckets, every + "\n"@, kind);
    lemma_part_of_sum(with_every, sum + "\n"@, kind);
    lemma_part_of_sum(with_sum, count + "\n"@, kind);
    lemma_part_of_sum(buckets, every + "\n"@, "\n"@ + bounded + "\n"@);
    lemma_part_of_sum(with_every, sum + "\n"@, "\n"@ + bounded + "\n"@);
    lemma_part_of_sum(with_sum, count + "\n"@, "\n"@ + bounded + "\n"@);
    lemma_part_of_sum(with_every, sum + "\n"@, "\n"@ + every + "\n"@);
    lemma_part_of_sum(with_sum, count + "\n"@, "\n"@ + every + "\n"@);
    lemma_part_of_sum(with_sum, count + "\n"@, "\n"@ + sum + "\n"@);
    let first = "# HELP "@ + name + " "@ + help + "\n"@;
    assert(first =~= whole.subrange(0, first.len() as int)) by {
        assert(first =~= head.subrange(0, first.len() as int));
        assert(head =~= whole.subrange(0, head.len() as int));
    }
}

/// A histogram is shown line by line.
proof fn lemma_histogram_text(h: HistogramView, name: Seq<char>, help: Seq<char>)
    ensures
        histogram_text(h, name, help) == header_text(name, help, "histogram"@) + buckets_text(
            name,
            h.buckets,
            12,
        ) + (bucket_line(name, "+Inf"@, h.count) + "\n"@) + (name + "_sum "@ + seconds(
            h.sum_micros as nat,
        ) + "\n"@) + (name + "_count "@ + decimal(h.count as nat) + "\n"@),
{
    let upto = header_text(name, help, "histogram"@) + buckets_text(name, h.buckets, 12);
    let all = upto + bucket_text(name, "+Inf"@, h.count);
    let sum = name + "_sum "@ + seconds(h.sum_micros as nat) + "\n"@;
    let count = name + "_count "@ + decimal(h.count as nat) + "\n"@;
    let with_sum = all + name + "_sum "@ + seconds(h.sum_micros as nat) + "\n"@;
    assert(with_sum =~= all + sum);
    assert(with_sum + name + "_count "@ + decimal(h.count as nat) + "\n"@ =~= with_sum + count);
}

/// The microseconds that decimals stand for, the first of them counting `unit` each.
pub open spec fn micros_of(decimals: Seq<char>, unit: nat) -> int
    decreases decimals.len(),
{
    if decimals.len() == 0 {
        0
    } else {
        (decimals[0] as int - 48) * unit + micros_of(decimals.drop_first(), unit / 10)
    }
}

/// Decimals stand for the fraction that they were made from, and end in no zero.
proof fn lemma_decimals(fraction: nat, unit: nat)
    requires
        unit == 100_000 || unit == 10_000 || unit == 1_000 || unit == 100 || unit == 10 || unit
            == 1 || unit == 0,
        fraction < 10 * unit || fraction == 0,
    ensures
        micros_of(decimals(fraction, unit), unit) == fraction,
        all_digits(decimals(fraction, unit)),
        decimals(fraction, unit).len() == 0 <==> fraction == 0,
        fraction > 0 ==> decimals(fraction, unit).last() != '0',
    decreases unit,
{
    if fraction > 0 {
        let d = fraction / unit;
        let rest = fraction % unit;
        vstd::arithmetic::div_mod::lemma_fundamental_div_mod(fraction as int, unit as int);
        vstd::arithmetic::div_mod::lemma_mod_bound(fraction as int, unit as int);
        assert(d * unit == unit * d) by (nonlinear_arith);
        assert(d < 10) by (nonlinear_arith)
            requires
                fraction < 10 * unit,
                unit > 0,
                d == fraction / unit,
        ;
        lemma_decimals(rest, unit / 10);
        let all = decimals(fraction, unit);
        assert(all =~= seq![digit(d)] + decimals(rest, unit / 10));
        assert(all.drop_first() =~= decimals(rest, unit / 10));
        assert forall|i: int| 0 <= i < all.len() implies '0' <= #[trigger] all[i] <= '9' by {
            if i > 0 {
                assert(all[i] == decimals(rest, unit / 10)[i - 1]);
            }
        }
        if rest > 0 {
            assert(all.last() == decimals(rest, unit / 10).last());
        } else {
            assert(all.last() == digit(d));
            assert(d != 0) by (nonlinear_arith)
                requires
                    fraction == d * unit,
                    fraction > 0,
            ;
        }
    }
}

/// Law: microseconds are shown as whole seconds and, behind a point, as the decimals that are left
/// of them, the first counting a tenth of a second; a point and zeros at the end are left out.
pub proof fn law_seconds_stand_for_their_micros(micros: nat) -> (fraction: Seq<char>)
    ensures
        seconds(micros) == decimal(micros / 1_000_000) + (if fraction.len() > 0 {
            seq!['.'] + fraction
        } else {
            fraction
        }),
        all_digits(fraction),
        micros_of(fraction, 100_000) == micros % 1_000_000,
        fraction.len() > 0 ==> fraction.last() != '0',
{
    let fraction = decimals(micros % 1_000_000, 100_000);
    lemma_decimals(micros % 1_000_000, 100_000);
    assert(seconds(micros) =~= decimal(micros / 1_000_000) + (if fraction.len() > 0 {
        seq!['.'] + fraction
    } else {
        fraction
    }));
    fraction
}

/// Law: an observation counts once in every bucket whose bound it does not exceed and in no other,
/// once in all, and with its whole microseconds in the sum.
pub proof fn law_observation_counts_in_its_buckets(h: HistogramView, nanos: u128, i: int)
    requires
        0 <= i < 12,
        cumulative(h),
        h.count < u64::MAX,
        h.sum_micros + nanos / 1000 <= u64::MAX,
    ensures
        observed(h, nanos).buckets.len() == 12,
        nanos <= BOUND_NANOS@[i] ==> observed(h, nanos).buckets[i] == h.buckets[i] + 1,
        nanos > BOUND_NANOS@[i] ==> observed(h, nanos).buckets[i] == h.buckets[i],
        observed(h, nanos).count == h.count + 1,
        observed(h, nanos).sum_micros == h.sum_micros + nanos / 1000,
{
    assert(h.buckets[i] <= h.count);
}

/// Law: each bucket is shown under the bound by which observations are counted in it.
pub proof fn law_buckets_are_labelled_by_their_bounds(i: int)
    requires
        0 <= i < 12,
    ensures
        BOUND_LABELS@[i]@ == seconds((BOUND_NANOS@[i] / 1000) as nat),
        BOUND_NANOS@[i] % 1000 == 0,
{
    reveal_strlit("0.1");
    reveal_strlit("0.25");
    reveal_strlit("0.5");
    reveal_strlit("1");
    reveal_strlit("2");
    reveal_strlit("3");
    reveal_strlit("5");
    reveal_strlit("10");
    reveal_strlit("20");
    reveal_strlit("30");
    reveal_strlit("60");
    reveal_strlit("120");
    reveal_with_fuel(decimal, 4);
    reveal_with_fuel(decimals, 4);
    assert(i == 0 || i == 1 || i == 2 || i == 3 || i == 4 || i == 5 || i == 6 || i == 7 || i == 8
        || i == 9 || i == 10 || i == 11);
    assert(BOUND_LABELS@[i]@ =~= seconds((BOUND_NANOS@[i] / 1000) as nat));
}

/// Write the two comment lines that introduce a metric.
fn header(name: &str, help: &str, kind: &str) -> (r: String)
    ensures
        r@ == header_text(name@, help@, kind@),
{
    let mut r = "# HELP ".to_owned();
    r.append(name);
    r.append(" ");
    r.append(help);
    r.append("\n# TYPE ");
    r.append(name);
    r.append(" ");
    r.append(kind);
    r.append("\n");
    r
}

/// Write the line of one bucket.
fn bucket(name: &str, label: &str, value: u64) -> (r: String)
    ensures
        r@ == bucket_text(name@, label@, value),
{
    let digits = text::to_decimal(value);
    let mut r = name.to_owned();
    r.append("_bucket{le=\"");
    r.append(label);
    r.append("\"} ");
    r.append(digits.as_str());
    r.append("\n");
    r
}

/// Write microseconds as seconds in decimal notation, without trailing zeros.
fn write_seconds(micros: u64) -> (r: String)
    ensures
        r@ == seconds(micros as nat),
{
    let mut r = text::to_decimal(micros / 1_000_000);
    let mut fraction: u64 = micros % 1_000_000;
    if fraction == 0 {
        return r;
    }
    r.push('.');
    let mut unit: u64 = 100_000;
    let ghost whole = r@ + decimals(fraction as nat, unit as nat);
    while fraction != 0 && unit != 0
        invariant
            unit == 100_000 || unit == 10_000 || unit == 1_000 || unit == 100 || unit == 10 || unit
                == 1 || unit == 0,
            fraction < 10 * unit || (unit == 0 && fraction == 0),
            r@ + decimals(fraction as nat, unit as nat) == whole,
        decreases unit,
    {
        let d = fraction / unit;
        assert(d < 10) by (nonlinear_arith)
            requires
                fraction < 10 * unit,
                unit > 0,
                d == fraction / unit,
        ;
        let ghost before = r@;
        r.push((48 + d as u8) as char);
        let rest = fraction % unit;
        assert(r@ + decimals(rest as nat, (unit / 10) as nat) =~= before + (seq![
            digit(d as nat),
        ] + decimals(rest as nat, (unit / 10) as nat)));
        fraction = rest;
        unit = unit / 10;
    }
    assert(r@ + decimals(fraction as nat, unit as nat) =~= r@);
    r
}

impl Default for Histogram {
    fn default() -> (r: Self)
        ensures
            nothing_observed(r@),
    {
        let r = Histogram { buckets: [0, 0, 0, 0, 0, 0, 0, 0, 0, 0, 0, 0], count: 0, sum_micros: 0 };
        assert(r.buckets@ =~= Seq::new(12, |i: int| 0u64));
        r
    }
}

impl Histogram {
    /// Record one observation of a duration in nanoseconds.
    pub fn observe(&mut self, nanos: u128)
        ensures
            final(self)@ == observed(old(self)@, nanos),
    {
        let ghost before = self@;
        let mut i: usize = 0;
        while i < BUCKETS
            invariant
                i <= 12,
                before.buckets.len() == 12,
                self.count == before.count,
                self.sum_micros == before.sum_micros,
                forall|k: int| i <= k < 12 ==> self.buckets@[k] == before.buckets[k],
                forall|k: int|
                    0 <= k < i ==> #[trigger] self.buckets@[k] == observed(
                        before,
                        nanos,
                    ).buckets[k],
            decreases 12 - i,
        {
            if nanos <= BOUND_NANOS[i] as u128 {
                let mut value = self.buckets[i];
                count(&mut value, 1);
                self.buckets[i] = value;
            }
            i = i + 1;
        }
        assert(self.buckets@ =~= observed(before, nanos).buckets);
        count(&mut self.count, 1);
        let micros = nanos / 1000;
        let micros: u64 = if micros > u64::MAX as u128 {
            u64::MAX
        } else {
            micros as u64
        };
        count(&mut self.sum_micros, micros);
    }

    /// Append the histogram in the exposition format.
    pub fn render(&self, out: &mut String, name: &str, help: &str)
        ensures
            final(out)@ == old(out)@ + histogram_text(self@, name@, help@),
    {
        let mut r = header(name, help, "histogram");
        let mut lines = String::new();
        let mut i: usize = 0;
        while i < BUCKETS
            invariant
                i <= 12,
                lines@ == buckets_text(name@, self.buckets@, i as nat),
            decreases 12 - i,
        {
            let line = bucket(name, BOUND_LABELS[i], self.buckets[i]);
            lines.append(line.as_str());
            i = i + 1;
        }
        r.append(lines.as_str());
        let all = bucket(name, "+Inf", self.count);
        r.append(all.as_str());
        r.append(name);
        r.append("_sum ");
        let sum = write_seconds(self.sum_micros);
        r.append(sum.as_str());
        r.append("\n");
        r.append(name);
        r.append("_count ");
        let digits = text::to_decimal(self.count);
        r.append(digits.as_str());
        r.append("\n");
        out.append(r.as_str());
    }
}

/// Law: the buckets of a fresh histogram are cumulative.
pub proof fn law_fresh_histogram_is_cumulative(h: HistogramView)
    requires
        nothing_observed(h),
    ensures
        cumulative(h),
{
}

/// Law: an observation keeps the buckets cumulative, as long as the count is not full.
pub proof fn law_observing_keeps_buckets_cumulative(h: HistogramView, nanos: u128)
    requires
        cumulative(h),
        h.count < u64::MAX,
    ensures
        cumulative(observed(h, nanos)),
        observed(h, nanos).count == h.count + 1,
{
    let after = observed(h, nanos);
    assert(forall|i: int, j: int|
        0 <= i <= j < 12 ==> #[trigger] BOUND_NANOS@[i] <= #[trigger] BOUND_NANOS@[j]);
    assert forall|i: int, j: int| 0 <= i <= j < 12 implies #[trigger] after.buckets[i]
        <= #[trigger] after.buckets[j] by {
        assert(h.buckets[i] <= h.buckets[j] <= h.count);
        assert(BOUND_NANOS@[i] <= BOUND_NANOS@[j]);
    }
}

/// Process-wide counters.
#[derive(Debug)]
pub struct Metrics {
    pub requests: u64,
    pub errors: u64,
    pub rejected_busy: u64,
    pub cancelled: u64,
    pub cache_hits: u64,
    pub input_tokens: u64,
    pub output_tokens: u64,
    pub active: i64,
    pub queued: i64,
    pub model_loaded: bool,
    pub request_duration: Histogram,
    pub queue_duration: Histogram,
    pub inference_duration: Histogram,
}

/// What the metrics hold.
pub struct MetricsView {
    pub requests: u64,
    pub errors: u64,
    pub rejected_busy: u64,
    pub cancelled: u64,
    pub cache_hits: u64,
    pub input_tokens: u64,
    pub output_tokens: u64,
    pub active: i64,
    pub queued: i64,
    pub model_loaded: bool,
    pub request_duration: HistogramView,
    pub queue_duration: HistogramView,
    pub inference_duration: HistogramView,
}

impl View for Metrics {
    type V = MetricsView;

    open spec fn view(&self) -> MetricsView {
        MetricsView {
            requests: self.requests,
            errors: self.errors,
            rejected_busy: self.rejected_busy,
            cancelled: self.cancelled,
            cache_hits: self.cache_hits,
            input_tokens: self.input_tokens,
            output_tokens: self.output_tokens,
            active: self.active,
            queued: self.queued,
            model_loaded: self.model_loaded,
            request_duration: self.request_duration@,
            queue_duration: self.queue_duration@,
            inference_duration: self.inference_duration@,
        }
    }
}

/// All metrics in the exposition format.
pub open spec fn metrics_text(m: MetricsView) -> Seq<char> {
    value_text(
        "ltengine_translate_requests_total"@,
        "Translation requests received."@,
        "counter"@,
        decimal(m.requests as nat),
    ) + value_text(
        "ltengine_translate_errors_total"@,
        "Translation requests that failed."@,
        "counter"@,
        decimal(m.errors as nat),
    ) + value_text(
        "ltengine_translate_rejected_busy_total"@,
        "Requests rejected because the queue was full or timed out."@,
        "counter"@,
        decimal(m.rejected_busy as nat),
    ) + value_text(
        "ltengine_translate_cancelled_total"@,
        "Requests abandoned by the client before completion."@,
        "counter"@,
        decimal(m.cancelled as nat),
    ) + value_text(
        "ltengine_translate_cache_hits_total"@,
        "Translations served from the in-memory cache."@,
        "counter"@,
        decimal(m.cache_hits as nat),
    ) + value_text(
        "ltengine_input_tokens_total"@,
        "Prompt tokens processed."@,
        "counter"@,
        decimal(m.input_tokens as nat),
    ) + value_text(
        "ltengine_output_tokens_total"@,
        "Tokens generated."@,
        "counter"@,
        decimal(m.output_tokens as nat),
    ) + value_text(
        "ltengine_active_inferences"@,
        "Inferences currently running."@,
        "gauge"@,
        signed_decimal(m.active as int),
    ) + value_text(
        "ltengine_queued_requests"@,
        "Requests waiting for the inference worker."@,
        "gauge"@,
        signed_decimal(m.queued as int),
    ) + value_text(
        "ltengine_model_loaded"@,
        "1 when the model is loaded and ready."@,
        "gauge"@,
        signed_decimal(
            if m.model_loaded {
                1
            } else {
                0
            },
        ),
    ) + histogram_text(
        m.request_duration,
        "ltengine_request_duration_seconds"@,
        "End-to-end /translate latency."@,
    ) + histogram_text(
        m.queue_duration,
        "ltengine_queue_duration_seconds"@,
        "Time spent waiting for the inference worker."@,
    ) + histogram_text(
        m.inference_duration,
        "ltengine_inference_duration_seconds"@,
        "Model inference time."@,
    )
}

/// Law: every counter and gauge is shown under its own name with its own value, and so are the
/// counts, sums and buckets of the three histograms.
pub proof fn law_every_metric_is_shown(m: MetricsView, i: int)
    requires
        0 <= i < 12,
    ensures
        ({
            let r = metrics_text(m);
            let loaded: nat = if m.model_loaded {
                1
            } else {
                0
            };
            let first = "ltengine_request_duration_seconds"@;
            let second = "ltengine_queue_duration_seconds"@;
            let third = "ltengine_inference_duration_seconds"@;
            &&& has_line(r, "ltengine_translate_requests_total"@ + " "@ + decimal(m.requests as nat))
            &&& has_line(r, "ltengine_translate_errors_total"@ + " "@ + decimal(m.errors as nat))
            &&& has_line(
                r,
                "ltengine_translate_rejected_busy_total"@ + " "@ + decimal(m.rejected_busy as nat),
            )
            &&& has_line(
                r,
                "ltengine_translate_cancelled_total"@ + " "@ + decimal(m.cancelled as nat),
            )
            &&& has_line(
                r,
                "ltengine_translate_cache_hits_total"@ + " "@ + decimal(m.cache_hits as nat),
            )
            &&& has_line(r, "ltengine_input_tokens_total"@ + " "@ + decimal(m.input_tokens as nat))
            &&& has_line(
                r,
                "ltengine_output_tokens_total"@ + " "@ + decimal(m.output_tokens as nat),
            )
            &&& has_line(r, "ltengine_active_inferences"@ + " "@ + signed_decimal(m.active as int))
            &&& has_line(r, "ltengine_queued_requests"@ + " "@ + signed_decimal(m.queued as int))
            &&& has_line(r, "ltengine_model_loaded"@ + " "@ + decimal(loaded))
            &&& has_line(r, first + "_count "@ + decimal(m.request_duration.count as nat))
            &&& has_line(r, first + "_sum "@ + seconds(m.request_duration.sum_micros as nat))
            &&& has_line(
                r,
                first + "_bucket{le=\""@ + BOUND_LABELS@[i]@ + "\"} "@ + decimal(
                    m.request_duration.buckets[i] as nat,
                ),
            )
            &&& has_line(r, second + "_count "@ + decimal(m.queue_duration.count as nat))
            &&& has_line(r, second + "_sum "@ + seconds(m.queue_duration.sum_micros as nat))
            &&& has_line(
                r,
                second + "_bucket{le=\""@ + BOUND_LABELS@[i]@ + "\"} "@ + decimal(
                    m.queue_duration.buckets[i] as nat,
                ),
            )
            &&& has_line(r, third + "_count "@ + decimal(m.inference_duration.count as nat))
            &&& has_line(r, third + "_sum "@ + seconds(m.inference_duration.sum_micros as nat))
            &&& has_line(
                r,
                third + "_bucket{le=\""@ + BOUND_LABELS@[i]@ + "\"} "@ + decimal(
                    m.inference_duration.buckets[i] as nat,
                ),
            )
        }),
{
    broadcast use lemma_part_of_sum;

    let loaded: int = if m.model_loaded {
        1
    } else {
        0
    };
    law_value_is_shown(
        "ltengine_translate_requests_total"@,
        "Translation requests received."@,
        "counter"@,
        decimal(m.requests as nat),
    );
    law_value_is_shown(
        "ltengine_translate_errors_total"@,
        "Translation requests that failed."@,
        "counter"@,
        decimal(m.errors as nat),
    );
    law_value_is_shown(
        "ltengine_translate_rejected_busy_total"@,
        "Requests rejected because the queue was full or timed out."@,
        "counter"@,
        decimal(m.rejected_busy as nat),
    );
    law_value_is_shown(
        "ltengine_translate_cancelled_total"@,
        "Requests abandoned by the client before completion."@,
        "counter"@,
        decimal(m.cancelled as nat),
    );
    law_value_is_shown(
        "ltengine_translate_cache_hits_total"@,
        "Translations served from the in-memory cache."@,
        "counter"@,
        decimal(m.cache_hits as nat),
    );
    law_value_is_shown(
        "ltengine_input_tokens_total"@,
        "Prompt tokens processed."@,
        "counter"@,
        decimal(m.input_tokens as nat),
    );
    law_value_is_shown(
        "ltengine_output_tokens_total"@,
        "Tokens generated."@,
        "counter"@,
        decimal(m.output_tokens as nat),
    );
    law_value_is_shown(
        "ltengine_active_inferences"@,
        "Inferences currently running."@,
        "gauge"@,
        signed_decimal(m.active as int),
    );
    law_value_is_shown(
        "ltengine_queued_requests"@,
        "Requests waiting for the inference worker."@,
        "gauge"@,
        signed_decimal(m.queued as int),
    );
    law_value_is_shown(
        "ltengine_model_loaded"@,
        "1 when the model is loaded and ready."@,
        "gauge"@,
        signed_decimal(loaded),
    );
    law_histogram_is_shown(
        m.request_duration,
        "ltengine_request_duration_seconds"@,
        "End-to-end /translate latency."@,
        i,
    );
    law_histogram_is_shown(
        m.queue_duration,
        "ltengine_queue_duration_seconds"@,
        "Time spent waiting for the inference worker."@,
        i,
    );
    law_histogram_is_shown(
        m.inference_duration,
        "ltengine_inference_duration_seconds"@,
        "Model inference time."@,
        i,
    );
}

/// Write a metric of one value.
fn single_value(name: &str, help: &str, kind: &str, value: &str) -> (r: String)
    ensures
        r@ == value_text(name@, help@, kind@, value@),
{
    let mut r = header(name, help, kind);
    r.append(name);
    r.append(" ");
    r.append(value);
    r.append("\n");
    r
}

/// Append a counter.
fn counter(out: &mut String, name: &str, help: &str, value: u64)
    ensures
        final(out)@ == old(out)@ + value_text(name@, help@, "counter"@, decimal(value as nat)),
{
    let digits = text::to_decimal(value);
    let lines = single_value(name, help, "counter", digits.as_str());
    out.append(lines.as_str());
}

/// Append a gauge.
fn gauge(out: &mut String, name: &str, help: &str, value: i64)
    ensures
        final(out)@ == old(out)@ + value_text(name@, help@, "gauge"@, signed_decimal(value as int)),
{
    let digits = text::to_signed_decimal(value);
    let lines = single_value(name, help, "gauge", digits.as_str());
    out.append(lines.as_str());
}

impl Default for Metrics {
    fn default() -> (r: Self)
        ensures
            r.requests == 0 && r.errors == 0 && r.rejected_busy == 0 && r.cancelled == 0
                && r.cache_hits == 0 && r.input_tokens == 0 && r.output_tokens == 0,
            r.active == 0 && r.queued == 0 && !r.model_loaded,
            nothing_observed(r.request_duration@),
            nothing_observed(r.queue_duration@),
            nothing_observed(r.inference_duration@),
    {
        Metrics {
            requests: 0,
            errors: 0,
            rejected_busy: 0,
            cancelled: 0,
            cache_hits: 0,
            input_tokens: 0,
            output_tokens: 0,
            active: 0,
            queued: 0,
            model_loaded: false,
            request_duration: Histogram::default(),
            queue_duration: Histogram::default(),
            inference_duration: Histogram::default(),
        }
    }
}

impl Metrics {
    /// Render all metrics.
    pub fn render(&self) -> (r: String)
        ensures
            r@ == metrics_text(self@),
    {
        let digits = text::to_decimal(self.requests);
        let mut out = single_value(
            "ltengine_translate_requests_total",
            "Translation requests received.",
            "counter",
            digits.as_str(),
        );
        counter(
            &mut out,
            "ltengine_translate_errors_total",
            "Translation requests that failed.",
            self.errors,
        );
        counter(
            &mut out,
            "ltengine_translate_rejected_busy_total",
            "Requests rejected because the queue was full or timed out.",
            self.rejected_busy,
        );
        counter(
            &mut out,
            "ltengine_translate_cancelled_total",
            "Requests abandoned by the client before completion.",
            self.cancelled,
        );
        counter(
            &mut out,
            "ltengine_translate_cache_hits_total",
            "Translations served from the in-memory cache.",
            self.cache_hits,
        );
        counter(
            &mut out,
            "ltengine_input_tokens_total",
            "Prompt tokens processed.",
            self.input_tokens,
        );
        counter(
            &mut out,
            "ltengine_output_tokens_total",
            "Tokens generated.",
            self.output_tokens,
        );
        gauge(
            &mut out,
            "ltengine_active_inferences",
            "Inferences currently running.",
            self.active,
        );
        gauge(
            &mut out,
            "ltengine_queued_requests",
            "Requests waiting for the inference worker.",
            self.queued,
        );
        gauge(
            &mut out,
            "ltengine_model_loaded",
            "1 when the model is loaded and ready.",
            if self.model_loaded {
                1
            } else {
                0
            },
        );
        self.request_duration.render(
            &mut out,
            "ltengine_request_duration_seconds",
            "End-to-end /translate latency.",
        );
        self.queue_duration.render(
            &mut out,
            "ltengine_queue_duration_seconds",
            "Time spent waiting for the inference worker.",
        );
        self.inference_duration.render(
            &mut out,
            "ltengine_inference_duration_seconds",
            "Model inference time.",
        );
        out
    }
}

} // verus!

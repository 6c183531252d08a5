//! Small helpers of the announcement: calendar tests, abbreviated counts, genre hashtags.

use crate::clock::{day_number, precedes, Timestamp};
use crate::text::{decimal, joined, lowercased, push_decimal, push_replaced, replaced, to_lowercase};
use vstd::arithmetic::power2::{lemma2_to64, lemma_pow2_strictly_increases, lemma_pow2_unfold, pow2};
use vstd::prelude::*;

verus! {

/// Whether `date` falls on the same UTC calendar day as `now`.
pub fn is_today(date: &Timestamp, now: &Timestamp) -> (today: bool)
    ensures
        today == (day_number(*date) == day_number(*now)),
{
    date.day() == now.day()
}

/// Whether `date` lies strictly before `now`.
pub fn is_in_past(date: &Timestamp, now: &Timestamp) -> (past: bool)
    ensures
        past == precedes(*date, *now),
{
    now.secs > date.secs || (now.secs == date.secs && now.nanos > date.nanos)
}

/// `num / den` rounded to the nearest integer; a tie goes to the even neighbour.
pub open spec fn round_half_even(num: nat, den: nat) -> nat
    recommends
        den > 0,
{
    let q = num / den;
    let r = num % den;
    if 2 * r < den || (2 * r == den && q % 2 == 0) {
        q
    } else {
        q + 1
    }
}

/// The exponent `e` with `2^e <= num / den < 2^(e + 1)`, for `num >= den > 0`.
pub open spec fn binade(num: nat, den: nat) -> nat
    decreases num,
{
    if den == 0 || num < 2 * den {
        0
    } else {
        1 + binade(num / 2, den)
    }
}

/// The value `n` takes in single precision: `n` rounded to 24 significant bits, ties to even.
pub open spec fn nearest_single(n: nat) -> nat {
    let e = binade(n, 1);
    if e <= 23 {
        n
    } else {
        let step = pow2((e - 23) as nat);
        round_half_even(n, step) * step
    }
}

/// Ten times the single-precision quotient `x / unit`, rounded to the nearest integer with ties
/// to even. The quotient itself is `x / unit` rounded to 24 significant bits, ties to even;
/// it is meant for `1 <= x / unit < 2^24`.
pub open spec fn tenths(x: nat, unit: nat) -> nat {
    let scale = pow2((23 - binade(x, unit)) as nat);
    let mantissa = round_half_even(x * scale, unit);
    round_half_even(10 * mantissa, scale)
}

/// The unit a count is abbreviated in.
pub open spec fn unit_of(n: nat) -> nat {
    if n >= 1_000_000_000 {
        1_000_000_000
    } else if n >= 1_000_000 {
        1_000_000
    } else {
        1_000
    }
}

/// The letter that stands for `unit_of(n)`.
pub open spec fn suffix_of(n: nat) -> char {
    if n >= 1_000_000_000 {
        'B'
    } else if n >= 1_000_000 {
        'M'
    } else {
        'K'
    }
}

/// A count as readers see it: below a thousand in full, from there on in thousands,
/// millions or billions with at most one decimal, computed in single precision.
pub open spec fn abbreviated(n: nat) -> Seq<char> {
    if n < 1_000 {
        decimal(n)
    } else {
        let t = tenths(nearest_single(n), unit_of(n));
        let whole = decimal(t / 10);
        if t % 10 == 0 {
            whole.push(suffix_of(n))
        } else {
            (whole.push('.') + decimal(t % 10)).push(suffix_of(n))
        }
    }
}

fn rounded_div(num: u64, den: u64) -> (q: u64)
    requires
        0 < den <= 0x4000_0000_0000_0000,
        num <= 0x7fff_ffff_ffff_fffe,
    ensures
        q == round_half_even(num as nat, den as nat),
        q <= num / den + 1,
{
    let q: u64 = num / den;
    let r: u64 = num % den;
    if 2 * r < den || (2 * r == den && q % 2 == 0) {
        q
    } else {
        q + 1
    }
}

fn floor_log2(num: u64, den: u64) -> (e: u32)
    requires
        0 < den <= num,
        den <= 0x4000_0000_0000_0000,
    ensures
        e == binade(num as nat, den as nat),
        den * pow2(e as nat) <= num,
        e <= 63,
{
    let mut e: u32 = 0;
    let mut m: u64 = num;
    proof {
        lemma2_to64();
    }
    while m >= 2 * den
        invariant
            0 < den <= m,
            den <= 0x4000_0000_0000_0000,
            e + binade(m as nat, den as nat) == binade(num as nat, den as nat),
            m * pow2(e as nat) <= num,
            e <= 63,
        decreases m,
    {
        proof {
            let half = (m / 2) as nat;
            let p = pow2(e as nat);
            lemma_pow2_double(e as nat);
            assert(half * (2 * p) <= m * p) by (nonlinear_arith)
                requires
                    2 * half <= m,
            ;
            if e >= 63 {
                lemma2_to64();
                if e + 1 > 64 {
                    lemma_pow2_strictly_increases(64, (e + 1) as nat);
                }
                assert(half * (2 * p) >= 2 * p) by (nonlinear_arith)
                    requires
                        half >= 1,
                ;
            }
        }
        m = m / 2;
        e = e + 1;
    }
    proof {
        assert(den * pow2(e as nat) <= m * pow2(e as nat)) by (nonlinear_arith)
            requires
                den <= m,
        ;
    }
    e
}

/// Each power of two is positive and half the next.
proof fn lemma_pow2_double(e: nat)
    ensures
        pow2(e + 1) == 2 * pow2(e),
        pow2(e) > 0,
{
    lemma_pow2_unfold(e + 1);
    vstd::arithmetic::power2::lemma_pow2_pos(e);
}

fn power_of_two(k: u32) -> (p: u64)
    requires
        k <= 32,
    ensures
        p == pow2(k as nat),
        1 <= p <= 0x1_0000_0000,
{
    let mut p: u64 = 1;
    let mut i: u32 = 0;
    proof {
        lemma2_to64();
    }
    while i < k
        invariant
            i <= k <= 32,
            p == pow2(i as nat),
            1 <= p <= pow2(32),
            pow2(32) == 0x1_0000_0000,
        decreases k - i,
    {
        proof {
            lemma_pow2_unfold((i + 1) as nat);
            if i + 1 < 32 {
                lemma_pow2_strictly_increases((i + 1) as nat, 32);
            }
        }
        p = 2 * p;
        i = i + 1;
    }
    p
}

fn to_single(n: u32) -> (x: u64)
    requires
        n >= 1,
    ensures
        x == nearest_single(n as nat),
        n <= x + 128,
        x <= n + 128,
{
    let e = floor_log2(n as u64, 1);
    if e <= 23 {
        return n as u64;
    }
    proof {
        lemma2_to64();
        if e > 32 {
            lemma_pow2_strictly_increases(32, e as nat);
        }
    }
    let step = power_of_two(e - 23);
    proof {
        if e - 23 < 8 {
            lemma_pow2_strictly_increases((e - 23) as nat, 8);
        }
    }
    let m = rounded_div(n as u64, step);
    proof {
        let q = (n as nat) / (step as nat);
        let r = (n as nat) % (step as nat);
        assert(n == q * step + r && r < step) by (nonlinear_arith)
            requires
                q == (n as nat) / (step as nat),
                r == (n as nat) % (step as nat),
                step > 0,
        ;
        assert(m == q || m == q + 1);
        assert(m == q + 1 ==> 2 * r >= step);
        assert(m == q ==> 2 * r <= step);
        assert((q + 1) * step == q * step + step) by (nonlinear_arith);
    }
    m * step
}

fn quotient_tenths(x: u64, unit: u64) -> (t: u64)
    requires
        1_000 <= unit <= x,
        x <= 0x1_0000_0100,
    ensures
        t == tenths(x as nat, unit as nat),
{
    let e = floor_log2(x, unit);
    proof {
        lemma2_to64();
        if e >= 23 {
            if e > 23 {
                lemma_pow2_strictly_increases(23, e as nat);
            }
            assert(false) by (nonlinear_arith)
                requires
                    unit * pow2(e as nat) <= x,
                    pow2(e as nat) >= 0x80_0000,
                    unit >= 1_000,
                    x <= 0x1_0000_0100,
            ;
        }
    }
    let scale = power_of_two(23 - e);
    proof {
        if 23 - e < 23 {
            lemma_pow2_strictly_increases((23 - e) as nat, 23);
        }
        assert(x * scale <= 0x1_0000_0100 * 0x80_0000) by (nonlinear_arith)
            requires
                x <= 0x1_0000_0100,
                scale <= 0x80_0000,
        ;
    }
    let mantissa = rounded_div(x * scale, unit);
    proof {
        assert((x * scale) / (unit as int) <= x * scale) by (nonlinear_arith)
            requires
                unit >= 1,
                x * scale >= 0,
        ;
    }
    rounded_div(10 * mantissa, scale)
}

/// Abbreviates a count for display: `999`, `1.5K`, `2M`, `4.3B`.
pub fn format_number(n: u32) -> (text: String)
    ensures
        text@ == abbreviated(n as nat),
{
    let mut text = String::new();
    if n < 1_000 {
        push_decimal(&mut text, n as u64);
        return text;
    }
    let unit: u64 = if n >= 1_000_000_000 {
        1_000_000_000
    } else if n >= 1_000_000 {
        1_000_000
    } else {
        1_000
    };
    let suffix = if n >= 1_000_000_000 {
        'B'
    } else if n >= 1_000_000 {
        'M'
    } else {
        'K'
    };
    let x = to_single(n);
    proof {
        lemma_single_keeps_unit(n as nat);
    }
    let t = quotient_tenths(x, unit);
    push_decimal(&mut text, t / 10);
    if t % 10 != 0 {
        text.push('.');
        push_decimal(&mut text, t % 10);
    }
    text.push(suffix);
    text
}

/// Rounding to single precision never takes a count below its unit.
proof fn lemma_single_keeps_unit(n: nat)
    requires
        1_000 <= n <= u32::MAX,
    ensures
        nearest_single(n) >= unit_of(n),
{
    let e = binade(n, 1);
    if e > 23 {
        let step = pow2((e - 23) as nat);
        lemma_binade_bounds(n, 1);
        lemma2_to64();
        if e > 32 {
            lemma_pow2_strictly_increases(32, e);
        }
        assert(pow2(e) == 1 * pow2(e));
        if n < 1_000_000_000 && e > 30 {
            lemma_pow2_strictly_increases(30, e);
        }
        let s = (e - 23) as nat;
        assert(s == 1 || s == 2 || s == 3 || s == 4 || s == 5 || s == 6 || s == 7 || s == 8);
        assert(n < 1_000_000_000 ==> s <= 6);
        assert(1_000_000nat % 64 == 0 && 1_000_000_000nat % 256 == 0);
        // Both units above 2^24 are multiples of every step up to 2^8, so a count at or above
        // the unit cannot round below it.
        lemma_round_keeps_multiple(n, step, unit_of(n));
    }
}

/// `binade` brackets the ratio between two neighbouring powers of two.
pub proof fn lemma_binade_bounds(num: nat, den: nat)
    requires
        0 < den <= num,
    ensures
        den * pow2(binade(num, den)) <= num < 2 * (den * pow2(binade(num, den))),
    decreases num,
{
    lemma2_to64();
    if num < 2 * den {
        assert(den * pow2(0) == den);
    } else {
        let half = num / 2;
        let b = binade(half, den);
        lemma_binade_bounds(half, den);
        lemma_pow2_double(b);
        assert(binade(num, den) == b + 1);
        let below = den * pow2(b);
        assert(den * pow2(b + 1) == 2 * below) by (nonlinear_arith)
            requires
                pow2(b + 1) == 2 * pow2(b),
                below == den * pow2(b),
        ;
    }
}

proof fn lemma_round_keeps_multiple(n: nat, step: nat, unit: nat)
    requires
        step > 0,
        unit <= n,
        unit % step == 0,
    ensures
        round_half_even(n, step) * step >= unit,
{
    let q = n / step;
    let u = unit / step;
    assert(unit == u * step) by (nonlinear_arith)
        requires
            u == unit / step,
            unit % step == 0,
            step > 0,
    ;
    assert(u <= q) by (nonlinear_arith)
        requires
            u == unit / step,
            q == n / step,
            unit <= n,
            step > 0,
    ;
    assert(round_half_even(n, step) >= q);
    assert(round_half_even(n, step) * step >= u * step) by (nonlinear_arith)
        requires
            round_half_even(n, step) >= q,
            u <= q,
    ;
}

/// The hashtag of a genre: `#`, then its name in lower case with blanks and hyphens
/// turned into underscores.
pub open spec fn hashtag(name: Seq<char>) -> Seq<char> {
    seq!['#'] + replaced(replaced(lowercased(name), ' ', '_'), '-', '_')
}

/// The hashtags of the genres, separated by a comma and a blank.
pub open spec fn genre_line(names: Seq<Seq<char>>) -> Seq<char> {
    joined(names.map_values(|name: Seq<char>| hashtag(name)), seq![',', ' '])
}

/// Writes the genres of an episode as a line of hashtags.
pub fn parse_categories(categories: &Vec<String>) -> (line: String)
    ensures
        line@ == genre_line(categories.deep_view()),
{
    let mut line = String::new();
    let ghost names = categories.deep_view();
    let ghost tags = names.map_values(|name: Seq<char>| hashtag(name));
    let mut i: usize = 0;
    while i < categories.len()
        invariant
            i <= categories.len(),
            names == categories.deep_view(),
            tags == names.map_values(|name: Seq<char>| hashtag(name)),
            line@ == joined(tags.take(i as int), seq![',', ' ']),
        decreases categories.len() - i,
    {
        let ghost before = line@;
        if i > 0 {
            line.push(',');
            line.push(' ');
        }
        line.push('#');
        let lower = to_lowercase(categories[i].as_str());
        let mut spaced = String::new();
        push_replaced(&mut spaced, lower.as_str(), ' ', '_');
        push_replaced(&mut line, spaced.as_str(), '-', '_');
        proof {
            assert(names[i as int] == categories[i as int]@);
            assert(tags[i as int] == hashtag(names[i as int]));
            let shown = tags.take(i + 1);
            assert(shown.drop_last() == tags.take(i as int));
            assert(shown.last() == tags[i as int]);
            if i > 0 {
                assert(line@ == before + seq![',', ' '] + tags[i as int]);
            } else {
                assert(line@ == tags[i as int]);
            }
        }
        i = i + 1;
    }
    assert(tags.take(categories.len() as int) == tags);
    line
}

} // verus!

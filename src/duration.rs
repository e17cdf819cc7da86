use vstd::prelude::*;
use vstd::string::StrSliceExecFns;

verus! {

pub const MAX_SECONDS: i64 = 0x7fff_ffff_ffff_ffff;

pub open spec fn is_digit(c: char) -> bool {
    '0' <= c && c <= '9'
}

pub open spec fn digit_value(c: char) -> int {
    (c as u32) as int - ('0' as u32) as int
}

/// Seconds per unit for the designators `H`, `M` and `S`; zero for any other char.
pub open spec fn unit_factor(c: char) -> int {
    if c == 'H' {
        3600
    } else if c == 'M' {
        60
    } else if c == 'S' {
        1
    } else {
        0
    }
}

/// Decimal value of the chars `s[lo..hi]`.
pub open spec fn digits_value(s: Seq<char>, lo: int, hi: int) -> int
    decreases hi - lo,
{
    if hi <= lo {
        0
    } else {
        digits_value(s, lo, hi - 1) * 10 + digit_value(s[hi - 1])
    }
}

/// Start of the longest run of decimal digits that ends just before `n`.
pub open spec fn run_start(s: Seq<char>, n: int) -> int
    decreases n,
{
    if n <= 0 {
        0
    } else if is_digit(s[n - 1]) {
        run_start(s, n - 1)
    } else {
        n
    }
}

/// The number written just before position `n`; zero when it is empty or does
/// not fit in an `i64`.
pub open spec fn run_number(s: Seq<char>, n: int) -> int {
    let v = digits_value(s, run_start(s, n), n);
    if v <= MAX_SECONDS as int {
        v
    } else {
        0
    }
}

/// Exact number of seconds that the first `n` chars of `s` designate.
pub open spec fn seconds_upto(s: Seq<char>, n: int) -> int
    decreases n,
{
    if n <= 0 {
        0
    } else {
        seconds_upto(s, n - 1) + unit_factor(s[n - 1]) * run_number(s, n - 1)
    }
}

/// Decoded duration of `s`, saturated at the largest `i64`.
pub open spec fn duration_seconds(s: Seq<char>) -> int {
    let t = seconds_upto(s, s.len() as int);
    if t <= MAX_SECONDS as int {
        t
    } else {
        MAX_SECONDS as int
    }
}

proof fn lemma_digits_nonneg(s: Seq<char>, lo: int, hi: int)
    requires
        forall|j: int| lo <= j < hi ==> is_digit(#[trigger] s[j]),
    ensures
        digits_value(s, lo, hi) >= 0,
    decreases hi - lo,
{
    if hi > lo {
        lemma_digits_nonneg(s, lo, hi - 1);
    }
}

proof fn lemma_run_digits(s: Seq<char>, n: int)
    requires
        0 <= n <= s.len(),
    ensures
        0 <= run_start(s, n) <= n,
        forall|j: int| run_start(s, n) <= j < n ==> is_digit(#[trigger] s[j]),
    decreases n,
{
    if n > 0 {
        lemma_run_digits(s, n - 1);
    }
}

proof fn lemma_seconds_nonneg(s: Seq<char>, n: int)
    requires
        0 <= n <= s.len(),
    ensures
        seconds_upto(s, n) >= 0,
    decreases n,
{
    if n > 0 {
        lemma_seconds_nonneg(s, n - 1);
        lemma_run_digits(s, n - 1);
        lemma_digits_nonneg(s, run_start(s, n - 1), n - 1);
    }
}

/// Decodes a compact duration such as `PT1H2M3S` into seconds.
///
/// Each `H`, `M` or `S` adds the digit run just before it times 3600, 60 or 1;
/// every other char only ends the current run. An empty run, or one too large
/// for an `i64`, counts as zero, and the total saturates at `i64::MAX`. The
/// decoder never fails.
pub fn from_iso8601(period: &str) -> (r: i64)
    ensures
        r == duration_seconds(period@),
        r >= 0,
{
    let n: usize = period.unicode_len();
    let mut i: usize = 0;
    let mut start: usize = 0;
    let mut run: i128 = 0;
    let mut run_too_big: bool = false;
    let mut total: i64 = 0;
    while i < n
        invariant
            n == period@.len(),
            i <= n,
            start == run_start(period@, i as int),
            !run_too_big ==> run == digits_value(period@, start as int, i as int),
            run_too_big ==> digits_value(period@, start as int, i as int) > MAX_SECONDS as int,
            0 <= run <= MAX_SECONDS as int,
            total as int == if seconds_upto(period@, i as int) <= MAX_SECONDS as int {
                seconds_upto(period@, i as int)
            } else {
                MAX_SECONDS as int
            },
        decreases n - i,
    {
        let c = period.get_char(i);
        proof {
            lemma_run_digits(period@, i as int);
            lemma_digits_nonneg(period@, start as int, i as int);
            lemma_seconds_nonneg(period@, i as int);
        }
        if '0' <= c && c <= '9' {
            let d: i128 = (c as u32 - '0' as u32) as i128;
            if !run_too_big {
                let next: i128 = run * 10 + d;
                if next > MAX_SECONDS as i128 {
                    run_too_big = true;
                    run = 0;
                } else {
                    run = next;
                }
            }
        } else {
            let number: i128 = if run_too_big {
                0
            } else {
                run
            };
            let term: i128 = if c == 'H' {
                number * 3600
            } else if c == 'M' {
                number * 60
            } else if c == 'S' {
                number
            } else {
                0
            };
            let sum: i128 = total as i128 + term;
            total = if sum > MAX_SECONDS as i128 {
                MAX_SECONDS
            } else {
                sum as i64
            };
            start = i + 1;
            run = 0;
            run_too_big = false;
        }
        i = i + 1;
    }
    proof {
        lemma_seconds_nonneg(period@, n as int);
    }
    total
}

} // verus!

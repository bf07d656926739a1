//! Decimal numerals: parsing path IDs the way `i32` parsing in Rust does
//! (optional sign, digits, whole input), and rendering integers for the JSON
//! encoder.
use vstd::prelude::*;

verus! {

pub open spec fn is_digit(b: u8) -> bool {
    48 <= b <= 57
}

/// Value of a run of decimal digits starting at `i`, accumulated onto `acc`.
/// Gives `None` once the accumulator passes every `i32` magnitude, so a
/// mirror that runs on `i64` cannot overflow; otherwise the position after
/// the run and the final value.
pub open spec fn sp_digits(s: Seq<u8>, i: int, acc: int) -> Option<(int, int)>
    decreases s.len() - i
    when 0 <= i <= s.len()
{
    if acc > 2147483648 {
        None
    } else if i < s.len() && is_digit(s[i]) {
        sp_digits(s, i + 1, acc * 10 + (s[i] - 48))
    } else {
        Some((i, acc))
    }
}

/// What `str::parse::<i32>` yields on this text: an optional `+` or `-`,
/// then one or more digits spanning the rest of the input, within range.
pub open spec fn sp_parse_i32(s: Seq<u8>) -> Option<i32> {
    let start: int = if s.len() > 0 && (s[0] == 43 || s[0] == 45) {
        1
    } else {
        0
    };
    let neg: bool = s.len() > 0 && s[0] == 45;
    if start < s.len() && is_digit(s[start]) {
        match sp_digits(s, start, 0) {
            Some((end, v)) => if end == s.len() {
                if neg {
                    if v <= 2147483648 {
                        Some((-v) as i32)
                    } else {
                        None
                    }
                } else {
                    if v <= 2147483647 {
                        Some(v as i32)
                    } else {
                        None
                    }
                }
            } else {
                None
            },
            None => None,
        }
    } else {
        None
    }
}

/// Runs the digit accumulator from position `i` with an empty accumulator.
pub fn run_digits(s: &Vec<u8>, i: usize) -> (r: Option<(usize, i64)>)
    requires
        i <= s.len(),
    ensures
        match r {
            Some(jv) => sp_digits(s@, i as int, 0) == Some((jv.0 as int, jv.1 as int)) && i
                <= jv.0 <= s.len() && 0 <= jv.1 <= 2147483648,
            None => sp_digits(s@, i as int, 0) is None,
        },
{
    let n = s.len();
    let mut j = i;
    let mut acc: i64 = 0;
    loop
        invariant
            i <= j <= n,
            n == s.len(),
            0 <= acc <= 21474836489,
            sp_digits(s@, i as int, 0) == sp_digits(s@, j as int, acc as int),
        decreases 21474836489 - acc + 2 * (n - j),
    {
        if acc > 2147483648 {
            assert(sp_digits(s@, j as int, acc as int) is None);
            return None;
        }
        if j < n && 48 <= s[j] && s[j] <= 57 {
            let d = (s[j] - 48) as i64;
            assert(sp_digits(s@, j as int, acc as int) == sp_digits(
                s@,
                j as int + 1,
                acc as int * 10 + d as int,
            ));
            acc = acc * 10 + d;
            j = j + 1;
        } else {
            assert(sp_digits(s@, j as int, acc as int) == Some((j as int, acc as int)));
            return Some((j, acc));
        }
    }
}

/// A digit run that yields a result ends at or after where it started.
pub proof fn lemma_digits_bounds(s: Seq<u8>, i: int, acc: int)
    requires
        0 <= i <= s.len(),
    ensures
        match sp_digits(s, i, acc) {
            Some(jv) => i <= jv.0 <= s.len(),
            None => true,
        },
    decreases s.len() - i,
{
    if acc > 2147483648 {
    } else if i < s.len() && is_digit(s[i]) {
        lemma_digits_bounds(s, i + 1, acc * 10 + (s[i] - 48));
    }
}

/// A digit run starting on a digit consumes at least that digit.
pub proof fn lemma_digits_advances(s: Seq<u8>, i: int)
    requires
        0 <= i < s.len(),
        is_digit(s[i]),
    ensures
        match sp_digits(s, i, 0) {
            Some(jv) => i < jv.0 <= s.len(),
            None => true,
        },
{
    assert(sp_digits(s, i, 0) == sp_digits(s, i + 1, (s[i] - 48) as int));
    lemma_digits_bounds(s, i + 1, (s[i] - 48) as int);
}

/// Parses the whole buffer as an `i32`, as `str::parse::<i32>` would.
pub fn parse_i32(s: &Vec<u8>) -> (r: Option<i32>)
    ensures
        r == sp_parse_i32(s@),
{
    let n = s.len();
    let mut i: usize = 0;
    let mut neg = false;
    if n > 0 && (s[0] == 43 || s[0] == 45) {
        i = 1;
        if s[0] == 45 {
            neg = true;
        }
    }
    if !(i < n && 48 <= s[i] && s[i] <= 57) {
        return None;
    }
    match run_digits(s, i) {
        None => None,
        Some((end, v)) => {
            if end != n {
                None
            } else if neg {
                if v <= 2147483648 {
                    Some((-v) as i32)
                } else {
                    None
                }
            } else {
                if v <= 2147483647 {
                    Some(v as i32)
                } else {
                    None
                }
            }
        },
    }
}

/// Decimal digits of a non-negative integer, most significant first.
pub open spec fn sp_dec_nat(n: int) -> Seq<u8>
    decreases n
    when n >= 0
{
    if n < 10 {
        seq![(48 + n) as u8]
    } else {
        sp_dec_nat(n / 10) + seq![(48 + n % 10) as u8]
    }
}

/// Decimal numeral of an integer, with a leading `-` when negative.
pub open spec fn sp_dec_int(n: int) -> Seq<u8> {
    if n < 0 {
        seq![45u8] + sp_dec_nat(-n)
    } else {
        sp_dec_nat(n)
    }
}

fn dec_nat_push(n: i64, out: &mut Vec<u8>)
    requires
        n >= 0,
    ensures
        final(out)@ == old(out)@ + sp_dec_nat(n as int),
    decreases n,
{
    if n < 10 {
        out.push((48 + n) as u8);
        assert(out@ =~= old(out)@ + sp_dec_nat(n as int));
    } else {
        dec_nat_push(n / 10, out);
        out.push((48 + (n % 10)) as u8);
        assert(out@ =~= old(out)@ + sp_dec_nat(n as int));
    }
}

/// Appends the decimal numeral of `n` to `out`.
pub fn dec_i32_push(n: i32, out: &mut Vec<u8>)
    ensures
        final(out)@ == old(out)@ + sp_dec_int(n as int),
{
    let w: i64 = n as i64;
    if w < 0 {
        out.push(45);
        dec_nat_push(-w, out);
        assert(out@ =~= old(out)@ + sp_dec_int(n as int));
    } else {
        dec_nat_push(w, out);
    }
}

} // verus!

//! Decimal integers: parsing as `str::parse::<i64>` does, and printing as
//! `Display` does.
use vstd::prelude::*;

verus! {

/// An ASCII decimal digit.
pub open spec fn is_digit(c: char) -> bool {
    48 <= (c as u32) && (c as u32) <= 57
}

/// The value of an ASCII decimal digit.
pub open spec fn digit_val(c: char) -> int {
    (c as u32) - 48
}

/// The value of a string of decimal digits, most significant first.
pub open spec fn digits_value(d: Seq<char>) -> int
    decreases d.len(),
{
    if d.len() == 0 {
        0
    } else {
        digits_value(d.drop_last()) * 10 + digit_val(d.last())
    }
}

pub open spec fn all_digits(d: Seq<char>) -> bool {
    forall|i: int| 0 <= i < d.len() ==> is_digit(#[trigger] d[i])
}

/// `s` begins with a minus sign.
pub open spec fn is_neg(s: Seq<char>) -> bool {
    s.len() > 0 && s[0] == '-'
}

/// `s` without its leading sign, if it has one.
pub open spec fn digits_part(s: Seq<char>) -> Seq<char> {
    if s.len() > 0 && (s[0] == '-' || s[0] == '+') {
        s.drop_first()
    } else {
        s
    }
}

/// The integer that `s` writes: an optional `+` or `-` and then one or
/// more decimal digits, nothing else.
pub open spec fn parse_int(s: Seq<char>) -> Option<int> {
    let d = digits_part(s);
    if d.len() > 0 && all_digits(d) {
        Some(
            if is_neg(s) {
                -digits_value(d)
            } else {
                digits_value(d)
            },
        )
    } else {
        None
    }
}

/// `str::parse::<i64>`: the integer that `s` writes, when it fits in `i64`.
pub open spec fn parse_i64(s: Seq<char>) -> Option<i64> {
    match parse_int(s) {
        Some(v) => if i64::MIN <= v && v <= i64::MAX {
            Some(v as i64)
        } else {
            None
        },
        None => None,
    }
}

/// The character of a decimal digit.
pub open spec fn digit_char(d: int) -> char {
    (d + 48) as char
}

/// The decimal numeral of `n`, without leading zeros.
pub open spec fn decimal_nat(n: nat) -> Seq<char>
    decreases n,
{
    if n < 10 {
        seq![digit_char(n as int)]
    } else {
        decimal_nat(n / 10).push(digit_char((n % 10) as int))
    }
}

/// The decimal numeral of `n` as `Display` writes it, `-` first for a
/// negative number.
pub open spec fn decimal(n: int) -> Seq<char> {
    if n < 0 {
        seq!['-'] + decimal_nat((-n) as nat)
    } else {
        decimal_nat(n as nat)
    }
}

proof fn lemma_digits_take_step(d: Seq<char>, k: int)
    requires
        0 <= k < d.len(),
    ensures
        digits_value(d.take(k + 1)) == digits_value(d.take(k)) * 10 + digit_val(d[k]),
{
    assert(d.take(k + 1).drop_last() =~= d.take(k));
}

proof fn lemma_digits_nonneg(d: Seq<char>, k: int)
    requires
        0 <= k <= d.len(),
        forall|j: int| 0 <= j < k ==> is_digit(#[trigger] d[j]),
    ensures
        digits_value(d.take(k)) >= 0,
    decreases k,
{
    if k == 0 {
        assert(d.take(0) =~= Seq::<char>::empty());
    } else {
        lemma_digits_nonneg(d, k - 1);
        lemma_digits_take_step(d, k - 1);
        assert(is_digit(d[k - 1]));
    }
}

proof fn lemma_digits_monotone(d: Seq<char>, k: int, m: int)
    requires
        0 <= k <= m <= d.len(),
        all_digits(d),
    ensures
        digits_value(d.take(k)) <= digits_value(d.take(m)),
    decreases m - k,
{
    if k < m {
        lemma_digits_monotone(d, k, m - 1);
        lemma_digits_take_step(d, m - 1);
        lemma_digits_nonneg(d, m - 1);
        assert(is_digit(d[m - 1]));
    }
}

/// Once the digits read so far leave the range of `i64`, the whole string
/// does not parse.
proof fn lemma_prefix_out_of_range(s: Seq<char>, k: int)
    requires
        0 <= k <= digits_part(s).len(),
        is_neg(s) ==> -digits_value(digits_part(s).take(k)) < i64::MIN,
        !is_neg(s) ==> digits_value(digits_part(s).take(k)) > i64::MAX,
    ensures
        parse_i64(s) is None,
{
    let d = digits_part(s);
    if all_digits(d) {
        lemma_digits_monotone(d, k, d.len() as int);
        assert(d.take(d.len() as int) =~= d);
    }
}

/// `str::parse::<i64>`.
pub fn parse_i64_exec(s: &[char]) -> (r: Option<i64>)
    ensures
        r == parse_i64(s@),
{
    let n = s.len();
    if n == 0 {
        return None;
    }
    let neg = s[0] == '-';
    let start: usize = if neg || s[0] == '+' {
        1
    } else {
        0
    };
    let ghost d = digits_part(s@);
    assert(d =~= s@.subrange(start as int, n as int));
    if start == n {
        return None;
    }
    let mut acc: i64 = 0;
    let mut i = start;
    assert(d.take(0) =~= Seq::<char>::empty());
    while i < n
        invariant
            start <= i <= n == s.len(),
            neg == is_neg(s@),
            d == digits_part(s@),
            d == s@.subrange(start as int, n as int),
            forall|k: int| 0 <= k < i - start ==> is_digit(#[trigger] d[k]),
            neg ==> acc == -digits_value(d.take(i - start)),
            !neg ==> acc == digits_value(d.take(i - start)),
        decreases n - i,
    {
        let c = s[i];
        if !((c as u32) >= 48 && (c as u32) <= 57) {
            assert(d[i - start] == c);
            assert(!is_digit(d[i - start]));
            assert(!all_digits(d));
            return None;
        }
        let dv = ((c as u32) - 48) as i128;
        proof {
            assert(d[i - start] == c);
            lemma_digits_take_step(d, i - start);
        }
        let next: i128 = if neg {
            acc as i128 * 10 - dv
        } else {
            acc as i128 * 10 + dv
        };
        if next < i64::MIN as i128 || next > i64::MAX as i128 {
            proof {
                lemma_digits_nonneg(d, i - start + 1);
                lemma_prefix_out_of_range(s@, i - start + 1);
            }
            return None;
        }
        acc = next as i64;
        i += 1;
    }
    assert(d.take(d.len() as int) =~= d);
    Some(acc)
}

/// The decimal numeral of `m`, as `Display` writes an unsigned integer.
pub fn format_u64(m: u64) -> (r: Vec<char>)
    ensures
        r@ == decimal_nat(m as nat),
{
    let mut m = m;
    let ghost orig = m as nat;
    let mut rev: Vec<char> = Vec::new();
    let ghost mut acc: Seq<char> = Seq::empty();
    while m >= 10
        invariant
            decimal_nat(orig) == decimal_nat(m as nat) + acc,
            acc.len() == rev.len(),
            forall|j: int| 0 <= j < acc.len() ==> acc[j] == rev@[rev.len() - 1 - j],
        decreases m,
    {
        let d = m % 10;
        let c = ((d as u8) + 48) as char;
        assert(c == digit_char((m % 10) as int));
        rev.push(c);
        proof {
            let old_acc = acc;
            acc = seq![c] + acc;
            assert(decimal_nat(m as nat) == decimal_nat(m as nat / 10).push(c));
            assert(decimal_nat(m as nat / 10).push(c) + old_acc =~= decimal_nat(m as nat / 10)
                + acc);
        }
        m = m / 10;
    }
    let mut out: Vec<char> = Vec::new();
    let last = ((m as u8) + 48) as char;
    assert(decimal_nat(m as nat) =~= seq![last]);
    out.push(last);
    let ghost base = out@;
    let mut k = rev.len();
    while k > 0
        invariant
            k <= rev.len() == acc.len(),
            forall|j: int| 0 <= j < acc.len() ==> acc[j] == rev@[rev.len() - 1 - j],
            out@ == base + acc.take(rev.len() - k),
        decreases k,
    {
        out.push(rev[k - 1]);
        k -= 1;
        assert(out@ =~= base + acc.take(rev.len() - k));
    }
    assert(acc.take(acc.len() as int) =~= acc);
    assert(out@ =~= decimal_nat(orig));
    out
}

/// The decimal numeral of `n`, as `Display` writes an integer.
pub fn format_i64(n: i64) -> (r: Vec<char>)
    ensures
        r@ == decimal(n as int),
{
    let m: u64 = if n < 0 {
        (-(n as i128)) as u64
    } else {
        n as u64
    };
    let mut digits = format_u64(m);
    if n < 0 {
        let mut out: Vec<char> = Vec::new();
        out.push('-');
        out.append(&mut digits);
        assert(out@ =~= decimal(n as int));
        out
    } else {
        digits
    }
}

} // verus!

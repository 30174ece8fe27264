//! Small verified text codecs used at the provider boundary: the boolean
//! rendering used in line-item metadata, and decimal integer parsing for
//! configuration values.

use vstd::prelude::*;

verus! {

/// The metadata rendering of a boolean: the words `true` and `false`.
pub open spec fn bool_chars(b: bool) -> Seq<char> {
    if b {
        "true"@
    } else {
        "false"@
    }
}

/// Render a boolean as `"true"` or `"false"`.
pub fn bool_to_string(b: bool) -> (r: String)
    ensures
        r@ == bool_chars(b),
{
    if b {
        "true".to_owned()
    } else {
        "false".to_owned()
    }
}

/// What `parse_bool` accepts: exactly the words `true` and `false`.
pub open spec fn parse_bool_spec(s: Seq<char>) -> Option<bool> {
    if s == "true"@ {
        Some(true)
    } else if s == "false"@ {
        Some(false)
    } else {
        None
    }
}

/// Parse the words `true` and `false`; anything else is rejected.
pub fn parse_bool(s: &String) -> (r: Option<bool>)
    ensures
        r == parse_bool_spec(s@),
{
    let t = "true".to_owned();
    if *s == t {
        return Some(true);
    }
    let f = "false".to_owned();
    if *s == f {
        return Some(false);
    }
    None
}

/// Whether `c` is a decimal digit.
pub open spec fn is_digit(c: char) -> bool {
    '0' as int <= c as int && c as int <= '9' as int
}

/// The value of a decimal digit.
pub open spec fn digit_val(c: char) -> int {
    c as int - '0' as int
}

/// Every character of `s` is a decimal digit.
pub open spec fn all_digits(s: Seq<char>) -> bool {
    forall|i: int| 0 <= i < s.len() ==> is_digit(#[trigger] s[i])
}

/// The value of a digit string read in base ten.
pub open spec fn digits_val(s: Seq<char>) -> int
    decreases s.len(),
{
    if s.len() == 0 {
        0
    } else {
        digits_val(s.drop_last()) * 10 + digit_val(s.last())
    }
}

/// What `parse_i64` accepts: an optional leading minus sign followed by one
/// or more decimal digits, with the value in range for `i64`.
pub open spec fn parse_i64_spec(s: Seq<char>) -> Option<i64> {
    if s.len() > 0 && s[0] == '-' {
        let ds = s.drop_first();
        if ds.len() > 0 && all_digits(ds) && digits_val(ds) <= i64::MAX as int + 1 {
            Some((-digits_val(ds)) as i64)
        } else {
            None
        }
    } else if s.len() > 0 && all_digits(s) && digits_val(s) <= i64::MAX as int {
        Some(digits_val(s) as i64)
    } else {
        None
    }
}

/// The character of a decimal digit value.
pub open spec fn digit_char(d: int) -> char {
    if d == 0 {
        '0'
    } else if d == 1 {
        '1'
    } else if d == 2 {
        '2'
    } else if d == 3 {
        '3'
    } else if d == 4 {
        '4'
    } else if d == 5 {
        '5'
    } else if d == 6 {
        '6'
    } else if d == 7 {
        '7'
    } else if d == 8 {
        '8'
    } else {
        '9'
    }
}

/// The decimal rendering of a non-negative value, without leading zeros
/// (a single zero for zero itself).
pub open spec fn nat_chars(n: int) -> Seq<char>
    decreases n,
{
    if n < 10 {
        seq![digit_char(n)]
    } else {
        nat_chars(n / 10) + seq![digit_char(n % 10)]
    }
}

/// The fixed-point currency rendering of an amount of minor units, with a
/// sign, the whole part without leading zeros, and exactly two decimal
/// places.
pub open spec fn money_chars(a: int) -> Seq<char> {
    (if a < 0 {
        seq!['-']
    } else {
        Seq::<char>::empty()
    }) + nat_chars(abs_of(a) / 100) + seq!['.'] + seq![
        digit_char((abs_of(a) % 100) / 10),
        digit_char(abs_of(a) % 10),
    ]
}

/// The absolute value.
pub open spec fn abs_of(a: int) -> int {
    if a < 0 {
        -a
    } else {
        a
    }
}

/// The character of one digit.
fn digit_to_char(d: u8) -> (c: char)
    requires
        d <= 9,
    ensures
        c == digit_char(d as int),
{
    match d {
        0 => '0',
        1 => '1',
        2 => '2',
        3 => '3',
        4 => '4',
        5 => '5',
        6 => '6',
        7 => '7',
        8 => '8',
        _ => '9',
    }
}

/// Relies on `String::push`: appends one character.
#[verifier::external_body]
pub(crate) fn push_char(s: &mut String, c: char)
    ensures
        final(s)@ == old(s)@.push(c),
{
    s.push(c);
}

/// The rendering still owed while `w` is left to decompose and the digits
/// collected so far sit in `ds` lowest first.
spec fn whole_rebuilt(w: int, ds: Seq<char>) -> Seq<char> {
    if w == 0 {
        ds.reverse()
    } else {
        nat_chars(w) + ds.reverse()
    }
}

/// Render an amount of minor currency units as fixed-point currency text
/// with two decimal places, such as `15.00` or `-3.07`.
#[verifier::rlimit(60)]
pub fn format_minor_units(amount: i128) -> (r: String)
    requires
        amount != i128::MIN,
    ensures
        r@ == money_chars(amount as int),
{
    let negative = amount < 0;
    let m: i128 = if negative {
        -amount
    } else {
        amount
    };
    let whole: i128 = m / 100;
    let cents: i128 = m % 100;
    let mut digits: Vec<char> = Vec::new();
    let mut w: i128 = whole;
    digits.push(digit_to_char((w % 10) as u8));
    w = w / 10;
    proof {
        if whole < 10 {
            assert(digits@.reverse() =~= seq![digit_char(whole as int)]);
        } else {
            assert(digits@.reverse() =~= seq![digit_char(whole as int % 10)]);
        }
        assert(whole_rebuilt(w as int, digits@) =~= nat_chars(whole as int));
    }
    while w > 0
        invariant
            0 <= w <= whole,
            digits@.len() >= 1,
            whole_rebuilt(w as int, digits@) == nat_chars(whole as int),
        decreases w,
    {
        let ghost old_digits = digits@;
        let ghost old_w = w as int;
        digits.push(digit_to_char((w % 10) as u8));
        w = w / 10;
        proof {
            assert(digits@ == old_digits.push(digit_char(old_w % 10)));
            assert(digits@.reverse() =~= seq![digit_char(old_w % 10)] + old_digits.reverse());
            if old_w < 10 {
                assert(nat_chars(old_w) == seq![digit_char(old_w)]);
                assert(whole_rebuilt(w as int, digits@) =~= whole_rebuilt(old_w, old_digits));
            } else {
                assert(nat_chars(old_w) == nat_chars(old_w / 10) + seq![digit_char(old_w % 10)]);
                assert(whole_rebuilt(w as int, digits@) =~= whole_rebuilt(old_w, old_digits));
            }
        }
    }
    let mut s = String::new();
    if negative {
        push_char(&mut s, '-');
    }
    let ghost sign = s@;
    proof {
        assert(digits@.reverse() == nat_chars(whole as int));
    }
    let n = digits.len();
    for k in 0..n
        invariant
            n == digits@.len(),
            n >= 1,
            digits@.reverse() == nat_chars(whole as int),
            s@ == sign + digits@.reverse().subrange(0, k as int),
    {
        proof {
            assert(digits@.reverse()[k as int] == digits@[n - 1 - k as int]);
            assert(digits@.reverse().subrange(0, k as int + 1) =~= digits@.reverse().subrange(
                0,
                k as int,
            ).push(digits@.reverse()[k as int]));
        }
        push_char(&mut s, digits[n - 1 - k]);
        proof {
            assert(s@ =~= sign + digits@.reverse().subrange(0, k as int + 1));
        }
    }
    proof {
        assert(digits@.reverse().subrange(0, n as int) =~= digits@.reverse());
    }
    push_char(&mut s, '.');
    push_char(&mut s, digit_to_char((cents / 10) as u8));
    push_char(&mut s, digit_to_char((cents % 10) as u8));
    proof {
        assert(s@ =~= money_chars(amount as int));
    }
    s
}

/// The value of a digit string is never negative.
proof fn lemma_digits_val_nonneg(s: Seq<char>)
    requires
        all_digits(s),
    ensures
        digits_val(s) >= 0,
    decreases s.len(),
{
    if s.len() > 0 {
        assert(all_digits(s.drop_last())) by {
            assert(forall|i: int|
                0 <= i < s.drop_last().len() ==> s.drop_last()[i] == (#[trigger] s[i]));
        }
        lemma_digits_val_nonneg(s.drop_last());
    }
}

/// Reading more digits never shrinks the value.
proof fn lemma_digits_val_prefix(s: Seq<char>, k: int)
    requires
        all_digits(s),
        0 <= k <= s.len(),
    ensures
        digits_val(s) >= digits_val(s.subrange(0, k)),
    decreases s.len() - k,
{
    if k < s.len() {
        lemma_digits_val_prefix(s, k + 1);
        let p = s.subrange(0, k + 1);
        assert(p.drop_last() =~= s.subrange(0, k));
        assert(all_digits(s.subrange(0, k))) by {
            assert(forall|i: int|
                0 <= i < k ==> s.subrange(0, k)[i] == (#[trigger] s[i]));
        }
        lemma_digits_val_nonneg(s.subrange(0, k));
        assert(digits_val(p) == digits_val(s.subrange(0, k)) * 10 + digit_val(p.last()));
        assert(digit_val(p.last()) >= 0);
        assert(digits_val(p) >= digits_val(s.subrange(0, k)));
    } else {
        assert(s.subrange(0, k) =~= s);
    }
}

/// Parse a decimal integer: an optional leading minus sign followed by one
/// or more digits. Rejects anything else, and values out of range for
/// `i64`.
pub fn parse_i64(s: &String) -> (r: Option<i64>)
    ensures
        r == parse_i64_spec(s@),
{
    let sl = s.as_str();
    let n = sl.unicode_len();
    if n == 0 {
        return None;
    }
    let negative = sl.get_char(0) == '-';
    let start: usize = if negative {
        1
    } else {
        0
    };
    if n == start {
        return None;
    }
    proof {
        if negative {
            assert(s@.drop_first() =~= s@.subrange(1, s@.len() as int));
        } else {
            assert(s@ =~= s@.subrange(0, s@.len() as int));
        }
    }
    let ghost region = s@.subrange(start as int, n as int);
    let mut acc: i128 = 0;
    let mut k: usize = start;
    while k < n
        invariant
            sl@ == s@,
            start <= k <= n,
            n == s@.len(),
            start == 1 <==> negative,
            start == 0 <==> !negative,
            start < n,
            region == s@.subrange(start as int, n as int),
            negative ==> s@[0] == '-' && region == s@.drop_first(),
            !negative ==> s@[0] != '-' && region == s@,
            forall|i: int| start <= i < k ==> is_digit(#[trigger] s@[i]),
            acc == digits_val(s@.subrange(start as int, k as int)),
            0 <= acc <= u64::MAX as i128,
        decreases n - k,
    {
        let c = sl.get_char(k);
        let cu = c as u32;
        if cu < 48 || cu > 57 {
            assert(!is_digit(s@[k as int]));
            assert(!all_digits(region)) by {
                assert(region[k - start] == s@[k as int]);
            }
            return None;
        }
        let d = cu - 48;
        proof {
            let pre = s@.subrange(start as int, k as int);
            let ext = s@.subrange(start as int, k as int + 1);
            assert(ext.drop_last() =~= pre);
            assert(ext.last() == s@[k as int]);
            assert(digits_val(ext) == acc * 10 + d);
        }
        acc = acc * 10 + (d as i128);
        k = k + 1;
        if acc > u64::MAX as i128 {
            proof {
                let pre = s@.subrange(start as int, k as int);
                if all_digits(region) {
                    assert(pre =~= region.subrange(0, k - start));
                    lemma_digits_val_prefix(region, k as int - start as int);
                    assert(digits_val(region) > i64::MAX as int + 1);
                }
            }
            return None;
        }
    }
    proof {
        assert(s@.subrange(start as int, k as int) =~= region);
        assert(all_digits(region));
    }
    if negative {
        if acc <= i64::MAX as i128 + 1 {
            proof {
                assert(digits_val(region) == acc);
            }
            Some((-acc) as i64)
        } else {
            None
        }
    } else {
        if acc <= i64::MAX as i128 {
            Some(acc as i64)
        } else {
            None
        }
    }
}

} // verus!

//! Decimal text handling for attribute values: rendering a signed 64-bit
//! integer in decimal, parsing one back, and comparing strings, all
//! verified against sequence-level specifications.

use vstd::prelude::*;
use vstd::string::StrSliceExecFns;
use vstd::string::StringExecFns;

verus! {

/// The character for one decimal digit value.
pub open spec fn digit_char(d: int) -> char {
    if d == 0 {
        '0'
    } else if d == 1 {
        '1'
    } else if d == 2 {
        '2'
    } else if d == 3 {
        '3'
    } else if d == 4 {
        '4'
    } else if d == 5 {
        '5'
    } else if d == 6 {
        '6'
    } else if d == 7 {
        '7'
    } else if d == 8 {
        '8'
    } else {
        '9'
    }
}

/// Whether a character is a decimal digit.
pub open spec fn is_digit(c: char) -> bool {
    48 <= c as u32 <= 57
}

/// The numeric value of a digit character.
pub open spec fn digit_value(c: char) -> int {
    c as u32 - 48
}

/// The decimal digit string of a non-negative integer, most significant
/// digit first; zero renders as a single digit.
pub open spec fn dec_digits(n: int) -> Seq<char>
    recommends
        0 <= n,
    decreases n,
{
    if n < 10 {
        seq![digit_char(n)]
    } else {
        dec_digits(n / 10).push(digit_char(n % 10))
    }
}

/// The decimal rendering of a signed value: a leading minus sign for
/// negative values, then the digits of the magnitude.
pub open spec fn i64_dec(n: int) -> Seq<char> {
    if n >= 0 {
        dec_digits(n)
    } else {
        seq!['-'].add(dec_digits(-n))
    }
}

/// Whether every character of the string is a decimal digit.
pub open spec fn all_digits(s: Seq<char>) -> bool {
    forall|i: int| 0 <= i < s.len() ==> is_digit(#[trigger] s[i])
}

/// The value of a digit string, most significant digit first.
pub open spec fn digits_value(s: Seq<char>) -> int
    decreases s.len(),
{
    if s.len() == 0 {
        0
    } else {
        digits_value(s.drop_last()) * 10 + digit_value(s.last())
    }
}

/// What the standard i64 parser accepts and returns: an optional single
/// sign followed by one or more digits, with the value inside the i64
/// range; anything else is rejected.
pub open spec fn parse_i64_spec(s: Seq<char>) -> Option<int> {
    let neg = s.len() > 0 && s[0] == '-';
    let signed = s.len() > 0 && (s[0] == '-' || s[0] == '+');
    let ds = if signed {
        s.subrange(1, s.len() as int)
    } else {
        s
    };
    if ds.len() == 0 || !all_digits(ds) {
        None
    } else {
        let v = if neg {
            -digits_value(ds)
        } else {
            digits_value(ds)
        };
        if i64::MIN <= v <= i64::MAX {
            Some(v)
        } else {
            None
        }
    }
}

/// A digit string has a non-negative value.
pub proof fn lemma_digits_value_nonneg(s: Seq<char>)
    requires
        all_digits(s),
    ensures
        digits_value(s) >= 0,
    decreases s.len(),
{
    if s.len() > 0 {
        lemma_digits_value_nonneg(s.drop_last());
    }
}

/// Extending a digit string can only grow its value.
pub proof fn lemma_digits_value_prefix(s: Seq<char>, i: int)
    requires
        all_digits(s),
        0 <= i <= s.len(),
    ensures
        digits_value(s.subrange(0, i)) <= digits_value(s),
    decreases s.len() - i,
{
    if i < s.len() {
        lemma_digits_value_prefix(s, i + 1);
        let p = s.subrange(0, i);
        let q = s.subrange(0, i + 1);
        assert(q.drop_last() =~= p);
        assert(all_digits(p)) by {
            assert(forall|j: int| 0 <= j < p.len() ==> p[j] == s[j]);
        }
        lemma_digits_value_nonneg(p);
        assert(digits_value(q) == digits_value(p) * 10 + digit_value(q.last()));
        assert(digits_value(p) * 10 >= digits_value(p)) by (nonlinear_arith)
            requires
                digits_value(p) >= 0,
        ;
    } else {
        assert(s.subrange(0, i) =~= s);
    }
}

/// Compares two strings character by character.
pub fn str_eq(a: &str, b: &str) -> (r: bool)
    ensures
        r == (a@ == b@),
{
    let n = a.unicode_len();
    let m = b.unicode_len();
    if n != m {
        return false;
    }
    let mut i: usize = 0;
    while i < n
        invariant
            0 <= i <= n,
            n == a@.len(),
            n == b@.len(),
            forall|j: int| 0 <= j < i ==> a@[j] == b@[j],
        decreases n - i,
    {
        if a.get_char(i) != b.get_char(i) {
            return false;
        }
        i += 1;
    }
    proof {
        assert(a@ =~= b@);
    }
    true
}

/// A string slice holding exactly one decimal digit character.
fn digit_str(d: u8) -> (r: &'static str)
    requires
        d < 10,
    ensures
        r@ == seq![digit_char(d as int)],
{
    proof {
        reveal_strlit("0");
        reveal_strlit("1");
        reveal_strlit("2");
        reveal_strlit("3");
        reveal_strlit("4");
        reveal_strlit("5");
        reveal_strlit("6");
        reveal_strlit("7");
        reveal_strlit("8");
        reveal_strlit("9");
    }
    let r = match d {
        0 => "0",
        1 => "1",
        2 => "2",
        3 => "3",
        4 => "4",
        5 => "5",
        6 => "6",
        7 => "7",
        8 => "8",
        _ => "9",
    };
    proof {
        assert(r@ =~= seq![digit_char(d as int)]);
    }
    r
}

/// The characters of a digit-value sequence read back to front.
pub open spec fn rev_digit_chars(ds: Seq<u8>) -> Seq<char> {
    Seq::new(ds.len(), |i: int| digit_char(ds[ds.len() - 1 - i] as int))
}

/// Renders a signed 64-bit integer in decimal, as the standard formatter
/// does.
pub fn i64_to_dec_string(n: i64) -> (r: String)
    ensures
        r@ == i64_dec(n as int),
{
    if n == 0 {
        let mut r = String::new();
        proof {
            reveal_strlit("0");
        }
        r.append("0");
        proof {
            assert(r@ =~= i64_dec(0));
        }
        return r;
    }
    let neg = n < 0;
    let m: u64 = if n >= 0 {
        n as u64
    } else if n == i64::MIN {
        0x8000_0000_0000_0000u64
    } else {
        (-n) as u64
    };
    let ghost mag: int = if n >= 0 {
        n as int
    } else {
        -(n as int)
    };
    assert(m == mag);
    let mut digits: Vec<u8> = Vec::new();
    let mut cur = m;
    while cur > 0
        invariant
            mag > 0,
            cur > 0 ==> dec_digits(mag) =~= dec_digits(cur as int).add(rev_digit_chars(digits@)),
            cur == 0 ==> digits@.len() > 0 && dec_digits(mag) =~= rev_digit_chars(digits@),
            forall|j: int| 0 <= j < digits@.len() ==> digits@[j] < 10,
        decreases cur,
    {
        let ghost cur0 = cur as int;
        let ghost ds0 = digits@;
        let d = (cur % 10) as u8;
        digits.push(d);
        cur = cur / 10;
        proof {
            assert(rev_digit_chars(ds0.push(d)) =~= seq![digit_char(d as int)].add(
                rev_digit_chars(ds0),
            ));
            if cur0 < 10 {
                assert(dec_digits(cur0) =~= seq![digit_char(cur0)]);
                assert(dec_digits(mag) =~= rev_digit_chars(ds0.push(d)));
            } else {
                assert(dec_digits(cur0) == dec_digits(cur0 / 10).push(digit_char(cur0 % 10)));
                assert(dec_digits(cur0 / 10).push(digit_char(cur0 % 10)).add(rev_digit_chars(ds0))
                    =~= dec_digits(cur0 / 10).add(rev_digit_chars(ds0.push(d))));
                assert(dec_digits(mag) =~= dec_digits(cur as int).add(rev_digit_chars(ds0.push(d))));
            }
        }
    }
    let mut r = String::new();
    if neg {
        proof {
            reveal_strlit("-");
        }
        r.append("-");
        proof {
            assert(r@ =~= seq!['-']);
        }
    }
    let ghost sign: Seq<char> = if neg {
        seq!['-']
    } else {
        Seq::empty()
    };
    assert(r@ == sign);
    let mut i = digits.len();
    while i > 0
        invariant
            0 <= i <= digits@.len(),
            dec_digits(mag) =~= rev_digit_chars(digits@),
            r@ =~= sign.add(
                rev_digit_chars(digits@).subrange(0, digits@.len() - i),
            ),
            sign == (if neg { seq!['-'] } else { Seq::<char>::empty() }),
            i64_dec(n as int) == sign.add(dec_digits(mag)),
            forall|j: int| 0 <= j < digits@.len() ==> digits@[j] < 10,
        decreases i,
    {
        let ghost r0 = r@;
        i -= 1;
        let d = digits[i];
        r.append(digit_str(d));
        proof {
            let full = rev_digit_chars(digits@);
            assert(full[digits@.len() - 1 - (i as int)] == digit_char(d as int));
            assert(r@ =~= sign.add(full.subrange(0, digits@.len() - i)));
        }
    }
    proof {
        assert(rev_digit_chars(digits@).subrange(0, digits@.len() as int) =~= rev_digit_chars(
            digits@,
        ));
        assert(r@ =~= i64_dec(n as int));
    }
    r
}

/// Parses a decimal integer exactly as the standard i64 parser does: an
/// optional single sign, then one or more digits, rejecting anything else
/// and any value outside the i64 range.
pub fn parse_i64(s: &str) -> (r: Option<i64>)
    ensures
        match parse_i64_spec(s@) {
            Some(v) => r == Some(v as i64) && v == r->0 as int,
            None => r is None,
        },
{
    let n = s.unicode_len();
    if n == 0 {
        return None;
    }
    let first = s.get_char(0);
    let neg = first == '-';
    let signed = neg || first == '+';
    let start: usize = if signed {
        1
    } else {
        0
    };
    if start == n {
        return None;
    }
    let ghost ds = if signed {
        s@.subrange(1, s@.len() as int)
    } else {
        s@
    };
    let limit: u64 = if neg {
        0x8000_0000_0000_0000u64
    } else {
        0x7FFF_FFFF_FFFF_FFFFu64
    };
    let mut acc: u64 = 0;
    let mut i: usize = start;
    while i < n
        invariant
            start <= i <= n,
            n == s@.len(),
            start == if signed { 1int } else { 0int },
            start < n,
            neg == (s@.len() > 0 && s@[0] == '-'),
            signed == (s@.len() > 0 && (s@[0] == '-' || s@[0] == '+')),
            ds == (if signed { s@.subrange(1, s@.len() as int) } else { s@ }),
            ds.len() == n - start,
            forall|j: int| 0 <= j < ds.len() ==> ds[j] == s@[j + start],
            all_digits(ds.subrange(0, i - start)),
            acc as int == digits_value(ds.subrange(0, i - start)),
            acc <= limit,
            limit == (if neg { 0x8000_0000_0000_0000u64 } else { 0x7FFF_FFFF_FFFF_FFFFu64 }),
        decreases n - i,
    {
        let ghost prefix = ds.subrange(0, i - start);
        let c = s.get_char(i);
        let cv = c as u32;
        if cv < 48 || cv > 57 {
            proof {
                assert(ds[i - start] == c);
                assert(!is_digit(ds[i - start]));
            }
            return None;
        }
        let d = (cv - 48) as u64;
        if acc > (limit - d) / 10 {
            proof {
                lemma_acc_step_overflow(acc as int, d as int, limit as int);
                assert(ds.subrange(0, i + 1 - start).drop_last() =~= prefix);
                assert(ds.subrange(0, i + 1 - start).last() == ds[i - start]);
                assert(digits_value(ds.subrange(0, i + 1 - start)) > limit);
                if all_digits(ds) {
                    lemma_digits_value_prefix(ds, i + 1 - start);
                    assert(digits_value(ds) > limit);
                }
            }
            return None;
        }
        proof {
            lemma_acc_step_fits(acc as int, d as int, limit as int);
            assert(ds.subrange(0, i + 1 - start).drop_last() =~= prefix);
            assert(ds.subrange(0, i + 1 - start).last() == ds[i - start]);
            assert(is_digit(ds[i - start]) && digit_value(ds[i - start]) == d);
        }
        acc = acc * 10 + d;
        i += 1;
    }
    proof {
        assert(ds.subrange(0, n - start) =~= ds);
    }
    if neg {
        if acc == 0x8000_0000_0000_0000u64 {
            Some(i64::MIN)
        } else {
            Some(-(acc as i64))
        }
    } else {
        Some(acc as i64)
    }
}

/// If the accumulator would pass the per-digit bound check, the extended
/// value still fits under the limit.
proof fn lemma_acc_step_fits(acc: int, d: int, limit: int)
    requires
        0 <= acc,
        0 <= d <= 9,
        d <= limit,
        acc <= (limit - d) / 10,
    ensures
        acc * 10 + d <= limit,
{
    assert(acc * 10 <= ((limit - d) / 10) * 10) by (nonlinear_arith)
        requires
            0 <= acc,
            acc <= (limit - d) / 10,
    ;
    assert(((limit - d) / 10) * 10 <= limit - d) by (nonlinear_arith)
        requires
            limit - d >= 0,
    ;
}

/// If the accumulator fails the per-digit bound check, the extended value
/// exceeds the limit.
proof fn lemma_acc_step_overflow(acc: int, d: int, limit: int)
    requires
        0 <= acc,
        0 <= d <= 9,
        d <= limit,
        acc > (limit - d) / 10,
    ensures
        acc * 10 + d > limit,
{
    assert(acc * 10 >= ((limit - d) / 10) * 10 + 10) by (nonlinear_arith)
        requires
            acc > (limit - d) / 10,
            acc >= 0,
    ;
    assert(((limit - d) / 10) * 10 + 10 > limit - d) by (nonlinear_arith)
        requires
            limit - d >= 0,
    ;
}

/// The decimal rendering of a non-negative integer consists of digits.
pub proof fn lemma_dec_digits_all_digits(n: int)
    requires
        0 <= n,
    ensures
        all_digits(dec_digits(n)),
        dec_digits(n).len() >= 1,
    decreases n,
{
    if n < 10 {
        assert(is_digit(digit_char(n)));
    } else {
        lemma_dec_digits_all_digits(n / 10);
        assert(is_digit(digit_char(n % 10)));
        assert(forall|i: int|
            0 <= i < dec_digits(n).len() ==> is_digit(#[trigger] dec_digits(n)[i]));
    }
}

/// Reading the decimal rendering of a non-negative integer back as a digit
/// string gives the integer itself.
pub proof fn lemma_digits_value_of_dec(n: int)
    requires
        0 <= n,
    ensures
        digits_value(dec_digits(n)) == n,
    decreases n,
{
    if n < 10 {
        let s = dec_digits(n);
        assert(s == seq![digit_char(n)]);
        assert(s.drop_last() =~= Seq::<char>::empty());
        assert(s.last() == digit_char(n));
        assert(digit_value(digit_char(n)) == n);
        assert(digits_value(s) == digits_value(s.drop_last()) * 10 + digit_value(s.last()));
    } else {
        lemma_digits_value_of_dec(n / 10);
        let s = dec_digits(n);
        assert(s == dec_digits(n / 10).push(digit_char(n % 10)));
        assert(s.drop_last() =~= dec_digits(n / 10));
        assert(s.last() == digit_char(n % 10));
        assert(digit_value(digit_char(n % 10)) == n % 10);
        assert(digits_value(s) == digits_value(s.drop_last()) * 10 + digit_value(s.last()));
        assert(n / 10 * 10 + n % 10 == n);
    }
}

/// The word `"0"` parses as zero.
pub proof fn lemma_parse_zero()
    ensures
        parse_i64_spec("0"@) == Some(0int),
{
    reveal_strlit("0");
    let s = "0"@;
    assert(s.len() == 1);
    assert(s[0] == '0');
    assert(is_digit(s[0]));
    assert(s.drop_last() =~= Seq::<char>::empty());
    assert(digits_value(s) == digits_value(s.drop_last()) * 10 + digit_value(s.last()));
    assert(digits_value(s) == 0);
}

/// Only zero renders as the word `"0"`.
pub proof fn lemma_dec_nonzero(n: int)
    requires
        i64::MIN <= n <= i64::MAX,
        n != 0,
    ensures
        i64_dec(n) != "0"@,
{
    lemma_parse_of_dec(n);
    lemma_parse_zero();
}

/// Round trip: parsing the decimal rendering of any i64 value yields that
/// value back.
pub proof fn lemma_parse_of_dec(n: int)
    requires
        i64::MIN <= n <= i64::MAX,
    ensures
        parse_i64_spec(i64_dec(n)) == Some(n),
{
    if n >= 0 {
        let s = dec_digits(n);
        lemma_dec_digits_all_digits(n);
        lemma_digits_value_of_dec(n);
        assert(!(s[0] == '-') && !(s[0] == '+')) by {
            assert(is_digit(s[0]));
        }
    } else {
        let s = i64_dec(n);
        let m = -n;
        lemma_dec_digits_all_digits(m);
        lemma_digits_value_of_dec(m);
        assert(s[0] == '-');
        assert(s.subrange(1, s.len() as int) =~= dec_digits(m));
    }
}

} // verus!

//! Decimal text of integers: formatting, and parsing that accepts the canonical form only.
use vstd::prelude::*;

verus! {

/// The character of a decimal digit `d` (`0 <= d < 10`).
pub open spec fn digit_char(d: int) -> char {
    if d == 0 {
        '0'
    } else if d == 1 {
        '1'
    } else if d == 2 {
        '2'
    } else if d == 3 {
        '3'
    } else if d == 4 {
        '4'
    } else if d == 5 {
        '5'
    } else if d == 6 {
        '6'
    } else if d == 7 {
        '7'
    } else if d == 8 {
        '8'
    } else {
        '9'
    }
}

pub open spec fn is_digit(c: char) -> bool {
    '0' <= c <= '9'
}

/// The value of a digit character.
pub open spec fn char_digit(c: char) -> int {
    c as int - '0' as int
}

/// The shortest decimal text of `n`.
pub open spec fn nat_dec(n: nat) -> Seq<char>
    decreases n,
{
    if n < 10 {
        seq![digit_char(n as int)]
    } else {
        nat_dec(n / 10).push(digit_char((n % 10) as int))
    }
}

/// The decimal text of `n`, with a leading `-` when it is negative.
pub open spec fn int_dec(n: int) -> Seq<char> {
    if n < 0 {
        seq!['-'] + nat_dec((-n) as nat)
    } else {
        nat_dec(n as nat)
    }
}

/// The value of a run of digits read most significant first.
pub open spec fn digits_value(s: Seq<char>) -> int
    decreases s.len(),
{
    if s.len() == 0 {
        0
    } else {
        digits_value(s.drop_last()) * 10 + char_digit(s.last())
    }
}

pub open spec fn all_digits(s: Seq<char>) -> bool {
    forall|i: int| 0 <= i < s.len() ==> is_digit(#[trigger] s[i])
}

/// The number that `s` is the canonical decimal text of, if any.
pub open spec fn parse_nat(s: Seq<char>) -> Option<nat> {
    if all_digits(s) && nat_dec(digits_value(s) as nat) == s {
        Some(digits_value(s) as nat)
    } else {
        None
    }
}

/// The integer that `s` is the canonical signed decimal text of, if any.
pub open spec fn parse_int(s: Seq<char>) -> Option<int> {
    if s.len() > 0 && s[0] == '-' {
        match parse_nat(s.drop_first()) {
            Some(m) => if m > 0 {
                Some(-m)
            } else {
                None
            },
            None => None,
        }
    } else {
        match parse_nat(s) {
            Some(m) => Some(m as int),
            None => None,
        }
    }
}

proof fn lemma_digit_char(d: int)
    requires
        0 <= d < 10,
    ensures
        is_digit(digit_char(d)),
        char_digit(digit_char(d)) == d,
{
}

/// The decimal text of a number is made of digits and reads back as that number.
pub proof fn lemma_nat_dec(n: nat)
    ensures
        all_digits(nat_dec(n)),
        digits_value(nat_dec(n)) == n,
        nat_dec(n).len() > 0,
    decreases n,
{
    if n < 10 {
        lemma_digit_char(n as int);
        assert(nat_dec(n).drop_last() =~= Seq::<char>::empty());
        assert(digits_value(nat_dec(n)) == digits_value(Seq::<char>::empty()) * 10 + char_digit(
            digit_char(n as int),
        ));
    } else {
        lemma_nat_dec(n / 10);
        lemma_digit_char((n % 10) as int);
        let s = nat_dec(n);
        assert(s.drop_last() =~= nat_dec(n / 10));
        assert(s.last() == digit_char((n % 10) as int));
        assert(digits_value(s) == digits_value(nat_dec(n / 10)) * 10 + char_digit(s.last()));
        assert(n == (n / 10) * 10 + n % 10);
        assert(all_digits(s)) by {
            assert forall|i: int| 0 <= i < s.len() implies is_digit(#[trigger] s[i]) by {
                if i < s.len() - 1 {
                    assert(s[i] == nat_dec(n / 10)[i]);
                }
            }
        }
    }
}

/// Parsing the decimal text of a number gives the number back.
pub proof fn lemma_parse_nat_dec(n: nat)
    ensures
        parse_nat(nat_dec(n)) == Some(n),
{
    lemma_nat_dec(n);
}

/// Parsing the signed decimal text of an integer gives the integer back.
pub proof fn lemma_parse_int_dec(n: int)
    ensures
        parse_int(int_dec(n)) == Some(n),
        forall|i: int| 0 <= i < int_dec(n).len() ==> (#[trigger] int_dec(n)[i]) != ',',
{
    if n < 0 {
        lemma_parse_nat_dec((-n) as nat);
        assert((seq!['-'] + nat_dec((-n) as nat)).drop_first() == nat_dec((-n) as nat));
    } else {
        lemma_parse_nat_dec(n as nat);
        lemma_nat_dec(n as nat);
        assert(is_digit(nat_dec(n as nat)[0]));
    }
    let s = int_dec(n);
    let m = if n < 0 { (-n) as nat } else { n as nat };
    lemma_nat_dec(m);
    assert forall|i: int| 0 <= i < s.len() implies (#[trigger] s[i]) != ',' by {
        if n < 0 && i > 0 {
            assert(s[i] == nat_dec(m)[i - 1]);
        }
    }
}

pub open spec fn pow10(k: nat) -> nat
    decreases k,
{
    if k == 0 {
        1
    } else {
        10 * pow10((k - 1) as nat)
    }
}

/// A number below `10^k` has at most `k` digits.
pub proof fn lemma_nat_dec_len(n: nat, k: nat)
    requires
        n < pow10(k),
        k >= 1,
    ensures
        nat_dec(n).len() <= k,
    decreases k,
{
    if n >= 10 {
        assert(k >= 2) by {
            if k == 1 {
                assert(pow10(1) == 10 * pow10(0));
            }
        }
        assert(pow10(k) == 10 * pow10((k - 1) as nat));
        assert(n / 10 < pow10((k - 1) as nat)) by (nonlinear_arith)
            requires
                n < 10 * pow10((k - 1) as nat),
        ;
        lemma_nat_dec_len(n / 10, (k - 1) as nat);
    }
}

/// The signed decimal text of an `i32` has at most eleven characters, all ASCII.
pub proof fn lemma_int_dec_i32(n: int)
    requires
        i32::MIN <= n <= i32::MAX,
    ensures
        int_dec(n).len() <= 11,
        forall|i: int| 0 <= i < int_dec(n).len() ==> ((#[trigger] int_dec(n)[i]) as u32) < 128,
{
    let m: nat = if n < 0 { (-n) as nat } else { n as nat };
    reveal_with_fuel(pow10, 11);
    assert(pow10(10) == 10000000000);
    lemma_nat_dec_len(m, 10);
    lemma_nat_dec(m);
    let s = int_dec(n);
    assert forall|i: int| 0 <= i < s.len() implies ((#[trigger] s[i]) as u32) < 128 by {
        if n < 0 && i > 0 {
            assert(s[i] == nat_dec(m)[i - 1]);
            assert(is_digit(nat_dec(m)[i - 1]));
        } else if n >= 0 {
            assert(is_digit(nat_dec(m)[i]));
        }
    }
}

proof fn lemma_digits_value_prefix(s: Seq<char>, i: int)
    requires
        0 <= i <= s.len(),
        all_digits(s),
    ensures
        digits_value(s.take(i)) <= digits_value(s),
        0 <= digits_value(s.take(i)),
    decreases s.len() - i,
{
    if i < s.len() {
        lemma_digits_value_prefix(s, i + 1);
        assert(s.take(i + 1).drop_last() == s.take(i));
        assert(is_digit(s[i]));
    } else {
        assert(s.take(i) == s);
        lemma_digits_value_nonneg(s);
    }
}

proof fn lemma_digits_value_nonneg(s: Seq<char>)
    requires
        all_digits(s),
    ensures
        digits_value(s) >= 0,
    decreases s.len(),
{
    if s.len() > 0 {
        assert(all_digits(s.drop_last()));
        lemma_digits_value_nonneg(s.drop_last());
        assert(is_digit(s[s.len() - 1]));
    }
}

/// Appends the decimal text of `n` to `out`.
pub fn push_nat(out: &mut Vec<char>, n: u64)
    ensures
        final(out)@ == old(out)@ + nat_dec(n as nat),
    decreases n,
{
    if n >= 10 {
        push_nat(out, n / 10);
    }
    let d = n % 10;
    let c = if d == 0 {
        '0'
    } else if d == 1 {
        '1'
    } else if d == 2 {
        '2'
    } else if d == 3 {
        '3'
    } else if d == 4 {
        '4'
    } else if d == 5 {
        '5'
    } else if d == 6 {
        '6'
    } else if d == 7 {
        '7'
    } else if d == 8 {
        '8'
    } else {
        '9'
    };
    out.push(c);
    assert(final(out)@ =~= old(out)@ + nat_dec(n as nat));
}

/// Appends the signed decimal text of `n` to `out`.
pub fn push_int(out: &mut Vec<char>, n: i64)
    ensures
        final(out)@ == old(out)@ + int_dec(n as int),
{
    if n < 0 {
        out.push('-');
        let m: u64 = if n == i64::MIN {
            9223372036854775808u64
        } else {
            (-n) as u64
        };
        push_nat(out, m);
        assert(final(out)@ =~= old(out)@ + int_dec(n as int));
    } else {
        push_nat(out, n as u64);
    }
}

/// Whether `s[lo..hi]` equals `t`.
pub fn chars_match(s: &Vec<char>, lo: usize, hi: usize, t: &Vec<char>) -> (r: bool)
    requires
        lo <= hi <= s@.len(),
    ensures
        r == (s@.subrange(lo as int, hi as int) == t@),
{
    if hi - lo != t.len() {
        assert(s@.subrange(lo as int, hi as int).len() != t@.len());
        return false;
    }
    let mut i: usize = 0;
    while i < t.len()
        invariant
            lo <= hi <= s@.len(),
            hi - lo == t@.len(),
            0 <= i <= t@.len(),
            forall|j: int| 0 <= j < i ==> s@[lo + j] == t@[j],
        decreases t@.len() - i,
    {
        if s[lo + i] != t[i] {
            assert(s@.subrange(lo as int, hi as int)[i as int] != t@[i as int]);
            return false;
        }
        i = i + 1;
    }
    assert(s@.subrange(lo as int, hi as int) =~= t@);
    true
}

/// Reads `s[lo..hi]` as the canonical decimal text of a number that fits in `u64`.
pub fn parse_nat_at(s: &Vec<char>, lo: usize, hi: usize) -> (r: Option<u64>)
    requires
        lo <= hi <= s@.len(),
    ensures
        match parse_nat(s@.subrange(lo as int, hi as int)) {
            Some(v) => if v <= u64::MAX {
                r == Some(v as u64)
            } else {
                r is None
            },
            None => r is None,
        },
{
    let ghost seg = s@.subrange(lo as int, hi as int);
    let mut acc: u128 = 0;
    let mut i: usize = lo;
    while i < hi
        invariant
            lo <= i <= hi <= s@.len(),
            seg == s@.subrange(lo as int, hi as int),
            all_digits(seg.take(i - lo)),
            acc == digits_value(seg.take(i - lo)),
            acc <= u64::MAX,
        decreases hi - i,
    {
        let c = s[i];
        if !('0' <= c && c <= '9') {
            assert(!is_digit(seg[i - lo]));
            return None;
        }
        let d = (c as u32 - '0' as u32) as u128;
        assert(seg.take(i - lo + 1).drop_last() == seg.take(i - lo));
        acc = acc * 10 + d;
        assert(all_digits(seg.take(i - lo + 1)));
        if acc > u64::MAX as u128 {
            proof {
                if all_digits(seg) {
                    lemma_digits_value_prefix(seg, i - lo + 1);
                }
            }
            return None;
        }
        i = i + 1;
    }
    assert(seg.take(hi - lo) == seg);
    let v = acc as u64;
    let mut text: Vec<char> = Vec::new();
    push_nat(&mut text, v);
    assert(text@ =~= nat_dec(v as nat));
    if chars_match(s, lo, hi, &text) {
        Some(v)
    } else {
        None
    }
}

/// Reads `s[lo..hi]` as the canonical signed decimal text of an `i32`.
pub fn parse_i32_at(s: &Vec<char>, lo: usize, hi: usize) -> (r: Option<i32>)
    requires
        lo <= hi <= s@.len(),
    ensures
        match parse_int(s@.subrange(lo as int, hi as int)) {
            Some(v) => if i32::MIN <= v <= i32::MAX {
                r == Some(v as i32)
            } else {
                r is None
            },
            None => r is None,
        },
{
    let ghost seg = s@.subrange(lo as int, hi as int);
    if lo < hi && s[lo] == '-' {
        assert(s@.subrange(lo + 1, hi as int) == seg.drop_first());
        match parse_nat_at(s, lo + 1, hi) {
            Some(m) => {
                if m > 0 && m <= 2147483648 {
                    if m == 2147483648 {
                        Some(i32::MIN)
                    } else {
                        Some(-(m as i32))
                    }
                } else {
                    None
                }
            },
            None => None,
        }
    } else {
        match parse_nat_at(s, lo, hi) {
            Some(m) => {
                if m <= 2147483647 {
                    Some(m as i32)
                } else {
                    None
                }
            },
            None => None,
        }
    }
}

} // verus!

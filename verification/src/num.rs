//! Decimal rendering and parsing of integers (`Display` / `FromStr`).
use vstd::prelude::*;

verus! {

pub open spec fn digit_char(d: nat) -> char
    recommends
        d < 10,
{
    ((d + 48) as u32) as char
}

pub open spec fn is_digit(c: char) -> bool {
    '0' <= c && c <= '9'
}

pub open spec fn digit_value(c: char) -> nat {
    ((c as u32) - 48) as nat
}

/// Decimal digits of `n` without sign or leading zeros (`"0"` for zero).
pub open spec fn dec(n: nat) -> Seq<char>
    decreases n,
{
    if n < 10 {
        seq![digit_char(n)]
    } else {
        dec(n / 10).push(digit_char(n % 10))
    }
}

/// `Display` of a signed integer.
pub open spec fn dec_int(n: int) -> Seq<char> {
    if n < 0 {
        seq!['-'] + dec((-n) as nat)
    } else {
        dec(n as nat)
    }
}

pub open spec fn all_digits(s: Seq<char>) -> bool {
    forall|i: int| 0 <= i < s.len() ==> is_digit(#[trigger] s[i])
}

/// Value of a digit string (most significant first).
pub open spec fn digits_value(s: Seq<char>) -> nat
    decreases s.len(),
{
    if s.len() == 0 {
        0
    } else {
        digits_value(s.drop_last()) * 10 + digit_value(s.last())
    }
}

/// Digits after an optional leading `+`.
pub open spec fn unsigned_body(s: Seq<char>) -> Seq<char> {
    if s.len() > 0 && s[0] == '+' {
        s.drop_first()
    } else {
        s
    }
}

/// `str::parse::<u64>()`: an optional `+`, then one or more ASCII digits
/// whose value fits in 64 bits.
pub open spec fn parse_u64_spec(s: Seq<char>) -> Option<u64> {
    let b = unsigned_body(s);
    if b.len() > 0 && all_digits(b) && digits_value(b) <= u64::MAX {
        Some(digits_value(b) as u64)
    } else {
        None
    }
}

/// `str::parse::<i64>()`: an optional `+` or `-`, then one or more ASCII
/// digits whose signed value fits in 64 bits.
pub open spec fn parse_i64_spec(s: Seq<char>) -> Option<i64> {
    if s.len() > 0 && s[0] == '-' {
        let b = s.drop_first();
        if b.len() > 0 && all_digits(b) && digits_value(b) <= 0x8000_0000_0000_0000 {
            Some((-(digits_value(b) as int)) as i64)
        } else {
            None
        }
    } else {
        let b = unsigned_body(s);
        if b.len() > 0 && all_digits(b) && digits_value(b) <= i64::MAX {
            Some(digits_value(b) as i64)
        } else {
            None
        }
    }
}

proof fn lemma_digits_value_push(s: Seq<char>, c: char)
    ensures
        digits_value(s.push(c)) == digits_value(s) * 10 + digit_value(c),
{
    assert(s.push(c).drop_last() =~= s);
}

proof fn lemma_digits_value_prefix(s: Seq<char>, i: int)
    requires
        0 <= i < s.len(),
    ensures
        digits_value(s.subrange(0, i + 1)) == digits_value(s.subrange(0, i)) * 10 + digit_value(
            s[i],
        ),
{
    assert(s.subrange(0, i + 1) =~= s.subrange(0, i).push(s[i]));
    lemma_digits_value_push(s.subrange(0, i), s[i]);
}

proof fn lemma_digits_value_mono(s: Seq<char>, i: int)
    requires
        0 <= i <= s.len(),
        all_digits(s),
    ensures
        digits_value(s.subrange(0, i)) <= digits_value(s),
    decreases s.len() - i,
{
    if i < s.len() {
        lemma_digits_value_prefix(s, i);
        lemma_digits_value_mono(s, i + 1);
    } else {
        assert(s.subrange(0, i) =~= s);
    }
}

/// Decimal rendering of an unsigned integer (`u64::to_string`).
pub fn u64_to_string(n: u64) -> (s: String)
    ensures
        s@ == dec(n as nat),
{
    let mut digits: Vec<char> = Vec::new();
    let mut m = n;
    // digits collected least significant first
    let ghost mut rest: Seq<char> = Seq::empty();
    loop
        invariant_except_break
            dec(n as nat) == dec(m as nat) + digits@.reverse(),
        ensures
            dec(n as nat) == digits@.reverse(),
        decreases m,
    {
        let d = (m % 10) as u8;
        let c = (d + 48) as char;
        if m < 10 {
            let ghost old_rev = digits@.reverse();
            digits.push(c);
            assert(digits@.reverse() =~= seq![c] + old_rev);
            assert(dec(m as nat) == seq![digit_char(m as nat)]);
            assert(digit_char(m as nat) == c);
            break ;
        }
        proof {
            assert(dec(m as nat) == dec((m / 10) as nat).push(digit_char((m % 10) as nat)));
            assert(digit_char((m % 10) as nat) == c);
        }
        let ghost old_rev = digits@.reverse();
        digits.push(c);
        assert(digits@.reverse() =~= seq![c] + old_rev);
        assert(dec((m / 10) as nat).push(c) + old_rev =~= dec((m / 10) as nat) + digits@.reverse());
        m = m / 10;
    }
    let mut s = String::new();
    let mut i: usize = digits.len();
    while i > 0
        invariant
            i <= digits@.len(),
            s@ == digits@.reverse().subrange(0, digits@.len() - i),
            dec(n as nat) == digits@.reverse(),
        decreases i,
    {
        i = i - 1;
        crate::text::push_char(&mut s, digits[i]);
        assert(s@ =~= digits@.reverse().subrange(0, digits@.len() - i));
    }
    assert(digits@.reverse().subrange(0, digits@.len() as int) =~= digits@.reverse());
    s
}

/// Decimal rendering of a signed integer (`i64::to_string`).
pub fn i64_to_string(n: i64) -> (s: String)
    ensures
        s@ == dec_int(n as int),
{
    if n < 0 {
        let m: u64 = if n == i64::MIN {
            0x8000_0000_0000_0000u64
        } else {
            (-n) as u64
        };
        let digits = u64_to_string(m);
        let mut s = String::new();
        crate::text::push_char(&mut s, '-');
        s.append(digits.as_str());
        assert(s@ =~= seq!['-'] + dec((-(n as int)) as nat));
        s
    } else {
        u64_to_string(n as u64)
    }
}

/// `str::parse::<u64>()`.
pub fn parse_u64(s: &[char]) -> (r: Option<u64>)
    ensures
        r == parse_u64_spec(s@),
{
    let start: usize = if s.len() > 0 && s[0] == '+' {
        1
    } else {
        0
    };
    let ghost b = unsigned_body(s@);
    assert(b =~= s@.subrange(start as int, s@.len() as int));
    if start >= s.len() {
        return None;
    }
    let mut acc: u64 = 0;
    let mut i: usize = start;
    while i < s.len()
        invariant
            start <= i <= s@.len(),
            b == s@.subrange(start as int, s@.len() as int),
            b == unsigned_body(s@),
            forall|j: int| 0 <= j < i - start ==> is_digit(#[trigger] b[j]),
            acc as nat == digits_value(b.subrange(0, i - start)),
        decreases s@.len() - i,
    {
        let c = s[i];
        if !('0' <= c && c <= '9') {
            assert(b[i - start] == c);
            assert(!is_digit(b[i - start]));
            assert(!all_digits(b));
            return None;
        }
        let d = (c as u32 - 48) as u64;
        proof {
            lemma_digits_value_prefix(b, i - start);
            assert(b[i - start] == c);
        }
        if acc > (u64::MAX - d) / 10 {
            proof {
                assert forall|j: int| 0 <= j < i - start + 1 implies is_digit(
                    #[trigger] b.subrange(0, i - start + 1)[j],
                ) by {
                    assert(b.subrange(0, i - start + 1)[j] == b[j]);
                }
                assert(b[i - start] == c);
                assert(digit_value(c) == d);
                assert(acc * 10 + d > u64::MAX) by (nonlinear_arith)
                    requires
                        acc > (u64::MAX - d) / 10,
                        d <= 9,
                ;
                if all_digits(b) {
                    lemma_digits_value_mono(b, i - start + 1);
                    assert(digits_value(b) > u64::MAX);
                }
            }
            return None;
        }
        assert(acc * 10 + d <= u64::MAX) by (nonlinear_arith)
            requires
                acc <= (u64::MAX - d) / 10,
                d <= 9,
        ;
        acc = acc * 10 + d;
        i = i + 1;
    }
    assert(b.subrange(0, b.len() as int) =~= b);
    Some(acc)
}

/// `str::parse::<i64>()`.
pub fn parse_i64(s: &[char]) -> (r: Option<i64>)
    ensures
        r == parse_i64_spec(s@),
{
    let neg = s.len() > 0 && s[0] == '-';
    let start: usize = if s.len() > 0 && (s[0] == '+' || s[0] == '-') {
        1
    } else {
        0
    };
    let ghost b = s@.subrange(start as int, s@.len() as int);
    proof {
        if neg {
            assert(b =~= s@.drop_first());
        } else {
            assert(b =~= unsigned_body(s@));
        }
    }
    if start >= s.len() {
        return None;
    }
    let limit: u64 = if neg {
        0x8000_0000_0000_0000u64
    } else {
        0x7fff_ffff_ffff_ffffu64
    };
    let mut acc: u64 = 0;
    let mut i: usize = start;
    while i < s.len()
        invariant
            start <= i <= s@.len(),
            b == s@.subrange(start as int, s@.len() as int),
            forall|j: int| 0 <= j < i - start ==> is_digit(#[trigger] b[j]),
            acc as nat == digits_value(b.subrange(0, i - start)),
            acc <= limit,
            neg == (s@.len() > 0 && s@[0] == '-'),
            neg ==> b == s@.drop_first(),
            !neg ==> b == unsigned_body(s@),
            limit >= 0x7fff_ffff_ffff_ffffu64,
            limit == (if neg { 0x8000_0000_0000_0000u64 } else { 0x7fff_ffff_ffff_ffffu64 }),
        decreases s@.len() - i,
    {
        let c = s[i];
        if !('0' <= c && c <= '9') {
            assert(b[i - start] == c);
            assert(!is_digit(b[i - start]));
            assert(!all_digits(b));
            return None;
        }
        let d = (c as u32 - 48) as u64;
        proof {
            lemma_digits_value_prefix(b, i - start);
        }
        if acc > (limit - d) / 10 {
            proof {
                assert forall|j: int| 0 <= j < i - start + 1 implies is_digit(
                    #[trigger] b.subrange(0, i - start + 1)[j],
                ) by {
                    assert(b.subrange(0, i - start + 1)[j] == b[j]);
                }
                assert(b[i - start] == c);
                assert(digit_value(c) == d);
                assert(acc * 10 + d > limit) by (nonlinear_arith)
                    requires
                        acc > (limit - d) / 10,
                        d <= 9,
                ;
                if all_digits(b) {
                    lemma_digits_value_mono(b, i - start + 1);
                    assert(digits_value(b) > limit);
                }
            }
            return None;
        }
        assert(acc * 10 + d <= limit) by (nonlinear_arith)
            requires
                acc <= (limit - d) / 10,
                d <= 9,
        ;
        acc = acc * 10 + d;
        i = i + 1;
    }
    assert(b.subrange(0, b.len() as int) =~= b);
    if neg {
        if acc == 0x8000_0000_0000_0000u64 {
            Some(i64::MIN)
        } else {
            Some(-(acc as i64))
        }
    } else {
        Some(acc as i64)
    }
}

} // verus!

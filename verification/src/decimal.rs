//! Whole numbers written in decimal, as they stand in an invite.
use vstd::prelude::*;

use crate::text::{chars_of, string_of};

verus! {

pub open spec fn is_digit(c: char) -> bool {
    '0' <= c <= '9'
}

pub open spec fn digit_value(c: char) -> int {
    c as int - '0' as int
}

pub open spec fn digit(d: int) -> char {
    (d + '0' as int) as char
}

/// The digits of a natural number, most significant first and without leading zeros.
pub open spec fn digits(n: nat) -> Seq<char>
    decreases n,
{
    if n < 10 {
        seq![digit(n as int)]
    } else {
        digits(n / 10).push(digit((n % 10) as int))
    }
}

/// A number in decimal, with a minus sign where it is negative.
pub open spec fn decimal(i: int) -> Seq<char> {
    if i < 0 {
        seq!['-'] + digits((-i) as nat)
    } else {
        digits(i as nat)
    }
}

pub open spec fn all_digits(s: Seq<char>) -> bool {
    forall|k: int| 0 <= k < s.len() ==> is_digit(#[trigger] s[k])
}

/// The number that a run of digits stands for.
pub open spec fn value(s: Seq<char>) -> int
    decreases s.len(),
{
    if s.len() == 0 {
        0
    } else {
        value(s.drop_last()) * 10 + digit_value(s.last())
    }
}

/// The number that a text stands for: an optional sign, then at least one digit, within `i64`.
pub open spec fn parsed(s: Seq<char>) -> Option<i64> {
    let negative = s.len() > 0 && s[0] == '-';
    let body = if s.len() > 0 && (s[0] == '-' || s[0] == '+') {
        s.skip(1)
    } else {
        s
    };
    let number = if negative {
        -value(body)
    } else {
        value(body)
    };
    if body.len() > 0 && all_digits(body) && i64::MIN <= number <= i64::MAX {
        Some(number as i64)
    } else {
        None
    }
}

proof fn lemma_digits(n: nat)
    ensures
        digits(n).len() > 0,
        all_digits(digits(n)),
        value(digits(n)) == n,
    decreases n,
{
    if n < 10 {
        assert(digits(n).drop_last() =~= Seq::<char>::empty());
        assert(value(digits(n).drop_last()) == 0);
    } else {
        lemma_digits(n / 10);
        assert(digits(n).drop_last() =~= digits(n / 10));
    }
}

/// A number is read back from its decimal text.
pub proof fn law_decimal_reads_back(i: i64)
    ensures
        parsed(decimal(i as int)) == Some(i),
{
    if i < 0 {
        lemma_digits((-i) as nat);
        assert(decimal(i as int).skip(1) =~= digits((-i) as nat));
    } else {
        lemma_digits(i as nat);
        assert(is_digit(digits(i as nat)[0]));
    }
}

/// A decimal text is digits and perhaps a minus sign.
pub proof fn lemma_decimal_has_no_dot(i: i64)
    ensures
        !decimal(i as int).contains('.'),
{
    let n: nat = if i < 0 {
        (-i) as nat
    } else {
        i as nat
    };
    lemma_digits(n);
    if decimal(i as int).contains('.') {
        let k = decimal(i as int).index_of('.');
        if i < 0 {
            assert(k > 0);
            assert(is_digit(digits(n)[k - 1]));
        } else {
            assert(is_digit(digits(n)[k]));
        }
    }
}

proof fn lemma_value_grows(s: Seq<char>, k: int)
    requires
        all_digits(s),
        0 <= k <= s.len(),
    ensures
        0 <= value(s.take(k)) <= value(s),
    decreases s.len(),
{
    if k == s.len() {
        assert(s.take(k) =~= s);
        if k > 0 {
            lemma_value_grows(s.drop_last(), k - 1);
            assert(is_digit(s.last()));
        }
    } else {
        lemma_value_grows(s.drop_last(), k);
        assert(s.drop_last().take(k) =~= s.take(k));
        assert(is_digit(s.last()));
    }
}

/// Writes a number in decimal.
pub fn format_i64(i: i64) -> (r: String)
    ensures
        r@ == decimal(i as int),
{
    let negative = i < 0;
    let mut rest: u64 = if negative {
        (-(i as i128)) as u64
    } else {
        i as u64
    };
    let ghost n = rest as nat;
    let mut backwards: Vec<char> = Vec::new();
    backwards.push(((rest % 10) as u8 + 48) as char);
    rest = rest / 10;
    let ghost mut tail: Seq<char> = seq![digit((n % 10) as int)];
    assert(backwards@.reverse() =~= tail);
    assert(rest > 0 ==> digits(n) =~= digits(rest as nat) + tail);
    while rest > 0
        invariant
            backwards@.reverse() == tail,
            rest > 0 ==> digits(n) == digits(rest as nat) + tail,
            rest == 0 ==> digits(n) == tail,
        decreases rest,
    {
        let ghost before = rest as nat;
        let ghost old_tail = tail;
        let d = ((rest % 10) as u8 + 48) as char;
        backwards.push(d);
        rest = rest / 10;
        proof {
            assert(d == digit((before % 10) as int));
            tail = seq![d] + old_tail;
            assert(backwards@.reverse() =~= tail);
            if rest > 0 {
                assert(digits(before) + old_tail =~= digits(rest as nat) + tail);
            } else {
                assert(digits(before) + old_tail =~= tail);
            }
        }
    }
    if negative {
        backwards.push('-');
    }
    let mut forwards: Vec<char> = Vec::new();
    let mut k: usize = backwards.len();
    while k > 0
        invariant
            k <= backwards@.len(),
            forwards@ == backwards@.reverse().take(backwards@.len() - k),
        decreases k,
    {
        k = k - 1;
        forwards.push(backwards[k]);
        assert(forwards@ =~= backwards@.reverse().take(backwards@.len() - k));
    }
    assert(forwards@ =~= decimal(i as int));
    string_of(forwards.as_slice())
}

/// Reads a number from a text: an optional sign, then digits only.
pub fn parse_i64(s: &str) -> (r: Option<i64>)
    ensures
        r == parsed(s@),
{
    let chars = chars_of(s);
    let negative = chars.len() > 0 && chars[0] == '-';
    let start: usize = if chars.len() > 0 && (chars[0] == '-' || chars[0] == '+') {
        1
    } else {
        0
    };
    if start == chars.len() {
        return None;
    }
    let ghost body = s@.skip(start as int);
    assert(start == 0 ==> body =~= s@);
    let limit: u64 = if negative {
        0x8000_0000_0000_0000
    } else {
        0x7fff_ffff_ffff_ffff
    };
    let mut total: u64 = 0;
    let mut k: usize = start;
    proof {
        if all_digits(body) {
            lemma_value_grows(body, 0);
        }
    }
    while k < chars.len()
        invariant
            start <= k <= chars@.len(),
            chars@ == s@,
            body == s@.skip(start as int),
            limit <= 0x8000_0000_0000_0000,
            total <= limit,
            total == value(body.take(k - start)),
            all_digits(body.take(k - start)),
            body.len() > 0,
            parsed(s@) == (if all_digits(body) && value(body) <= limit {
                Some((if negative { -value(body) } else { value(body) }) as i64)
            } else {
                None
            }),
        decreases chars@.len() - k,
    {
        let c = chars[k];
        let ghost at = k - start;
        assert(body[at] == c);
        if !('0' <= c && c <= '9') {
            assert(!all_digits(body));
            return None;
        }
        let d = (c as u32 - 48) as u64;
        proof {
            assert(body.take(at + 1).drop_last() =~= body.take(at));
            if all_digits(body) {
                lemma_value_grows(body, at + 1);
            }
        }
        if total as u128 * 10 + d as u128 > limit as u128 {
            return None;
        }
        total = total * 10 + d;
        k = k + 1;
        assert(all_digits(body.take(k - start))) by {
            assert forall|j: int| 0 <= j < k - start implies is_digit(
                #[trigger] body.take(k - start)[j],
            ) by {
                if j < at {
                    assert(is_digit(body.take(at)[j]));
                }
            }
        }
    }
    assert(body.take(k - start) =~= body);
    if negative {
        Some((-(total as i128)) as i64)
    } else {
        Some(total as i64)
    }
}

} // verus!

//! Whole numbers in decimal notation.
use vstd::prelude::*;
use crate::text::{chars_of, joined};

verus! {

/// Whether `c` is one of the ten ASCII digits.
pub open spec fn is_digit(c: char) -> bool {
    '0' <= c <= '9'
}

/// The number that the digits of `s` stand for.
pub open spec fn value_of(s: Seq<char>) -> nat
    decreases s.len(),
{
    if s.len() == 0 {
        0
    } else {
        10 * value_of(s.drop_last()) + (s.last() as nat - '0' as nat) as nat
    }
}

/// `s` without the plus sign that it may start with.
pub open spec fn unsigned_part(s: Seq<char>) -> Seq<char> {
    if s.len() > 0 && s[0] == '+' {
        s.skip(1)
    } else {
        s
    }
}

/// Whether `s` is a number: an optional plus sign, then digits alone and at least one.
pub open spec fn is_number(s: Seq<char>) -> bool {
    let digits = unsigned_part(s);
    &&& digits.len() > 0
    &&& forall|i: int| 0 <= i < digits.len() ==> is_digit(#[trigger] digits[i])
}

/// The number that `s` stands for, whatever its size.
pub open spec fn number_in(s: Seq<char>) -> nat {
    value_of(unsigned_part(s))
}

/// The number that `s` stands for, where it is one and a `usize` holds it.
pub open spec fn usize_in(s: Seq<char>) -> Option<nat> {
    if is_number(s) && number_in(s) <= usize::MAX {
        Some(number_in(s))
    } else {
        None
    }
}

/// The decimal notation of `n`, without leading zeros.
pub open spec fn decimal(n: nat) -> Seq<char>
    decreases n,
{
    if n < 10 {
        seq![digit_char(n)]
    } else {
        decimal(n / 10).push(digit_char(n % 10))
    }
}

/// The digit that stands for `n`.
pub open spec fn digit_char(n: nat) -> char {
    ('0' as nat + n) as char
}

/// The first digits of a number stand for no more than all of them.
proof fn lemma_value_of_prefix(s: Seq<char>, k: int)
    requires
        0 <= k <= s.len(),
    ensures
        value_of(s.take(k)) <= value_of(s),
    decreases s.len() - k,
{
    if k < s.len() {
        lemma_value_of_prefix(s, k + 1);
        assert(s.take(k + 1).drop_last() =~= s.take(k));
    } else {
        assert(s.take(k) =~= s);
    }
}

/// Tells whether `text` is a number, whatever its size.
pub fn reads_as_number(text: &str) -> (r: bool)
    ensures
        r == is_number(text@),
{
    let s = chars_of(text);
    let ghost digits = unsigned_part(text@);
    let start: usize = if s.len() > 0 && s[0] == '+' {
        1
    } else {
        0
    };
    assert(digits =~= s@.skip(start as int));
    if start == s.len() {
        return false;
    }
    let mut i: usize = start;
    while i < s.len()
        invariant
            start <= i <= s@.len(),
            start < s@.len(),
            digits == unsigned_part(text@),
            digits == s@.skip(start as int),
            forall|k: int| 0 <= k < i - start ==> is_digit(#[trigger] digits[k]),
        decreases s@.len() - i,
    {
        assert(digits[i - start] == s@[i as int]);
        if s[i] < '0' || '9' < s[i] {
            return false;
        }
        i = i + 1;
    }
    true
}

/// Reads a number that a `usize` holds.
pub fn parse_usize(text: &str) -> (r: Option<usize>)
    ensures
        match r {
            Some(n) => usize_in(text@) == Some(n as nat),
            None => usize_in(text@) is None,
        },
{
    let s = chars_of(text);
    let ghost digits = unsigned_part(text@);
    let start: usize = if s.len() > 0 && s[0] == '+' {
        1
    } else {
        0
    };
    assert(digits =~= s@.skip(start as int));
    if start == s.len() {
        return None;
    }
    let mut n: usize = 0;
    let mut i: usize = start;
    while i < s.len()
        invariant
            start <= i <= s@.len(),
            start < s@.len(),
            digits == unsigned_part(text@),
            digits == s@.skip(start as int),
            forall|k: int| 0 <= k < i - start ==> is_digit(#[trigger] digits[k]),
            n == value_of(digits.take(i - start)),
        decreases s@.len() - i,
    {
        let c = s[i];
        assert(digits[i - start] == c);
        if c < '0' || '9' < c {
            return None;
        }
        let d: usize = (c as u32 - '0' as u32) as usize;
        proof {
            assert(digits.take(i - start + 1).drop_last() =~= digits.take(i - start));
            lemma_value_of_prefix(digits, i - start + 1);
        }
        n = match n.checked_mul(10) {
            None => {
                return None;
            },
            Some(tens) => match tens.checked_add(d) {
                None => {
                    return None;
                },
                Some(sum) => sum,
            },
        };
        i = i + 1;
    }
    assert(digits.take(s@.len() - start) =~= digits);
    Some(n)
}

/// The digit that stands for `n`.
fn digit_text(n: usize) -> (r: &'static str)
    requires
        n < 10,
    ensures
        r@ == seq![digit_char(n as nat)],
{
    proof {
        reveal_strlit("0");
        reveal_strlit("1");
        reveal_strlit("2");
        reveal_strlit("3");
        reveal_strlit("4");
        reveal_strlit("5");
        reveal_strlit("6");
        reveal_strlit("7");
        reveal_strlit("8");
        reveal_strlit("9");
    }
    match n {
        0 => "0",
        1 => "1",
        2 => "2",
        3 => "3",
        4 => "4",
        5 => "5",
        6 => "6",
        7 => "7",
        8 => "8",
        _ => "9",
    }
}

/// Writes `n` in decimal notation.
pub fn decimal_text(n: usize) -> (r: String)
    ensures
        r@ == decimal(n as nat),
    decreases n,
{
    if n < 10 {
        digit_text(n).to_owned()
    } else {
        let r = joined(decimal_text(n / 10).as_str(), digit_text(n % 10));
        assert(r@ =~= decimal((n / 10) as nat).push(digit_char((n % 10) as nat)));
        r
    }
}

/// A number that a `usize` holds, written in decimal notation, reads back as that number.
pub proof fn law_number_reads_back(n: nat)
    requires
        n <= usize::MAX,
    ensures
        usize_in(decimal(n)) == Some(n),
{
    lemma_decimal(n);
    assert(unsigned_part(decimal(n)) == decimal(n));
}

/// The decimal notation holds digits alone and stands for its number.
proof fn lemma_decimal(n: nat)
    ensures
        decimal(n).len() > 0,
        forall|i: int| 0 <= i < decimal(n).len() ==> is_digit(#[trigger] decimal(n)[i]),
        value_of(decimal(n)) == n,
    decreases n,
{
    if n < 10 {
        assert(value_of(decimal(n).drop_last()) == 0);
    } else {
        lemma_decimal(n / 10);
        assert(decimal(n).drop_last() =~= decimal(n / 10));
    }
}

/// A number that is too large for a `usize`, written in decimal notation, is refused; it is a number
/// all the same.
pub proof fn law_large_number_is_refused(n: nat)
    requires
        n > usize::MAX,
    ensures
        usize_in(decimal(n)) is None,
        is_number(decimal(n)),
        number_in(decimal(n)) == n,
{
    lemma_decimal(n);
    assert(unsigned_part(decimal(n)) == decimal(n));
}

/// A digit more makes a number ten times as large, and adds the digit. A single digit is worth what
/// it is.
pub proof fn law_digit_more_is_ten_times(s: Seq<char>, c: char)
    requires
        '0' <= c <= '9',
    ensures
        is_number(seq![c]),
        number_in(seq![c]) == c as nat - '0' as nat,
        is_number(s) ==> is_number(s.push(c)) && number_in(s.push(c)) == 10 * number_in(s) + (
        c as nat - '0' as nat),
{
    let one = seq![c];
    assert(unsigned_part(one) == one);
    assert(one.drop_last() =~= Seq::<char>::empty());
    assert(value_of(one) == 10 * value_of(one.drop_last()) + (c as nat - '0' as nat));
    if is_number(s) {
        let digits = unsigned_part(s);
        assert(unsigned_part(s.push(c)) =~= digits.push(c));
        assert(digits.push(c).drop_last() =~= digits);
    }
}

/// `k` zeros.
pub open spec fn zeros(k: nat) -> Seq<char> {
    Seq::new(k, |i: int| '0')
}

/// A plus sign, where there is to be one.
pub open spec fn sign(plus: bool) -> Seq<char> {
    if plus {
        seq!['+']
    } else {
        seq![]
    }
}

/// A plus sign and zeros before the decimal notation of a number do not matter.
pub proof fn law_sign_and_zeros_do_not_matter(plus: bool, k: nat, n: nat)
    ensures
        is_number(sign(plus) + zeros(k) + decimal(n)),
        number_in(sign(plus) + zeros(k) + decimal(n)) == n,
        usize_in(sign(plus) + zeros(k) + decimal(n)) == if n <= usize::MAX {
            Some(n)
        } else {
            None
        },
{
    lemma_decimal(n);
    let digits = zeros(k) + decimal(n);
    let s = sign(plus) + zeros(k) + decimal(n);
    lemma_zeros_do_not_matter(k, decimal(n));
    assert(digits[0] == if k > 0 { '0' } else { decimal(n)[0] });
    assert(is_digit(digits[0]));
    if plus {
        assert(s.skip(1) =~= digits);
    } else {
        assert(s =~= digits);
    }
    assert(unsigned_part(s) == digits);
    assert forall|i: int| 0 <= i < digits.len() implies is_digit(#[trigger] digits[i]) by {
        if i >= k {
            assert(digits[i] == decimal(n)[i - k]);
        }
    }
}

proof fn lemma_zeros_do_not_matter(k: nat, s: Seq<char>)
    ensures
        value_of(zeros(k) + s) == value_of(s),
    decreases s.len() + k,
{
    let all = zeros(k) + s;
    if s.len() > 0 {
        assert(all.drop_last() =~= zeros(k) + s.drop_last());
        lemma_zeros_do_not_matter(k, s.drop_last());
    } else if k > 0 {
        assert(all.drop_last() =~= zeros((k - 1) as nat) + s);
        lemma_zeros_do_not_matter((k - 1) as nat, s);
    } else {
        assert(all =~= s);
    }
}

/// What is no number is not read as one.
pub proof fn law_no_number_is_refused(s: Seq<char>)
    ensures
        usize_in(s) is Some <==> is_number(s) && number_in(s) <= usize::MAX,
{
}

/// Nothing else is a number: each is a plus sign or none, any number of zeros, and the decimal
/// notation of what it stands for.
pub proof fn law_numbers_are_decimal(s: Seq<char>)
    requires
        is_number(s),
    ensures
        exists|plus: bool, k: nat|
            s == #[trigger] sign(plus) + #[trigger] zeros(k) + decimal(number_in(s)),
{
    let digits = unsigned_part(s);
    let plus = s[0] == '+';
    let k = lemma_digits_are_decimal(digits);
    assert(s =~= sign(plus) + digits);
    assert(sign(plus) + digits =~= sign(plus) + zeros(k) + decimal(number_in(s)));
}

proof fn lemma_digits_are_decimal(digits: Seq<char>) -> (k: nat)
    requires
        digits.len() > 0,
        forall|i: int| 0 <= i < digits.len() ==> is_digit(#[trigger] digits[i]),
    ensures
        digits == zeros(k) + decimal(value_of(digits)),
    decreases digits.len(),
{
    let c = digits.last();
    let d = (c as nat - '0' as nat) as nat;
    assert(is_digit(c));
    assert(digit_char(d) == c);
    let before = digits.drop_last();
    if before.len() == 0 {
        assert(value_of(before) == 0);
        assert(digits =~= zeros(0) + decimal(d));
        0
    } else {
        assert forall|i: int| 0 <= i < before.len() implies is_digit(#[trigger] before[i]) by {
            assert(before[i] == digits[i]);
        }
        let k = lemma_digits_are_decimal(before);
        let v = value_of(before);
        if v == 0 {
            assert(before =~= zeros(k + 1));
            assert(digits =~= before.push(c));
            assert(digits =~= zeros(k + 1) + decimal(d));
            k + 1
        } else {
            assert((10 * v + d) / 10 == v && (10 * v + d) % 10 == d);
            assert(digits =~= before.push(c));
            assert(before.push(c) =~= zeros(k) + decimal(v).push(c));
            k
        }
    }
}

/// The decimal notation holds digits alone and, but for zero, does not start with a zero: it is the
/// shortest number that stands for `n`.
pub proof fn law_decimal_is_shortest(n: nat)
    ensures
        decimal(n).len() > 0,
        forall|i: int| 0 <= i < decimal(n).len() ==> '0' <= #[trigger] decimal(n)[i] <= '9',
        decimal(n)[0] == '0' <==> n == 0,
        n == 0 ==> decimal(n).len() == 1,
    decreases n,
{
    lemma_decimal(n);
    assert forall|i: int| 0 <= i < decimal(n).len() implies '0' <= #[trigger] decimal(n)[i]
        <= '9' by {
        assert(is_digit(decimal(n)[i]));
    }
    if n >= 10 {
        law_decimal_is_shortest(n / 10);
        assert(decimal(n)[0] == decimal(n / 10)[0]);
    }
}

} // verus!

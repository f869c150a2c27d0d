//! Building blocks for the names and command lines that the library writes:
//! appending to a string, and the decimal notation of a number.

use vstd::prelude::*;
use vstd::string::StrSliceExecFns;

verus! {

/// `String::push` appends one character to the end of the string.
#[verifier::external_body]
pub(crate) fn push_char(text: &mut String, c: char)
    ensures
        final(text)@ == old(text)@.push(c),
{
    text.push(c);
}

/// The characters of `text`, one by one.
pub fn chars_of(text: &str) -> (chars: Vec<char>)
    ensures
        chars@ == text@,
{
    let n: usize = text.unicode_len();
    let mut chars: Vec<char> = Vec::new();
    let mut i: usize = 0;
    while i < n
        invariant
            i <= n,
            n == text@.len(),
            chars@ =~= text@.subrange(0, i as int),
        decreases n - i,
    {
        chars.push(text.get_char(i));
        i = i + 1;
    }
    assert(text@.subrange(0, n as int) =~= text@);
    chars
}

/// Where the part of `s` behind the last `c` begins: 0 where `s` holds no `c`.
pub open spec fn tail_start<T>(s: Seq<T>, c: T) -> int
    decreases s.len(),
{
    if s.len() == 0 {
        0
    } else if s.last() == c {
        s.len() as int
    } else {
        tail_start(s.drop_last(), c)
    }
}

/// `tail_start` lies within `s`, no `c` stands behind it, and a `c` stands
/// just before it unless it is 0 and `s` holds no `c` at all.
pub proof fn lemma_tail_start<T>(s: Seq<T>, c: T)
    ensures
        0 <= tail_start(s, c) <= s.len(),
        forall|i: int| tail_start(s, c) <= i < s.len() ==> #[trigger] s[i] != c,
        tail_start(s, c) > 0 ==> s[tail_start(s, c) - 1] == c,
        tail_start(s, c) == 0 ==> forall|i: int| 0 <= i < s.len() ==> #[trigger] s[i] != c,
    decreases s.len(),
{
    if s.len() > 0 && s.last() != c {
        let front = s.drop_last();
        lemma_tail_start(front, c);
        assert forall|i: int| tail_start(s, c) <= i < s.len() implies #[trigger] s[i] != c by {
            if i < front.len() {
                assert(s[i] == front[i]);
            }
        }
        if tail_start(s, c) == 0 {
            assert forall|i: int| 0 <= i < s.len() implies #[trigger] s[i] != c by {
                if i < front.len() {
                    assert(s[i] == front[i]);
                }
            }
        }
    }
}

/// The views of a sequence of strings.
pub open spec fn texts(strings: Seq<String>) -> Seq<Seq<char>> {
    strings.map_values(|s: String| s@)
}

/// The character that stands for the digit `d`.
pub open spec fn digit_char(d: int) -> char {
    if d == 0 {
        '0'
    } else if d == 1 {
        '1'
    } else if d == 2 {
        '2'
    } else if d == 3 {
        '3'
    } else if d == 4 {
        '4'
    } else if d == 5 {
        '5'
    } else if d == 6 {
        '6'
    } else if d == 7 {
        '7'
    } else if d == 8 {
        '8'
    } else {
        '9'
    }
}

/// The digit that `c` stands for, if it is one of `0` to `9`.
pub open spec fn digit_value(c: char) -> Option<int> {
    if c == '0' {
        Some(0)
    } else if c == '1' {
        Some(1)
    } else if c == '2' {
        Some(2)
    } else if c == '3' {
        Some(3)
    } else if c == '4' {
        Some(4)
    } else if c == '5' {
        Some(5)
    } else if c == '6' {
        Some(6)
    } else if c == '7' {
        Some(7)
    } else if c == '8' {
        Some(8)
    } else if c == '9' {
        Some(9)
    } else {
        None
    }
}

/// Whether `c` is one of `0` to `9`.
pub open spec fn is_digit(c: char) -> bool {
    digit_value(c).is_some()
}

/// The digits of `n` without leading zeros, most significant first; empty for
/// zero.
pub open spec fn significant_digits(n: nat) -> Seq<char>
    decreases n,
{
    if n == 0 {
        Seq::empty()
    } else {
        significant_digits(n / 10).push(digit_char((n % 10) as int))
    }
}

/// The decimal notation of `n`: `0` for zero, else its digits without leading
/// zeros.
pub open spec fn decimal_digits(n: nat) -> Seq<char> {
    if n == 0 {
        seq!['0']
    } else {
        significant_digits(n)
    }
}

/// The number that a sequence of digits denotes, read most significant first.
/// A character that is no digit counts as zero.
pub open spec fn digits_value(digits: Seq<char>) -> nat
    decreases digits.len(),
{
    if digits.len() == 0 {
        0
    } else {
        let last = match digit_value(digits.last()) {
            Some(d) => d as nat,
            None => 0,
        };
        digits_value(digits.drop_last()) * 10 + last
    }
}

fn digit_of(d: u8) -> (c: char)
    requires
        d < 10,
    ensures
        c == digit_char(d as int),
        digit_value(c) == Some(d as int),
{
    match d {
        0 => '0',
        1 => '1',
        2 => '2',
        3 => '3',
        4 => '4',
        5 => '5',
        6 => '6',
        7 => '7',
        8 => '8',
        _ => '9',
    }
}

/// Writes `n` in decimal notation.
pub fn decimal(n: u128) -> (text: String)
    ensures
        text@ == decimal_digits(n as nat),
{
    let mut text = String::new();
    if n == 0 {
        push_char(&mut text, '0');
        assert(text@ =~= decimal_digits(0));
        return text;
    }
    let mut low_first: Vec<char> = Vec::new();
    let mut rest: u128 = n;
    while rest > 0
        invariant
            significant_digits(n as nat) =~= significant_digits(rest as nat) + Seq::new(
                low_first@.len(),
                |j: int| low_first@[low_first@.len() - 1 - j],
            ),
        decreases rest,
    {
        let ghost before = low_first@;
        let d: u8 = (rest % 10) as u8;
        low_first.push(digit_of(d));
        rest = rest / 10;
        assert(Seq::new(
            low_first@.len(),
            |j: int| low_first@[low_first@.len() - 1 - j],
        ) =~= seq![digit_char(d as int)] + Seq::new(
            before.len(),
            |j: int| before[before.len() - 1 - j],
        ));
    }
    let mut left: usize = low_first.len();
    while left > 0
        invariant
            left <= low_first@.len(),
            text@ =~= Seq::new(
                (low_first@.len() - left) as nat,
                |j: int| low_first@[low_first@.len() - 1 - j],
            ),
        decreases left,
    {
        left = left - 1;
        push_char(&mut text, low_first[left]);
    }
    text
}

/// Reading the decimal notation of a number gives the number back.
pub proof fn lemma_decimal_round_trip(n: nat)
    ensures
        digits_value(decimal_digits(n)) == n,
        forall|i: int| 0 <= i < decimal_digits(n).len() ==> is_digit(#[trigger] decimal_digits(n)[i]),
        decimal_digits(n).len() > 0,
{
    lemma_significant_round_trip(n);
    if n == 0 {
        assert(seq!['0'].drop_last() =~= Seq::<char>::empty());
        assert(digits_value(seq!['0'].drop_last()) == 0);
    }
}

proof fn lemma_significant_round_trip(n: nat)
    ensures
        digits_value(significant_digits(n)) == n,
        forall|i: int|
            0 <= i < significant_digits(n).len() ==> is_digit(#[trigger] significant_digits(n)[i]),
        n > 0 ==> significant_digits(n).len() > 0,
    decreases n,
{
    if n > 0 {
        lemma_significant_round_trip(n / 10);
        let head = significant_digits(n / 10);
        let d = digit_char((n % 10) as int);
        assert(head.push(d).drop_last() =~= head);
        assert(head.push(d).last() == d);
        assert(digit_value(d) == Some((n % 10) as int));
    }
}

/// Two numbers with the same decimal notation are the same number.
pub proof fn lemma_decimal_injective(a: nat, b: nat)
    requires
        decimal_digits(a) == decimal_digits(b),
    ensures
        a == b,
{
    lemma_decimal_round_trip(a);
    lemma_decimal_round_trip(b);
}

} // verus!

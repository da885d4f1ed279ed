//! Decimal text of the 32-bit numbers that the chain counts with.
//!
//! Numbers go into messages and topic names as plain decimal text, and come
//! back out of cached session records as text that has to be read again.

use vstd::prelude::*;

verus! {

/// The character of a digit.
pub open spec fn digit_char(d: nat) -> char
    recommends
        d < 10,
{
    (48 + d) as u8 as char
}

/// The decimal text of a number, without leading zeros; zero is `0`.
pub open spec fn decimal(n: nat) -> Seq<char>
    decreases n,
{
    if n < 10 {
        seq![digit_char(n)]
    } else {
        decimal(n / 10).push(digit_char(n % 10))
    }
}

/// Whether a character is one of `0` to `9`.
pub open spec fn is_digit(c: char) -> bool {
    '0' <= c <= '9'
}

/// Whether a text is made of digits alone.
pub open spec fn all_digits(s: Seq<char>) -> bool {
    forall|i: int| 0 <= i < s.len() ==> is_digit(#[trigger] s[i])
}

/// The number that a text of digits stands for; leading zeros are allowed.
pub open spec fn digits_value(s: Seq<char>) -> nat
    decreases s.len(),
{
    if s.len() == 0 {
        0
    } else {
        (digits_value(s.drop_last()) * 10 + (s.last() as u32 - 48)) as nat
    }
}

/// A text without the one `+` that may stand in front of a number.
pub open spec fn unsigned_part(s: Seq<char>) -> Seq<char> {
    if s.len() > 0 && s[0] == '+' {
        s.skip(1)
    } else {
        s
    }
}

/// The number that a text stands for: an optional `+`, then at least one
/// digit and nothing but digits, for a value that fits in 32 bits.
pub open spec fn parsed(s: Seq<char>) -> Option<u32> {
    let digits = unsigned_part(s);
    if digits.len() > 0 && all_digits(digits) && digits_value(digits) <= u32::MAX {
        Some(digits_value(digits) as u32)
    } else {
        None
    }
}

/// Writes a number as decimal text.
pub fn to_decimal(n: u32) -> (text: String)
    ensures
        text@ == decimal(n as nat),
    decreases n,
{
    if n < 10 {
        let text = digit_text(n);
        assert(text@ =~= decimal(n as nat));
        text
    } else {
        let front = to_decimal(n / 10);
        let text = front.concat(digit_text(n % 10).as_str());
        assert(text@ =~= decimal(n as nat));
        text
    }
}

/// The text of one digit.
fn digit_text(d: u32) -> (text: String)
    requires
        d < 10,
    ensures
        text@ == seq![digit_char(d as nat)],
{
    proof {
        reveal_strlit("0");
        reveal_strlit("1");
        reveal_strlit("2");
        reveal_strlit("3");
        reveal_strlit("4");
        reveal_strlit("5");
        reveal_strlit("6");
        reveal_strlit("7");
        reveal_strlit("8");
        reveal_strlit("9");
    }
    let text = match d {
        0 => "0",
        1 => "1",
        2 => "2",
        3 => "3",
        4 => "4",
        5 => "5",
        6 => "6",
        7 => "7",
        8 => "8",
        _ => "9",
    };
    assert(text@ =~= seq![digit_char(d as nat)]);
    text.to_owned()
}

/// Reads a number from its decimal text.
pub fn parse_decimal(s: &str) -> (number: Option<u32>)
    ensures
        number == parsed(s@),
{
    let mut chars: Vec<char> = Vec::new();
    for c in it: s.chars()
        invariant
            it.seq() == s@,
            chars@ == s@.take(it.index() as int),
    {
        chars.push(c);
        assert(chars@ =~= s@.take(it.index() as int + 1));
    }
    assert(chars@ =~= s@);
    let start: usize = if chars.len() > 0 && chars[0] == '+' { 1 } else { 0 };
    let ghost digits = unsigned_part(s@);
    assert(digits =~= s@.skip(start as int));
    if chars.len() == start {
        return None;
    }
    let mut value: u32 = 0;
    let mut i: usize = start;
    assert(digits.take(0) =~= Seq::<char>::empty());
    while i < chars.len()
        invariant
            start <= i <= chars.len(),
            chars@ == s@,
            digits == unsigned_part(s@),
            digits == s@.skip(start as int),
            all_digits(digits.take(i - start)),
            value == digits_value(digits.take(i - start)),
        decreases chars.len() - i,
    {
        let c = chars[i];
        let ghost seen = digits.take(i - start);
        let ghost next = digits.take(i - start + 1);
        assert(next.drop_last() =~= seen);
        assert(next.last() == c && digits[i - start] == c);
        if c < '0' || c > '9' {
            return None;
        }
        assert(all_digits(next)) by {
            assert forall|j: int| 0 <= j < next.len() implies is_digit(#[trigger] next[j]) by {
                if j < seen.len() {
                    assert(next[j] == seen[j]);
                }
            }
        }
        let wide: u64 = value as u64 * 10 + (c as u32 - 48) as u64;
        if wide > u32::MAX as u64 {
            proof {
                if all_digits(digits) {
                    lemma_longer_is_larger(digits, i - start + 1);
                }
            }
            return None;
        }
        value = wide as u32;
        i += 1;
    }
    assert(digits.take(i - start) =~= digits);
    Some(value)
}

/// More digits never make a smaller number.
proof fn lemma_longer_is_larger(s: Seq<char>, n: int)
    requires
        0 <= n <= s.len(),
        all_digits(s),
    ensures
        digits_value(s.take(n)) <= digits_value(s),
    decreases s.len() - n,
{
    if n == s.len() {
        assert(s.take(n) =~= s);
    } else {
        let longer = s.take(n + 1);
        assert(longer.drop_last() =~= s.take(n));
        assert(is_digit(s[n]));
        lemma_longer_is_larger(s, n + 1);
    }
}

/// The decimal text of a number is digits alone, and stands for that number.
pub proof fn lemma_decimal_digits(n: nat)
    ensures
        decimal(n).len() > 0,
        all_digits(decimal(n)),
        digits_value(decimal(n)) == n,
    decreases n,
{
    if n < 10 {
        let s = decimal(n);
        assert(s.drop_last() =~= Seq::<char>::empty());
        assert(digits_value(s.drop_last()) == 0);
    } else {
        lemma_decimal_digits(n / 10);
        assert(decimal(n).drop_last() =~= decimal(n / 10));
    }
}

/// A number that was written as text is read back as the same number.
pub proof fn law_number_survives_text(n: u32)
    ensures
        parsed(decimal(n as nat)) == Some(n),
{
    lemma_decimal_digits(n as nat);
    assert(is_digit(decimal(n as nat)[0]));
}

/// Different numbers have different texts.
pub proof fn law_number_texts_differ(m: nat, n: nat)
    requires
        m != n,
    ensures
        decimal(m) != decimal(n),
{
    lemma_decimal_digits(m);
    lemma_decimal_digits(n);
}

/// A number of one digit is written as that digit; every other number as the
/// number of its tens, and then the digit of its ones.
pub proof fn law_digits_of_a_number(tens: nat, ones: nat)
    requires
        ones < 10,
    ensures
        decimal(ones) == seq!["0123456789"@[ones as int]],
        tens > 0 ==> decimal(10 * tens + ones) == decimal(tens).push("0123456789"@[ones as int]),
{
    reveal_strlit("0123456789");
    assert(digit_char(ones) == "0123456789"@[ones as int]) by {
        assert(ones == 0 || ones == 1 || ones == 2 || ones == 3 || ones == 4 || ones == 5 || ones
            == 6 || ones == 7 || ones == 8 || ones == 9);
    }
    assert(decimal(ones) =~= seq!["0123456789"@[ones as int]]);
    if tens > 0 {
        assert((10 * tens + ones) / 10 == tens && (10 * tens + ones) % 10 == ones);
    }
}

/// A number that does not fit in 32 bits is not read.
pub proof fn law_large_numbers_are_not_read(n: nat)
    requires
        n > u32::MAX,
    ensures
        parsed(decimal(n)) is None,
{
    lemma_decimal_digits(n);
    assert(is_digit(decimal(n)[0]));
}

/// A zero in front of digits does not change what number they stand for.
proof fn lemma_leading_zero(s: Seq<char>)
    requires
        all_digits(s),
    ensures
        all_digits(seq!['0'] + s),
        digits_value(seq!['0'] + s) == digits_value(s),
    decreases s.len(),
{
    let longer = seq!['0'] + s;
    assert forall|i: int| 0 <= i < longer.len() implies is_digit(#[trigger] longer[i]) by {
        if i > 0 {
            assert(longer[i] == s[i - 1]);
        }
    }
    if s.len() == 0 {
        assert(longer.drop_last() =~= Seq::<char>::empty());
        assert(digits_value(longer.drop_last()) == 0);
    } else {
        let front = s.drop_last();
        assert(all_digits(front)) by {
            assert forall|i: int| 0 <= i < front.len() implies is_digit(#[trigger] front[i]) by {
                assert(front[i] == s[i]);
            }
        }
        lemma_leading_zero(front);
        assert(longer.drop_last() =~= seq!['0'] + front);
    }
}

/// Zeros in front of digits, and one `+` in front of a number, do not change
/// what is read.
pub proof fn law_zeros_and_sign_are_skipped(s: Seq<char>)
    ensures
        s.len() > 0 && (forall|i: int| 0 <= i < s.len() ==> '0' <= #[trigger] s[i] <= '9')
            ==> parsed(seq!['0'] + s) == parsed(s),
        s.len() == 0 || s[0] != '+' ==> parsed(seq!['+'] + s) == parsed(s),
{
    assert((seq!['+'] + s).skip(1) =~= s);
    if s.len() > 0 && (forall|i: int| 0 <= i < s.len() ==> '0' <= #[trigger] s[i] <= '9') {
        assert(all_digits(s));
        assert(s[0] != '+');
        lemma_leading_zero(s);
        assert((seq!['0'] + s)[0] == '0');
    }
}

/// Nothing is read from a text without digits, or with any other character
/// than digits behind the place of the sign, or with another sign than `+`.
pub proof fn law_other_texts_are_not_read(s: Seq<char>, at: int)
    requires
        ({
            ||| s.len() == 0
            ||| s == seq!['+']
            ||| 0 <= at < s.len() && !('0' <= s[at] <= '9') && (at > 0 || s[at] != '+')
        }),
    ensures
        parsed(s) is None,
{
    let digits = unsigned_part(s);
    if s.len() > 0 && s != seq!['+'] {
        if s[0] == '+' {
            assert(digits[at - 1] == s[at]);
            assert(!is_digit(digits[at - 1]));
        } else {
            assert(!is_digit(digits[at]));
        }
    }
}

} // verus!

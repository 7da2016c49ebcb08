//! Bytes as text in base 58.

use vstd::prelude::*;

verus! {

/// The digits of base 58, from zero on. Letters that are easily confused are left out.
pub open spec fn base58_alphabet() -> Seq<char> {
    "123456789ABCDEFGHJKLMNPQRSTUVWXYZabcdefghijkmnopqrstuvwxyz"@
}

/// The number that bytes make up, the most significant byte first.
pub open spec fn big_endian(bytes: Seq<u8>) -> nat
    decreases bytes.len(),
{
    if bytes.len() == 0 {
        0
    } else {
        big_endian(bytes.drop_last()) * 256 + bytes.last() as nat
    }
}

/// A number in base 58, without leading zeros: zero has no digits at all.
pub open spec fn base58_digits(n: nat) -> Seq<char>
    decreases n,
{
    if n == 0 {
        Seq::empty()
    } else {
        base58_digits(n / 58).push(base58_alphabet()[(n % 58) as int])
    }
}

/// How many zero bytes come before the first other byte.
pub open spec fn leading_zeros(bytes: Seq<u8>) -> nat
    decreases bytes.len(),
{
    if bytes.len() == 0 || bytes.first() != 0 {
        0
    } else {
        1 + leading_zeros(bytes.drop_first())
    }
}

/// The base 58 text of bytes: the digit zero for each leading zero byte, then the
/// number that the bytes make up.
pub open spec fn base58(bytes: Seq<u8>) -> Seq<char> {
    Seq::new(leading_zeros(bytes), |i: int| '1') + base58_digits(big_endian(bytes))
}

/// Base 58 text is never shorter than the bytes that it stands for.
pub proof fn lemma_base58_length(bytes: Seq<u8>)
    ensures
        base58(bytes).len() >= bytes.len(),
    decreases bytes.len(),
{
    if bytes.len() > 0 {
        let init = bytes.drop_last();
        lemma_base58_length(init);
        lemma_leading_zeros_extend(init, bytes.last());
        assert(init.push(bytes.last()) =~= bytes);
        lemma_big_endian_zero(init);
        if big_endian(init) > 0 {
            assert((58 * big_endian(init)) / 58 == big_endian(init));
            lemma_base58_digits_monotonic(58 * big_endian(init), big_endian(bytes));
        } else if bytes.last() != 0 {
            assert(base58_digits(big_endian(bytes)).len() >= 1);
        }
    }
}

/// A larger number has at least as many digits.
proof fn lemma_base58_digits_monotonic(m: nat, n: nat)
    requires
        m <= n,
    ensures
        base58_digits(m).len() <= base58_digits(n).len(),
    decreases n,
{
    if m > 0 {
        lemma_base58_digits_monotonic(m / 58, n / 58);
    }
}

/// Bytes make up the number zero just if they are all zero.
proof fn lemma_big_endian_zero(bytes: Seq<u8>)
    ensures
        big_endian(bytes) == 0 <==> leading_zeros(bytes) == bytes.len(),
        leading_zeros(bytes) <= bytes.len(),
    decreases bytes.len(),
{
    if bytes.len() > 0 {
        lemma_big_endian_zero(bytes.drop_last());
        lemma_leading_zeros_extend(bytes.drop_last(), bytes.last());
        assert(bytes.drop_last().push(bytes.last()) =~= bytes);
    }
}

/// What one more byte at the end does to the count of leading zeros.
proof fn lemma_leading_zeros_extend(bytes: Seq<u8>, byte: u8)
    ensures
        leading_zeros(bytes) <= bytes.len(),
        leading_zeros(bytes.push(byte)) == if leading_zeros(bytes) == bytes.len() && byte == 0 {
            bytes.len() + 1
        } else {
            leading_zeros(bytes)
        },
    decreases bytes.len(),
{
    let more = bytes.push(byte);
    if bytes.len() == 0 {
        reveal_with_fuel(leading_zeros, 2);
        assert(more.drop_first() =~= Seq::<u8>::empty());
    } else {
        lemma_leading_zeros_extend(bytes.drop_first(), byte);
        assert(more.drop_first() =~= bytes.drop_first().push(byte));
    }
}

/// The digit that a character of the alphabet stands for.
pub open spec fn digit_value(digit: char) -> int {
    if digit <= '9' {
        digit as int - '1' as int
    } else if digit <= 'H' {
        digit as int - 'A' as int + 9
    } else if digit <= 'N' {
        digit as int - 'J' as int + 17
    } else if digit <= 'Z' {
        digit as int - 'P' as int + 22
    } else if digit <= 'k' {
        digit as int - 'a' as int + 33
    } else {
        digit as int - 'm' as int + 44
    }
}

/// No two digits are the same character.
proof fn lemma_alphabet()
    ensures
        base58_alphabet().len() == 58,
        base58_alphabet()[0] == '1',
        forall|i: int| 0 <= i < 58 ==> digit_value(#[trigger] base58_alphabet()[i]) == i,
{
    reveal_strlit("123456789ABCDEFGHJKLMNPQRSTUVWXYZabcdefghijkmnopqrstuvwxyz");
}

/// The first digit of a number other than zero is not zero.
proof fn lemma_first_digit(n: nat)
    requires
        n > 0,
    ensures
        base58_digits(n).len() > 0,
        base58_digits(n).first() != '1',
    decreases n,
{
    lemma_alphabet();
    if n >= 58 {
        lemma_first_digit(n / 58);
    } else {
        assert(n / 58 == 0 && n % 58 == n);
        assert(base58_digits(0) =~= Seq::empty());
        assert(digit_value(base58_alphabet()[n as int]) == n);
    }
}

/// Different numbers have different digits.
proof fn lemma_digits_injective(m: nat, n: nat)
    requires
        base58_digits(m) == base58_digits(n),
    ensures
        m == n,
    decreases m,
{
    lemma_alphabet();
    if m > 0 && n > 0 {
        assert(base58_digits(m).drop_last() =~= base58_digits(m / 58));
        assert(base58_digits(n).drop_last() =~= base58_digits(n / 58));
        lemma_digits_injective(m / 58, n / 58);
        assert(base58_digits(m).last() == base58_alphabet()[(m % 58) as int]);
        assert(base58_digits(n).last() == base58_alphabet()[(n % 58) as int]);
        assert(digit_value(base58_alphabet()[(m % 58) as int]) == m % 58);
        assert(digit_value(base58_alphabet()[(n % 58) as int]) == n % 58);
        assert(m % 58 == n % 58);
        assert(m == 58 * (m / 58) + m % 58);
        assert(n == 58 * (n / 58) + n % 58);
    } else {
        assert(base58_digits(0) =~= Seq::empty());
    }
}

/// Bytes are given by their leading zeros and the number that they make up.
proof fn lemma_bytes_injective(a: Seq<u8>, b: Seq<u8>)
    requires
        leading_zeros(a) == leading_zeros(b),
        big_endian(a) == big_endian(b),
    ensures
        a == b,
    decreases a.len(),
{
    lemma_big_endian_zero(a);
    lemma_big_endian_zero(b);
    if a.len() > 0 && b.len() > 0 {
        let (fewer_a, fewer_b) = (a.drop_last(), b.drop_last());
        lemma_big_endian_zero(fewer_a);
        lemma_big_endian_zero(fewer_b);
        lemma_leading_zeros_extend(fewer_a, a.last());
        lemma_leading_zeros_extend(fewer_b, b.last());
        assert(fewer_a.push(a.last()) =~= a);
        assert(fewer_b.push(b.last()) =~= b);
        lemma_bytes_injective(fewer_a, fewer_b);
    } else {
        assert(a =~= b);
    }
}

/// Different bytes have different texts.
pub proof fn law_base58_injective(a: Seq<u8>, b: Seq<u8>)
    requires
        base58(a) == base58(b),
    ensures
        a == b,
{
    let (zeros_a, zeros_b) = (leading_zeros(a), leading_zeros(b));
    let (digits_a, digits_b) = (base58_digits(big_endian(a)), base58_digits(big_endian(b)));
    if big_endian(a) > 0 {
        lemma_first_digit(big_endian(a));
        assert(base58(a)[zeros_a as int] == digits_a[0]);
    }
    if big_endian(b) > 0 {
        lemma_first_digit(big_endian(b));
        assert(base58(b)[zeros_b as int] == digits_b[0]);
    }
    if zeros_a < zeros_b {
        assert(base58(b)[zeros_a as int] == '1');
    } else if zeros_b < zeros_a {
        assert(base58(a)[zeros_b as int] == '1');
    }
    assert(base58(a).skip(zeros_a as int) =~= digits_a);
    assert(base58(b).skip(zeros_b as int) =~= digits_b);
    lemma_digits_injective(big_endian(a), big_endian(b));
    lemma_bytes_injective(a, b);
}

/// The number that a text in base 58 stands for.
pub open spec fn text_value(text: Seq<char>) -> int
    decreases text.len(),
{
    if text.len() == 0 {
        0
    } else {
        58 * text_value(text.drop_last()) + digit_value(text.last())
    }
}

/// Zeros in front of a text do not change the number that it stands for.
proof fn lemma_leading_ones(n: nat, text: Seq<char>)
    ensures
        text_value(Seq::new(n, |i: int| '1') + text) == text_value(text),
    decreases text.len(), n,
{
    let ones = Seq::new(n, |i: int| '1');
    if text.len() > 0 {
        lemma_leading_ones(n, text.drop_last());
        assert((ones + text).drop_last() =~= ones + text.drop_last());
    } else if n > 0 {
        let fewer = Seq::new((n - 1) as nat, |i: int| '1');
        lemma_leading_ones((n - 1) as nat, text);
        assert((ones + text).drop_last() =~= fewer + text);
    } else {
        assert(ones + text =~= text);
    }
}

/// The digits of a number stand for it.
proof fn lemma_digits_value(n: nat)
    ensures
        text_value(base58_digits(n)) == n,
        forall|i: int|
            0 <= i < base58_digits(n).len() ==> 0 <= digit_value(#[trigger] base58_digits(n)[i])
                < 58,
    decreases n,
{
    lemma_alphabet();
    if n > 0 {
        lemma_digits_value(n / 58);
        assert(base58_digits(n).drop_last() =~= base58_digits(n / 58));
        assert(digit_value(base58_alphabet()[(n % 58) as int]) == n % 58);
    }
}

/// Bytes make up a number with the most significant byte first, and their text stands for the
/// same number. It starts with one zero for each zero byte that they start with.
pub proof fn law_base58_value(bytes: Seq<u8>, byte: u8)
    ensures
        big_endian(Seq::empty()) == 0,
        big_endian(bytes.push(byte)) == 256 * big_endian(bytes) + byte,
        leading_zeros(bytes) <= bytes.len(),
        forall|i: int| 0 <= i < leading_zeros(bytes) ==> #[trigger] bytes[i] == 0,
        leading_zeros(bytes) < bytes.len() ==> bytes[leading_zeros(bytes) as int] != 0,
        text_value(base58(bytes)) == big_endian(bytes),
        forall|i: int|
            0 <= i < base58(bytes).len() ==> 0 <= digit_value(#[trigger] base58(bytes)[i]) < 58,
        forall|i: int| 0 <= i < leading_zeros(bytes) ==> #[trigger] base58(bytes)[i] == '1',
        leading_zeros(bytes) < base58(bytes).len() ==> base58(bytes)[leading_zeros(bytes) as int]
            != '1',
    decreases bytes.len(),
{
    assert(bytes.push(byte).drop_last() =~= bytes);
    let number = big_endian(bytes);
    lemma_leading_ones(leading_zeros(bytes), base58_digits(number));
    lemma_digits_value(number);
    assert forall|i: int| 0 <= i < base58(bytes).len() implies 0 <= digit_value(
        #[trigger] base58(bytes)[i],
    ) < 58 by {
        if i >= leading_zeros(bytes) {
            assert(base58(bytes)[i] == base58_digits(number)[i - leading_zeros(bytes)]);
        }
    }
    if number > 0 {
        lemma_first_digit(number);
    }
    if bytes.len() > 0 && bytes.first() == 0 {
        let rest = bytes.drop_first();
        law_base58_value(rest, byte);
        assert forall|i: int| 0 <= i < leading_zeros(bytes) implies #[trigger] bytes[i] == 0 by {
            if i > 0 {
                assert(rest[i - 1] == 0);
            }
        }
        if leading_zeros(bytes) < bytes.len() {
            assert(rest[leading_zeros(rest) as int] == bytes[leading_zeros(bytes) as int]);
        }
    }
}

} // verus!

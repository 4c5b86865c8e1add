//! Numbers as decimal text.
use vstd::prelude::*;
use vstd::string::StringExecFns;

verus! {

/// The text of the digit `d`, for `d` below ten.
pub open spec fn digit_text(d: nat) -> Seq<char> {
    if d == 0 {
        "0"@
    } else if d == 1 {
        "1"@
    } else if d == 2 {
        "2"@
    } else if d == 3 {
        "3"@
    } else if d == 4 {
        "4"@
    } else if d == 5 {
        "5"@
    } else if d == 6 {
        "6"@
    } else if d == 7 {
        "7"@
    } else if d == 8 {
        "8"@
    } else {
        "9"@
    }
}

/// The decimal text of `n`: its digits from the highest to the lowest,
/// with no leading zero but for zero itself.
pub open spec fn decimal(n: nat) -> Seq<char>
    decreases n,
{
    if n < 10 {
        digit_text(n)
    } else {
        decimal(n / 10) + digit_text(n % 10)
    }
}

/// The text of the digit `d`.
pub fn digit_str(d: u8) -> (text: &'static str)
    requires
        d < 10,
    ensures
        text@ == digit_text(d as nat),
{
    match d {
        0 => "0",
        1 => "1",
        2 => "2",
        3 => "3",
        4 => "4",
        5 => "5",
        6 => "6",
        7 => "7",
        8 => "8",
        _ => "9",
    }
}

/// Appends the decimal text of `n` to `out`.
pub fn push_decimal(out: &mut String, n: u64)
    ensures
        final(out)@ == old(out)@ + decimal(n as nat),
    decreases n,
{
    if n >= 10 {
        push_decimal(out, n / 10);
    }
    out.append(digit_str((n % 10) as u8));
}

/// The text of the `count` low bits of `byte`, from the highest of them to
/// the lowest.
pub open spec fn binary(byte: u8, count: nat) -> Seq<char>
    decreases count,
{
    if count == 0 {
        Seq::empty()
    } else {
        binary(byte / 2, (count - 1) as nat) + digit_text((byte % 2) as nat)
    }
}

/// Appends the text of the `count` low bits of `byte` to `out`.
pub fn push_binary(out: &mut String, byte: u8, count: u8)
    ensures
        final(out)@ == old(out)@ + binary(byte, count as nat),
    decreases count,
{
    if count > 0 {
        push_binary(out, byte / 2, count - 1);
        out.append(digit_str(byte % 2));
    }
}

/// Whether `c` is one of the ten digits.
pub open spec fn is_digit(c: char) -> bool {
    '0' <= c <= '9'
}

/// The number that a text of digits denotes in base ten.
pub open spec fn decimal_value(text: Seq<char>) -> nat
    decreases text.len(),
{
    if text.len() == 0 {
        0
    } else {
        (10 * decimal_value(text.drop_last()) + (text.last() as nat - '0' as nat)) as nat
    }
}

/// The text of a digit is the one character of that digit.
pub proof fn lemma_digit_text(d: nat)
    requires
        d < 10,
    ensures
        digit_text(d).len() == 1,
        is_digit(digit_text(d)[0]),
        digit_text(d)[0] as nat == '0' as nat + d,
{
    reveal_strlit("0");
    reveal_strlit("1");
    reveal_strlit("2");
    reveal_strlit("3");
    reveal_strlit("4");
    reveal_strlit("5");
    reveal_strlit("6");
    reveal_strlit("7");
    reveal_strlit("8");
    reveal_strlit("9");
}

/// The decimal text of a number is made of digits, at least one, starts
/// with a zero only for zero itself, and denotes the number.
pub proof fn lemma_decimal(n: nat)
    ensures
        decimal(n).len() >= 1,
        forall|i: int| 0 <= i < decimal(n).len() ==> is_digit(#[trigger] decimal(n)[i]),
        n > 0 ==> decimal(n)[0] != '0',
        decimal_value(decimal(n)) == n,
    decreases n,
{
    lemma_digit_text(n % 10);
    let text = decimal(n);
    assert(text.last() == digit_text(n % 10)[0]);
    if n < 10 {
        assert(text.drop_last() == Seq::<char>::empty());
        assert(decimal_value(Seq::<char>::empty()) == 0);
    } else {
        lemma_decimal(n / 10);
        assert(text.drop_last() == decimal(n / 10));
    }
    assert(decimal_value(text) == 10 * decimal_value(text.drop_last()) + n % 10);
}

/// Two numbers with the same decimal text are the same number.
pub proof fn lemma_decimal_unique(first: nat, second: nat)
    requires
        decimal(first) == decimal(second),
    ensures
        first == second,
{
    lemma_decimal(first);
    lemma_decimal(second);
}

} // verus!

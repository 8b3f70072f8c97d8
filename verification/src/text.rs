//! Decimal numerals.

use vstd::prelude::*;
use vstd::string::*;

verus! {

/// The numeral of `d`, which is less than ten.
pub open spec fn digit(d: nat) -> char {
    ('0' as nat + d) as char
}

/// The decimal numeral of `n`, without leading zeros.
pub open spec fn decimal(n: nat) -> Seq<char>
    decreases n,
{
    if n < 10 {
        seq![digit(n)]
    } else {
        decimal(n / 10).push(digit(n % 10))
    }
}

/// The numbers that decimal numerals name are pairwise different.
pub proof fn lemma_decimal_injective(m: nat, n: nat)
    requires
        decimal(m) == decimal(n),
    ensures
        m == n,
    decreases m,
{
    lemma_decimal_digits(m);
    lemma_decimal_digits(n);
    let a = decimal(m);
    let b = decimal(n);
    assert(a.last() == b.last());
    assert(digit(m % 10) == a.last());
    assert(digit(n % 10) == b.last());
    if m >= 10 && n >= 10 {
        assert(a.drop_last() =~= decimal(m / 10));
        assert(b.drop_last() =~= decimal(n / 10));
        lemma_decimal_injective(m / 10, n / 10);
    } else if m >= 10 {
        lemma_decimal_digits(m / 10);
    } else if n >= 10 {
        lemma_decimal_digits(n / 10);
    }
}

/// A decimal numeral is one or more digits.
pub proof fn lemma_decimal_digits(n: nat)
    ensures
        decimal(n).len() > 0,
        forall|i: int| 0 <= i < decimal(n).len() ==> '0' <= #[trigger] decimal(n)[i] <= '9',
    decreases n,
{
    if n >= 10 {
        lemma_decimal_digits(n / 10);
    }
}

/// The numeral of `d`, as a string.
fn digit_text(d: u32) -> (text: &'static str)
    requires
        d < 10,
    ensures
        text@ == seq![digit(d as nat)],
{
    proof {
        reveal_strlit("0");
        reveal_strlit("1");
        reveal_strlit("2");
        reveal_strlit("3");
        reveal_strlit("4");
        reveal_strlit("5");
        reveal_strlit("6");
        reveal_strlit("7");
        reveal_strlit("8");
        reveal_strlit("9");
    }
    let text = match d {
        0 => "0",
        1 => "1",
        2 => "2",
        3 => "3",
        4 => "4",
        5 => "5",
        6 => "6",
        7 => "7",
        8 => "8",
        _ => "9",
    };
    assert(text@ =~= seq![digit(d as nat)]);
    text
}

/// The decimal numeral of `n`.
pub fn decimal_text(n: u32) -> (text: String)
    ensures
        text@ == decimal(n as nat),
    decreases n,
{
    if n < 10 {
        digit_text(n).to_owned()
    } else {
        let mut text = decimal_text(n / 10);
        text.append(digit_text(n % 10));
        assert(text@ =~= decimal(n as nat));
        text
    }
}

/// The numeral of a number below ten is its digit; the numeral of any other number is that of its
/// tens, followed by the digit of what is left. A numeral does not begin with a zero, but for that
/// of zero itself.
pub proof fn law_numerals_grow_by_digits(tens: nat, ones: nat)
    requires
        ones < 10,
    ensures
        decimal(ones) == seq![('0' as nat + ones) as char],
        tens > 0 ==> decimal(10 * tens + ones) == decimal(tens).push(
            ('0' as nat + ones) as char,
        ),
        tens > 0 ==> decimal(tens)[0] != '0',
    decreases tens,
{
    if tens >= 10 {
        law_numerals_grow_by_digits(tens / 10, tens % 10);
        lemma_decimal_digits(tens / 10);
        assert(tens == 10 * (tens / 10) + tens % 10);
    }
    if tens > 0 {
        assert((10 * tens + ones) / 10 == tens && (10 * tens + ones) % 10 == ones);
    }
}

} // verus!

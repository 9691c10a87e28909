//! Laws of numbers written in decimal.

use crate::text::{decimal, digit_char, digits_value, number_value};
use crate::token::is_digit;
use vstd::prelude::*;

verus! {

/// Reading the digits `text` followed by the digit of `d` from `from` on
/// gives ten times what reading `text` gives, and `d`.
proof fn lemma_digits_value_push(text: Seq<char>, d: nat, from: int, acc: nat)
    requires
        0 <= from <= text.len(),
        d < 10,
    ensures
        digits_value(text.push(digit_char(d)), from, acc) == match digits_value(text, from, acc) {
            Some(value) => Some(value * 10 + d),
            None => None,
        },
    decreases text.len() - from,
{
    let more = text.push(digit_char(d));
    if from < text.len() {
        assert(more[from] == text[from]);
        if is_digit(text[from]) {
            lemma_digits_value_push(
                text,
                d,
                from + 1,
                acc * 10 + (text[from] as nat - 48) as nat,
            );
        }
    } else {
        assert(more[from] == digit_char(d));
        assert(is_digit(digit_char(d)));
        assert((digit_char(d) as nat - 48) as nat == d);
        assert(digits_value(more, from + 1, acc * 10 + d) == Some(acc * 10 + d));
    }
}

/// The digits of a number read as that number.
proof fn lemma_decimal_value(n: nat)
    ensures
        decimal(n).len() > 0,
        digits_value(decimal(n), 0, 0) == Some(n),
    decreases n,
{
    if n < 10 {
        let text = seq![digit_char(n)];
        assert(is_digit(text[0]));
        assert((digit_char(n) as nat - 48) as nat == n);
        assert(digits_value(text, 1, n) == Some(n));
        assert(digits_value(text, 0, 0) == digits_value(text, 1, 0 * 10 + n));
    } else {
        lemma_decimal_value(n / 10);
        lemma_digits_value_push(decimal(n / 10), n % 10, 0, 0);
    }
}

/// Writing a number and reading it again gives the number back.
pub proof fn law_number_round_trip(n: usize)
    ensures
        number_value(decimal(n as nat)) == Some(n),
{
    lemma_decimal_value(n as nat);
}

} // verus!

//! Text helpers shared by the tokenizer, the parser and the expander.
//!
//! All text is modelled as `Seq<char>`, the view of `str` and `String`.

use crate::token::is_digit;
use vstd::prelude::*;
use vstd::string::*;

verus! {

/// Appends one character to a string.
///
/// Trusted: wraps `String::push`, which appends the given `char` to the end of
/// the string and leaves the rest untouched.
#[verifier::external_body]
pub(crate) fn push_char(s: &mut String, c: char)
    ensures
        final(s)@ == old(s)@.push(c),
{
    s.push(c)
}

/// The characters of `s`, in order.
pub fn to_chars(s: &str) -> (v: Vec<char>)
    ensures
        v@ == s@,
{
    let mut v: Vec<char> = Vec::new();
    for c in it: s.chars()
        invariant
            it.seq() == s@,
            v@ == it.seq().take(it.index()),
    {
        proof {
            assert(it.seq().take(it.index()).push(c) =~= it.seq().take(it.index() + 1));
        }
        v.push(c);
    }
    proof {
        assert(s@.take(s@.len() as int) =~= s@);
    }
    v
}

/// The text `chars[from..to]` as a string.
pub fn slice_string(chars: &Vec<char>, from: usize, to: usize) -> (s: String)
    requires
        from <= to <= chars@.len(),
    ensures
        s@ == chars@.subrange(from as int, to as int),
{
    let mut s = String::new();
    let mut i: usize = from;
    while i < to
        invariant
            from <= i <= to <= chars@.len(),
            s@ == chars@.subrange(from as int, i as int),
        decreases to - i,
    {
        push_char(&mut s, chars[i]);
        proof {
            assert(chars@.subrange(from as int, i as int).push(chars@[i as int])
                =~= chars@.subrange(from as int, i + 1));
        }
        i += 1;
    }
    s
}

/// The character of the decimal digit `d`.
pub open spec fn digit_char(d: nat) -> char
    recommends
        d < 10,
{
    ((48 + d) as u8) as char
}

/// The decimal digits of `n`, most significant first, without leading zeros.
pub open spec fn decimal(n: nat) -> Seq<char>
    decreases n,
{
    if n < 10 {
        seq![digit_char(n)]
    } else {
        decimal(n / 10).push(digit_char(n % 10))
    }
}

/// Writes `n` in decimal.
pub fn decimal_string(n: usize) -> (s: String)
    ensures
        s@ == decimal(n as nat),
{
    let mut digits: Vec<char> = Vec::new();
    let mut rest: usize = n;
    // digits holds the low digits of n, least significant first
    while rest >= 10
        invariant
            decimal(n as nat) == decimal(rest as nat) + digits@.reverse(),
        decreases rest,
    {
        let d: u8 = (rest % 10) as u8;
        let c: char = (d + 48u8) as char;
        proof {
            assert(c == digit_char((rest % 10) as nat));
            assert(decimal(rest as nat) == decimal((rest / 10) as nat).push(c));
            assert(digits@.push(c).reverse() =~= seq![c] + digits@.reverse());
            assert(decimal((rest / 10) as nat).push(c) + digits@.reverse()
                =~= decimal((rest / 10) as nat) + digits@.push(c).reverse());
        }
        digits.push(c);
        rest = rest / 10;
    }
    let lead: char = ((rest as u8) + 48u8) as char;
    let mut s = String::new();
    push_char(&mut s, lead);
    let mut i: usize = digits.len();
    proof {
        assert(lead == digit_char(rest as nat));
        assert(s@ =~= decimal(rest as nat));
        assert(digits@.reverse().subrange(0, 0) =~= Seq::<char>::empty());
    }
    while i > 0
        invariant
            i <= digits@.len(),
            decimal(n as nat) == decimal(rest as nat) + digits@.reverse(),
            s@ == decimal(rest as nat) + digits@.reverse().subrange(0, digits@.len() - i),
        decreases i,
    {
        i -= 1;
        push_char(&mut s, digits[i]);
        proof {
            let r = digits@.reverse();
            let k = digits@.len() - i;
            assert(r[k - 1] == digits@[i as int]);
            assert(r.subrange(0, k - 1).push(r[k - 1]) =~= r.subrange(0, k as int));
        }
    }
    proof {
        assert(digits@.reverse().subrange(0, digits@.len() as int) =~= digits@.reverse());
    }
    s
}

/// The texts `list[from..]`, each after `sep` but the first of `list`,
/// appended to `acc`.
pub open spec fn joined_from(list: Seq<Seq<char>>, sep: Seq<char>, from: int, acc: Seq<char>) -> Seq<
    char,
>
    decreases list.len() - from,
{
    if from < 0 || from >= list.len() {
        acc
    } else if from == 0 {
        joined_from(list, sep, from + 1, acc + list[from])
    } else {
        joined_from(list, sep, from + 1, acc + sep + list[from])
    }
}

/// The texts of `list` with `sep` between them.
pub open spec fn joined(list: Seq<Seq<char>>, sep: Seq<char>) -> Seq<char> {
    joined_from(list, sep, 0, Seq::empty())
}

/// Appends the texts of `list` to `res`, with `sep` between them.
pub fn append_joined(res: &mut String, list: &Vec<String>, sep: &str)
    ensures
        final(res)@ == joined_from(list.deep_view(), sep@, 0, old(res)@),
{
    let mut i: usize = 0;
    while i < list.len()
        invariant
            i <= list.len(),
            joined_from(list.deep_view(), sep@, i as int, res@) == joined_from(
                list.deep_view(),
                sep@,
                0,
                old(res)@,
            ),
        decreases list.len() - i,
    {
        assert(list.deep_view()[i as int] == list@[i as int]@);
        if i > 0 {
            res.append(sep);
        }
        res.append(list[i].as_str());
        i += 1;
    }
}

/// The number that the decimal digits `text[from..]` continue from `acc`, or
/// `None` where a character is no digit.
pub open spec fn digits_value(text: Seq<char>, from: int, acc: nat) -> Option<nat>
    decreases text.len() - from,
{
    if from < 0 || from >= text.len() {
        Some(acc)
    } else if is_digit(text[from]) {
        digits_value(text, from + 1, acc * 10 + (text[from] as nat - 48) as nat)
    } else {
        None
    }
}

/// The number that `text` is in decimal, where it is made of digits, at
/// least one, and the number fits `usize`.
pub open spec fn number_value(text: Seq<char>) -> Option<usize> {
    if text.len() == 0 {
        None
    } else {
        match digits_value(text, 0, 0) {
            Some(value) => if value <= usize::MAX {
                Some(value as usize)
            } else {
                None
            },
            None => None,
        }
    }
}

/// Digits never make a number smaller.
pub proof fn lemma_digits_value_grows(text: Seq<char>, from: int, acc: nat)
    ensures
        match digits_value(text, from, acc) {
            Some(value) => value >= acc,
            None => true,
        },
    decreases text.len() - from,
{
    if 0 <= from < text.len() && is_digit(text[from]) {
        lemma_digits_value_grows(text, from + 1, acc * 10 + (text[from] as nat - 48) as nat);
    }
}

/// Reads a decimal number.
pub fn parse_number(text: &str) -> (r: Option<usize>)
    ensures
        r == number_value(text@),
{
    let chars = to_chars(text);
    if chars.len() == 0 {
        return None;
    }
    let mut value: usize = 0;
    let mut i: usize = 0;
    while i < chars.len()
        invariant
            i <= chars.len(),
            chars@ == text@,
            digits_value(chars@, i as int, value as nat) == digits_value(chars@, 0, 0),
        decreases chars.len() - i,
    {
        let c = chars[i];
        if !(c >= '0' && c <= '9') {
            return None;
        }
        let d: usize = (c as u32 - 48) as usize;
        if value > (usize::MAX - d) / 10 {
            proof {
                let next = (value * 10 + d) as nat;
                assert(next > usize::MAX) by (nonlinear_arith)
                    requires
                        value > (usize::MAX - d) / 10,
                        next == value * 10 + d,
                ;
                lemma_digits_value_grows(chars@, i + 1, next);
            }
            return None;
        }
        assert(value * 10 + d <= usize::MAX) by (nonlinear_arith)
            requires
                value <= (usize::MAX - d) / 10,
        ;
        value = value * 10 + d;
        i += 1;
    }
    Some(value)
}

} // verus!

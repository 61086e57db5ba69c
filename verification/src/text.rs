//! Numbers and quoted strings as text, for the messages of errors.

use vstd::prelude::*;
use vstd::string::StringExecFns;

verus! {

/// The character of a decimal digit.
pub open spec fn digit_char(d: nat) -> char {
    if d == 0 {
        '0'
    } else if d == 1 {
        '1'
    } else if d == 2 {
        '2'
    } else if d == 3 {
        '3'
    } else if d == 4 {
        '4'
    } else if d == 5 {
        '5'
    } else if d == 6 {
        '6'
    } else if d == 7 {
        '7'
    } else if d == 8 {
        '8'
    } else {
        '9'
    }
}

/// A number in decimal digits, the most significant first.
pub open spec fn spec_decimal(n: nat) -> Seq<char>
    decreases n,
{
    if n < 10 {
        seq![digit_char(n)]
    } else {
        spec_decimal(n / 10).push(digit_char(n % 10))
    }
}

/// A number in decimal digits, behind a minus sign where it is negative.
pub open spec fn spec_signed_decimal(n: int) -> Seq<char> {
    if n < 0 {
        seq!['-'] + spec_decimal((-n) as nat)
    } else {
        spec_decimal(n as nat)
    }
}

/// A decimal digit as a string of one character.
fn digit_str(d: u8) -> (s: &'static str)
    requires
        d < 10,
    ensures
        s@ == seq![digit_char(d as nat)],
{
    proof {
        reveal_strlit("0");
        reveal_strlit("1");
        reveal_strlit("2");
        reveal_strlit("3");
        reveal_strlit("4");
        reveal_strlit("5");
        reveal_strlit("6");
        reveal_strlit("7");
        reveal_strlit("8");
        reveal_strlit("9");
    }
    let s = if d == 0 {
        "0"
    } else if d == 1 {
        "1"
    } else if d == 2 {
        "2"
    } else if d == 3 {
        "3"
    } else if d == 4 {
        "4"
    } else if d == 5 {
        "5"
    } else if d == 6 {
        "6"
    } else if d == 7 {
        "7"
    } else if d == 8 {
        "8"
    } else {
        "9"
    };
    assert(s@ =~= seq![digit_char(d as nat)]);
    s
}

/// Writes a number in decimal digits.
pub fn decimal(n: u128) -> (s: String)
    ensures
        s@ == spec_decimal(n as nat),
    decreases n,
{
    if n < 10 {
        String::from_str(digit_str(n as u8))
    } else {
        let mut s = decimal(n / 10);
        s.append(digit_str((n % 10) as u8));
        assert(s@ =~= spec_decimal(n as nat));
        s
    }
}

/// Writes a number in decimal digits, behind a minus sign where it is
/// negative.
pub fn signed_decimal(n: i128) -> (s: String)
    ensures
        s@ == spec_signed_decimal(n as int),
{
    if n < 0 {
        proof {
            reveal_strlit("-");
        }
        let magnitude: u128 = (-(n + 1)) as u128 + 1;
        let mut s = String::from_str("-");
        let digits = decimal(magnitude);
        s.append(digits.as_str());
        assert(s@ =~= spec_signed_decimal(n as int));
        s
    } else {
        decimal(n as u128)
    }
}

/// Two texts, one after the other.
pub fn joined(front: &str, back: &str) -> (s: String)
    ensures
        s@ == front@ + back@,
{
    let mut s = String::from_str(front);
    s.append(back);
    s
}

/// A number in decimal digits between two texts.
pub open spec fn spec_with_number(front: Seq<char>, n: nat, back: Seq<char>) -> Seq<char> {
    front + spec_decimal(n) + back
}

/// Writes a number in decimal digits between two texts.
pub fn with_number(front: &str, n: u128, back: &str) -> (s: String)
    ensures
        s@ == spec_with_number(front@, n as nat, back@),
{
    let mut s = String::from_str(front);
    let digits = decimal(n);
    s.append(digits.as_str());
    s.append(back);
    s
}

/// Two numbers in decimal digits between three texts.
pub open spec fn spec_with_two_numbers(
    front: Seq<char>,
    m: nat,
    middle: Seq<char>,
    n: nat,
    back: Seq<char>,
) -> Seq<char> {
    front + spec_decimal(m) + middle + spec_decimal(n) + back
}

/// Writes two numbers in decimal digits between three texts.
pub fn with_two_numbers(front: &str, m: u128, middle: &str, n: u128, back: &str) -> (s: String)
    ensures
        s@ == spec_with_two_numbers(front@, m as nat, middle@, n as nat, back@),
{
    let mut s = with_number(front, m, middle);
    let rest = with_number("", n, back);
    s.append(rest.as_str());
    proof {
        reveal_strlit("");
        assert(s@ =~= spec_with_two_numbers(front@, m as nat, middle@, n as nat, back@));
    }
    s
}

/// The numbers of `items` in decimal digits, with a comma and a space
/// between them.
pub open spec fn spec_decimal_list(items: Seq<u32>) -> Seq<char>
    decreases items.len(),
{
    if items.len() == 0 {
        Seq::<char>::empty()
    } else if items.len() == 1 {
        spec_decimal(items[0] as nat)
    } else {
        spec_decimal_list(items.drop_last()) + seq![',', ' '] + spec_decimal(items.last() as nat)
    }
}

/// Writes a list of numbers as the standard library shows a slice: in
/// square brackets, with a comma and a space between them.
pub fn decimal_list(items: &[u32]) -> (s: String)
    ensures
        s@ == seq!['['] + spec_decimal_list(items@) + seq![']'],
{
    proof {
        reveal_strlit("[");
        reveal_strlit("]");
        reveal_strlit(", ");
    }
    let mut s = String::from_str("[");
    let mut i: usize = 0;
    assert(items@.take(0) =~= Seq::<u32>::empty());
    assert(s@ =~= seq!['['] + spec_decimal_list(items@.take(0)));
    while i < items.len()
        invariant
            i <= items.len(),
            s@ == seq!['['] + spec_decimal_list(items@.take(i as int)),
            ", "@ == seq![',', ' '],
            "]"@ == seq![']'],
        decreases items.len() - i,
    {
        if i > 0 {
            s.append(", ");
        }
        let digits = decimal(items[i] as u128);
        s.append(digits.as_str());
        proof {
            let front = items@.take(i as int);
            let now = items@.take(i as int + 1);
            assert(now.drop_last() =~= front);
            assert(now.last() == items@[i as int]);
            assert(s@ =~= seq!['['] + spec_decimal_list(now));
        }
        i += 1;
    }
    assert(items@.take(i as int) =~= items@);
    s.append("]");
    s
}

/// A string as the standard library shows it for debugging: in double
/// quotes, with escapes.
pub uninterp spec fn spec_quoted(s: Seq<char>) -> Seq<char>;

/// `format!("{:?}", s)`: the string as the standard library shows it for
/// debugging.
#[verifier::external_body]
pub(crate) fn quoted(s: &str) -> (r: String)
    ensures
        r@ == spec_quoted(s@),
{
    format!("{:?}", s)
}

} // verus!

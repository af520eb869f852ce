//! Decimal numerals: how the agent writes numbers into message payloads.

use vstd::prelude::*;
use vstd::string::*;

verus! {

/// What an optional string holds, as characters.
pub open spec fn optional_text(text: Option<String>) -> Option<Seq<char>> {
    match text {
        Some(t) => Some(t@),
        None => None,
    }
}

/// The character that writes the digit `d`.
pub open spec fn digit_char(d: int) -> char
    recommends
        0 <= d < 10,
{
    if d == 0 {
        '0'
    } else if d == 1 {
        '1'
    } else if d == 2 {
        '2'
    } else if d == 3 {
        '3'
    } else if d == 4 {
        '4'
    } else if d == 5 {
        '5'
    } else if d == 6 {
        '6'
    } else if d == 7 {
        '7'
    } else if d == 8 {
        '8'
    } else {
        '9'
    }
}

/// The decimal numeral of `n`: most significant digit first, no leading zero
/// (zero itself is written `0`).
pub open spec fn decimal(n: nat) -> Seq<char>
    decreases n,
{
    if n < 10 {
        seq![digit_char(n as int)]
    } else {
        decimal(n / 10).push(digit_char((n % 10) as int))
    }
}

/// `count` zeros in a row.
pub open spec fn zeros(count: nat) -> Seq<char> {
    Seq::new(count, |i: int| '0')
}

/// The decimal numeral of `n`, with zeros put in front until it has at least
/// `width` characters.
pub open spec fn zero_padded(n: nat, width: nat) -> Seq<char> {
    if decimal(n).len() >= width {
        decimal(n)
    } else {
        zeros((width - decimal(n).len()) as nat) + decimal(n)
    }
}

/// The fraction of a number given in hundredths, as it stands behind the
/// whole part: nothing where the number is whole, else a point and the
/// decimals, one or two, without a zero at the end.
pub open spec fn fraction(h: nat) -> Seq<char> {
    if h % 100 == 0 {
        Seq::empty()
    } else if h % 10 == 0 {
        seq!['.', digit_char(((h % 100) / 10) as int)]
    } else {
        seq!['.', digit_char(((h % 100) / 10) as int), digit_char((h % 10) as int)]
    }
}

/// A number given in hundredths, written as a decimal numeral: the numeral of
/// its whole part, and a fraction only where there is one. So `7500` is `75`,
/// `1250` is `12.5`, `3333` is `33.33` and `0` is `0`.
pub open spec fn hundredths(h: nat) -> Seq<char> {
    decimal(h / 100) + fraction(h)
}

fn digit_text(d: u64) -> (s: &'static str)
    requires
        d < 10,
    ensures
        s@ == seq![digit_char(d as int)],
{
    proof {
        reveal_strlit("0");
        reveal_strlit("1");
        reveal_strlit("2");
        reveal_strlit("3");
        reveal_strlit("4");
        reveal_strlit("5");
        reveal_strlit("6");
        reveal_strlit("7");
        reveal_strlit("8");
        reveal_strlit("9");
    }
    let s = if d == 0 {
        "0"
    } else if d == 1 {
        "1"
    } else if d == 2 {
        "2"
    } else if d == 3 {
        "3"
    } else if d == 4 {
        "4"
    } else if d == 5 {
        "5"
    } else if d == 6 {
        "6"
    } else if d == 7 {
        "7"
    } else if d == 8 {
        "8"
    } else {
        "9"
    };
    assert(s@ =~= seq![digit_char(d as int)]);
    s
}

/// Writes `n` as a decimal numeral.
pub fn decimal_text(n: u64) -> (s: String)
    ensures
        s@ == decimal(n as nat),
    decreases n,
{
    if n < 10 {
        String::from_str(digit_text(n))
    } else {
        let mut s = decimal_text(n / 10);
        s.append(digit_text(n % 10));
        s
    }
}

/// Writes `n` as a decimal numeral of at least `width` characters, with zeros
/// in front where the numeral is shorter.
pub fn zero_padded_text(n: u64, width: usize) -> (s: String)
    ensures
        s@ == zero_padded(n as nat, width as nat),
{
    let digits = decimal_text(n);
    let len = digits.as_str().unicode_len();
    if len >= width {
        return digits;
    }
    let mut s = String::new();
    let mut k: usize = len;
    while k < width
        invariant
            len <= k <= width,
            s@ == zeros((k - len) as nat),
        decreases width - k,
    {
        proof {
            reveal_strlit("0");
            assert(s@ + "0"@ =~= zeros((k + 1 - len) as nat));
        }
        s.append("0");
        k = k + 1;
    }
    s.append(digits.as_str());
    s
}

/// Writes a number given in hundredths as a decimal numeral without zeros
/// at the end of its fraction: `1234` is `12.34`, `1250` is `12.5`, `7500` is
/// `75`.
pub fn hundredths_text(h: u64) -> (s: String)
    ensures
        s@ == hundredths(h as nat),
{
    let mut s = decimal_text(h / 100);
    let cents = h % 100;
    if cents != 0 {
        proof {
            reveal_strlit(".");
        }
        s.append(".");
        s.append(digit_text(cents / 10));
        if cents % 10 != 0 {
            s.append(digit_text(cents % 10));
        }
        assert(s@ =~= decimal((h / 100) as nat) + fraction(h as nat));
    } else {
        assert(s@ =~= decimal((h / 100) as nat) + fraction(h as nat));
    }
    s
}

} // verus!

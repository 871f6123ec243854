//! Sequential entry names: zero-padded decimal numerals with the format's
//! extension.

use vstd::prelude::*;
use vstd::string::StringExecFns;
use crate::format::{ImageFormat, extension_of};

verus! {

/// The character of a decimal digit.
pub open spec fn digit_char(d: nat) -> char {
    if d == 0 {
        '0'
    } else if d == 1 {
        '1'
    } else if d == 2 {
        '2'
    } else if d == 3 {
        '3'
    } else if d == 4 {
        '4'
    } else if d == 5 {
        '5'
    } else if d == 6 {
        '6'
    } else if d == 7 {
        '7'
    } else if d == 8 {
        '8'
    } else {
        '9'
    }
}

/// The decimal numeral of `n`, most significant digit first, without
/// leading zeros.
pub open spec fn digits(n: nat) -> Seq<char>
    decreases n,
{
    if n < 10 {
        seq![digit_char(n)]
    } else {
        digits(n / 10).push(digit_char(n % 10))
    }
}

/// `count` zeros.
pub open spec fn zeros(count: nat) -> Seq<char> {
    Seq::new(count, |i: int| '0')
}

/// The width to which the numerals of `count` images are padded: the
/// number of digits of `count`, and at least two.
pub open spec fn padding_width(count: nat) -> nat {
    if digits(count).len() < 2 {
        2
    } else {
        digits(count).len()
    }
}

/// The numeral of `n`, padded with zeros on the left to `width` characters.
/// A numeral that is already wider stays as it is.
pub open spec fn zero_padded(n: nat, width: nat) -> Seq<char> {
    if digits(n).len() < width {
        zeros((width - digits(n).len()) as nat) + digits(n)
    } else {
        digits(n)
    }
}

/// The name of the image at the 1-based position `index` among `count`
/// images: the padded numeral, a dot, and the format's extension.
pub open spec fn numbered(index: nat, count: nat, format: ImageFormat) -> Seq<char> {
    zero_padded(index, padding_width(count)) + seq!['.'] + extension_of(format)
}

/// A numeral has at least one digit and at most twenty for a machine word.
pub proof fn lemma_digits_len(n: nat)
    ensures
        digits(n).len() >= 1,
        n <= u64::MAX ==> digits(n).len() <= 20,
        n >= 10 ==> digits(n).len() >= 2,
    decreases n,
{
    reveal_with_fuel(digits, 21);
}

fn digit_str(d: usize) -> (s: &'static str)
    requires
        d < 10,
    ensures
        s@ == seq![digit_char(d as nat)],
{
    proof {
        reveal_strlit("0");
        reveal_strlit("1");
        reveal_strlit("2");
        reveal_strlit("3");
        reveal_strlit("4");
        reveal_strlit("5");
        reveal_strlit("6");
        reveal_strlit("7");
        reveal_strlit("8");
        reveal_strlit("9");
    }
    let s = if d == 0 {
        "0"
    } else if d == 1 {
        "1"
    } else if d == 2 {
        "2"
    } else if d == 3 {
        "3"
    } else if d == 4 {
        "4"
    } else if d == 5 {
        "5"
    } else if d == 6 {
        "6"
    } else if d == 7 {
        "7"
    } else if d == 8 {
        "8"
    } else {
        "9"
    };
    assert(s@ =~= seq![digit_char(d as nat)]);
    s
}

/// The number of decimal digits of `n`.
pub fn digit_count(n: usize) -> (count: usize)
    ensures
        count == digits(n as nat).len(),
        1 <= count <= 20,
    decreases n,
{
    proof {
        lemma_digits_len(n as nat);
    }
    if n < 10 {
        1
    } else {
        proof {
            lemma_digits_len((n / 10) as nat);
        }
        digit_count(n / 10) + 1
    }
}

fn push_digits(out: &mut String, n: usize)
    ensures
        final(out)@ == old(out)@ + digits(n as nat),
    decreases n,
{
    if n >= 10 {
        push_digits(out, n / 10);
    }
    out.append(digit_str(n % 10));
    assert(final(out)@ =~= old(out)@ + digits(n as nat));
}

/// The padding width for `count` images.
pub fn pad_width(count: usize) -> (width: usize)
    ensures
        width == padding_width(count as nat),
        2 <= width <= 20,
{
    let d: usize = digit_count(count);
    if d < 2 {
        2
    } else {
        d
    }
}

/// Formats `n` in decimal, padded with zeros on the left to `width`
/// characters.
pub fn pad_number(n: usize, width: usize) -> (text: String)
    ensures
        text@ == zero_padded(n as nat, width as nat),
{
    let d: usize = digit_count(n);
    let mut text = String::new();
    let mut k: usize = d;
    while k < width
        invariant
            d <= k,
            k <= width || k == d,
            text@ == zeros((k - d) as nat),
        decreases width - k,
    {
        text.append("0");
        proof {
            reveal_strlit("0");
        }
        k = k + 1;
        assert(text@ =~= zeros((k - d) as nat));
    }
    push_digits(&mut text, n);
    assert(text@ =~= zero_padded(n as nat, width as nat));
    text
}

/// The sequential name of the image at the 1-based position `index` among
/// `count` images.
pub fn numbered_name(index: usize, count: usize, format: ImageFormat) -> (name: String)
    ensures
        name@ == numbered(index as nat, count as nat, format),
{
    let mut name = pad_number(index, pad_width(count));
    name.append(".");
    name.append(format.extension());
    proof {
        reveal_strlit(".");
        assert(name@ =~= numbered(index as nat, count as nat, format));
    }
    name
}

} // verus!

//! Building blocks for rendered text: decimal numbers and repeated pieces.

use vstd::prelude::*;
use vstd::string::*;

verus! {

/// The character of a decimal digit.
pub open spec fn digit_char(d: nat) -> char {
    if d == 0 {
        '0'
    } else if d == 1 {
        '1'
    } else if d == 2 {
        '2'
    } else if d == 3 {
        '3'
    } else if d == 4 {
        '4'
    } else if d == 5 {
        '5'
    } else if d == 6 {
        '6'
    } else if d == 7 {
        '7'
    } else if d == 8 {
        '8'
    } else {
        '9'
    }
}

/// The decimal numeral of `n`, without leading zeros.
pub open spec fn decimal(n: nat) -> Seq<char>
    decreases n,
{
    if n < 10 {
        seq![digit_char(n)]
    } else {
        decimal(n / 10) + seq![digit_char(n % 10)]
    }
}

/// `piece` written `count` times in a row.
pub open spec fn repeated(piece: Seq<char>, count: nat) -> Seq<char>
    decreases count,
{
    if count == 0 {
        Seq::<char>::empty()
    } else {
        repeated(piece, (count - 1) as nat) + piece
    }
}

fn digit_str(d: usize) -> (text: &'static str)
    requires
        d < 10,
    ensures
        text@ == seq![digit_char(d as nat)],
{
    proof {
        reveal_strlit("0");
        reveal_strlit("1");
        reveal_strlit("2");
        reveal_strlit("3");
        reveal_strlit("4");
        reveal_strlit("5");
        reveal_strlit("6");
        reveal_strlit("7");
        reveal_strlit("8");
        reveal_strlit("9");
    }
    let text = if d == 0 {
        "0"
    } else if d == 1 {
        "1"
    } else if d == 2 {
        "2"
    } else if d == 3 {
        "3"
    } else if d == 4 {
        "4"
    } else if d == 5 {
        "5"
    } else if d == 6 {
        "6"
    } else if d == 7 {
        "7"
    } else if d == 8 {
        "8"
    } else {
        "9"
    };
    assert(text@ =~= seq![digit_char(d as nat)]);
    text
}

/// Writes `n` in decimal.
pub fn decimal_string(n: usize) -> (text: String)
    ensures
        text@ == decimal(n as nat),
    decreases n,
{
    if n < 10 {
        String::from_str(digit_str(n))
    } else {
        let mut text = decimal_string(n / 10);
        text.append(digit_str(n % 10));
        text
    }
}

/// The 16 binary digits of a word, highest bit first.
pub open spec fn binary_digits(word: u16) -> Seq<char> {
    Seq::new(
        16,
        |i: int|
            if (word >> ((15 - i) as u16)) & 1 == 1 {
                '1'
            } else {
                '0'
            },
    )
}

/// Writes a word as 16 binary digits, highest bit first.
pub fn binary_word(word: u16) -> (text: String)
    ensures
        text@ == binary_digits(word),
{
    proof {
        reveal_strlit("0");
        reveal_strlit("1");
    }
    let mut text = String::new();
    let mut done: u16 = 0;
    while done < 16
        invariant
            done <= 16,
            text@.len() == done,
            forall|i: int| 0 <= i < done ==> text@[i] == binary_digits(word)[i],
            "0"@ =~= seq!['0'],
            "1"@ =~= seq!['1'],
        decreases 16 - done,
    {
        if (word >> (15 - done)) & 1 == 1 {
            text.append("1");
        } else {
            text.append("0");
        }
        done += 1;
    }
    assert(text@ =~= binary_digits(word));
    text
}

/// Writes `piece` `count` times in a row.
pub fn repeat(piece: &str, count: usize) -> (text: String)
    ensures
        text@ == repeated(piece@, count as nat),
{
    let mut text = String::new();
    let mut done: usize = 0;
    while done < count
        invariant
            done <= count,
            text@ == repeated(piece@, done as nat),
        decreases count - done,
    {
        text.append(piece);
        done += 1;
    }
    text
}

} // verus!

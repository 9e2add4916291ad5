//! Rendering numbers and marks as text: the decimal form of a step number
//! and the one-character label of a cell or player.

use vstd::prelude::*;
use crate::board::{Cell, Player};

verus! {

/// The decimal digit character for `d`.
pub open spec fn digit_char(d: nat) -> char
    recommends
        d < 10,
{
    if d == 0 {
        '0'
    } else if d == 1 {
        '1'
    } else if d == 2 {
        '2'
    } else if d == 3 {
        '3'
    } else if d == 4 {
        '4'
    } else if d == 5 {
        '5'
    } else if d == 6 {
        '6'
    } else if d == 7 {
        '7'
    } else if d == 8 {
        '8'
    } else {
        '9'
    }
}

/// The usual decimal form of `n`: most significant digit first, no leading
/// zeros except for `n == 0` itself.
pub open spec fn decimal(n: nat) -> Seq<char>
    decreases n,
{
    if n < 10 {
        seq![digit_char(n)]
    } else {
        decimal(n / 10) + seq![digit_char(n % 10)]
    }
}

/// The one-character string of a digit.
fn digit_str(d: usize) -> (s: &'static str)
    requires
        d < 10,
    ensures
        s@ == seq![digit_char(d as nat)],
{
    proof {
        reveal_strlit("0");
        reveal_strlit("1");
        reveal_strlit("2");
        reveal_strlit("3");
        reveal_strlit("4");
        reveal_strlit("5");
        reveal_strlit("6");
        reveal_strlit("7");
        reveal_strlit("8");
        reveal_strlit("9");
    }
    let s = match d {
        0 => "0",
        1 => "1",
        2 => "2",
        3 => "3",
        4 => "4",
        5 => "5",
        6 => "6",
        7 => "7",
        8 => "8",
        _ => "9",
    };
    proof {
        assert(s@ =~= seq![digit_char(d as nat)]);
    }
    s
}

/// The digits of `digits`, least significant first, read back as the decimal
/// form they spell: digit `i` of the sequence is digit `len - 1 - i` of the
/// text.
pub open spec fn reversed_digits(digits: Seq<usize>) -> Seq<char> {
    Seq::new(digits.len(), |i: int| digit_char(digits[digits.len() - 1 - i] as nat))
}

/// The decimal form of `n`, as text.
pub fn decimal_string(n: usize) -> (s: String)
    ensures
        s@ == decimal(n as nat),
{
    let mut digits: Vec<usize> = Vec::new();
    let mut m: usize = n;
    digits.push(m % 10);
    m = m / 10;
    while m > 0
        invariant
            digits@.len() >= 1,
            forall|k: int| 0 <= k < digits@.len() ==> (#[trigger] digits@[k]) < 10,
            if m == 0 {
                decimal(n as nat) == reversed_digits(digits@)
            } else {
                decimal(n as nat) == decimal(m as nat) + reversed_digits(digits@)
            },
        decreases m,
    {
        proof {
            lemma_reversed_digits_push(digits@, (m % 10) as usize);
            if m >= 10 {
                assert(decimal(m as nat) == decimal(m as nat / 10) + seq![
                    digit_char(m as nat % 10),
                ]);
                assert(decimal(m as nat) + reversed_digits(digits@) == decimal((m / 10) as nat)
                    + reversed_digits(digits@.push((m % 10) as usize))) by {
                    assert(decimal(m as nat / 10) + (seq![digit_char(m as nat % 10)]
                        + reversed_digits(digits@)) =~= (decimal(m as nat / 10) + seq![
                        digit_char(m as nat % 10),
                    ]) + reversed_digits(digits@));
                }
            } else {
                assert(decimal(m as nat) =~= seq![digit_char(m as nat)]);
            }
        }
        digits.push(m % 10);
        m = m / 10;
    }
    let mut s = String::new();
    let mut i: usize = digits.len();
    while i > 0
        invariant
            i <= digits@.len(),
            forall|k: int| 0 <= k < digits@.len() ==> (#[trigger] digits@[k]) < 10,
            s@ =~= reversed_digits(digits@).subrange(0, digits@.len() - i),
        decreases i,
    {
        i = i - 1;
        let d = digits[i];
        s.append(digit_str(d));
        proof {
            assert(s@ =~= reversed_digits(digits@).subrange(0, digits@.len() - i));
        }
    }
    proof {
        assert(s@ =~= reversed_digits(digits@));
    }
    s
}

/// Pushing a digit onto the low end prepends its character to the text.
proof fn lemma_reversed_digits_push(digits: Seq<usize>, d: usize)
    ensures
        reversed_digits(digits.push(d)) == seq![digit_char(d as nat)] + reversed_digits(digits),
{
    assert(reversed_digits(digits.push(d)) =~= seq![digit_char(d as nat)] + reversed_digits(
        digits,
    ));
}

impl Cell {
    /// The text a cell shows on the board: nothing, or the player's mark.
    pub open spec fn spec_text(self) -> Seq<char> {
        match self {
            Cell::Empty => Seq::empty(),
            Cell::Mark(p) => p.spec_text(),
        }
    }

    /// The text of this cell.
    pub fn text(&self) -> (s: &'static str)
        ensures
            s@ == self.spec_text(),
    {
        proof {
            reveal_strlit("");
        }
        match self {
            Cell::Empty => "",
            Cell::Mark(p) => p.text(),
        }
    }
}

impl Player {
    /// The mark a player plays with: `X` or `O`.
    pub open spec fn spec_text(self) -> Seq<char> {
        match self {
            Player::X => seq!['X'],
            Player::O => seq!['O'],
        }
    }

    /// The mark of this player.
    pub fn text(&self) -> (s: &'static str)
        ensures
            s@ == self.spec_text(),
    {
        proof {
            reveal_strlit("X");
            reveal_strlit("O");
        }
        match self {
            Player::X => "X",
            Player::O => "O",
        }
    }
}

} // verus!

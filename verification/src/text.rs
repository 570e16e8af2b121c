//! Verified decimal text for unsigned values.
//!
//! The canvas encoder needs exact text: these helpers render a number as its
//! decimal digits and say so, character for character.

use vstd::prelude::*;

verus! {

/// The decimal digit character for `d`.
pub open spec fn digit_char(d: int) -> char {
    if d == 0 {
        '0'
    } else if d == 1 {
        '1'
    } else if d == 2 {
        '2'
    } else if d == 3 {
        '3'
    } else if d == 4 {
        '4'
    } else if d == 5 {
        '5'
    } else if d == 6 {
        '6'
    } else if d == 7 {
        '7'
    } else if d == 8 {
        '8'
    } else {
        '9'
    }
}

/// The decimal digits of `n`, most significant first, with no sign and no
/// leading zero except for zero itself.
pub open spec fn dec_seq(n: nat) -> Seq<char>
    decreases n,
{
    if n < 10 {
        seq![digit_char(n as int)]
    } else {
        dec_seq(n / 10) + seq![digit_char((n % 10) as int)]
    }
}

/// The one-character string for the digit `d`.
fn digit_str(d: u64) -> (r: &'static str)
    requires
        d < 10,
    ensures
        r@ == seq![digit_char(d as int)],
{
    proof {
        reveal_strlit("0");
        reveal_strlit("1");
        reveal_strlit("2");
        reveal_strlit("3");
        reveal_strlit("4");
        reveal_strlit("5");
        reveal_strlit("6");
        reveal_strlit("7");
        reveal_strlit("8");
        reveal_strlit("9");
        assert("0"@ =~= seq![digit_char(0)]);
        assert("1"@ =~= seq![digit_char(1)]);
        assert("2"@ =~= seq![digit_char(2)]);
        assert("3"@ =~= seq![digit_char(3)]);
        assert("4"@ =~= seq![digit_char(4)]);
        assert("5"@ =~= seq![digit_char(5)]);
        assert("6"@ =~= seq![digit_char(6)]);
        assert("7"@ =~= seq![digit_char(7)]);
        assert("8"@ =~= seq![digit_char(8)]);
        assert("9"@ =~= seq![digit_char(9)]);
    }
    if d == 0 {
        "0"
    } else if d == 1 {
        "1"
    } else if d == 2 {
        "2"
    } else if d == 3 {
        "3"
    } else if d == 4 {
        "4"
    } else if d == 5 {
        "5"
    } else if d == 6 {
        "6"
    } else if d == 7 {
        "7"
    } else if d == 8 {
        "8"
    } else {
        "9"
    }
}

/// Appends the decimal digits of `n` to `s`.
pub fn push_decimal(s: &mut String, n: u64)
    ensures
        final(s)@ == old(s)@ + dec_seq(n as nat),
    decreases n,
{
    if n < 10 {
        s.append(digit_str(n));
    } else {
        push_decimal(s, n / 10);
        s.append(digit_str(n % 10));
        proof {
            assert(s@ =~= old(s)@ + dec_seq(n as nat));
        }
    }
}

/// The count of decimal digits of a value below a thousand.
pub fn dec_len(n: u64) -> (r: usize)
    requires
        n < 1000,
    ensures
        r == dec_seq(n as nat).len(),
        1 <= r <= 3,
{
    proof {
        lemma_dec_len_small(n as nat);
    }
    if n < 10 {
        1
    } else if n < 100 {
        2
    } else {
        3
    }
}

/// Values below a thousand take one, two or three digits.
pub proof fn lemma_dec_len_small(n: nat)
    requires
        n < 1000,
    ensures
        dec_seq(n).len() == if n < 10 {
            1int
        } else if n < 100 {
            2int
        } else {
            3int
        },
{
    if n < 10 {
    } else if n < 100 {
        assert(dec_seq(n / 10).len() == 1);
    } else {
        assert(dec_seq(n / 10 / 10).len() == 1);
        assert(dec_seq(n / 10).len() == 2);
    }
}

/// Decimal text is digits only: no character of it is a newline or a space.
pub proof fn lemma_dec_seq_plain(n: nat)
    ensures
        forall|k: int|
            0 <= k < dec_seq(n).len() ==> #[trigger] dec_seq(n)[k] != '\n' && dec_seq(n)[k] != ' ',
    decreases n,
{
    if n < 10 {
    } else {
        lemma_dec_seq_plain(n / 10);
        assert forall|k: int| 0 <= k < dec_seq(n).len() implies #[trigger] dec_seq(n)[k] != '\n'
            && dec_seq(n)[k] != ' ' by {
            if k < dec_seq(n / 10).len() {
                assert(dec_seq(n)[k] == dec_seq(n / 10)[k]);
            }
        }
    }
}

} // verus!

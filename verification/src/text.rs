//! Numbers written out in decimal and in lower-case hexadecimal.

use vstd::prelude::*;

verus! {

/// The character of the digit `d` (below sixteen).
pub open spec fn digit_char(d: nat) -> char {
    if d == 0 {
        '0'
    } else if d == 1 {
        '1'
    } else if d == 2 {
        '2'
    } else if d == 3 {
        '3'
    } else if d == 4 {
        '4'
    } else if d == 5 {
        '5'
    } else if d == 6 {
        '6'
    } else if d == 7 {
        '7'
    } else if d == 8 {
        '8'
    } else if d == 9 {
        '9'
    } else if d == 10 {
        'a'
    } else if d == 11 {
        'b'
    } else if d == 12 {
        'c'
    } else if d == 13 {
        'd'
    } else if d == 14 {
        'e'
    } else {
        'f'
    }
}

/// `n` written in base `base` (ten or sixteen), without leading zeros.
pub open spec fn number_text(n: nat, base: nat) -> Seq<char>
    decreases n,
{
    if base <= 1 || n < base {
        seq![digit_char(n)]
    } else {
        proof {
            assert(n / base < n) by (nonlinear_arith)
                requires
                    base > 1,
                    n >= base,
            ;
        }
        number_text(n / base, base).push(digit_char(n % base))
    }
}

pub open spec fn decimal(n: nat) -> Seq<char> {
    number_text(n, 10)
}

pub open spec fn hexadecimal(n: nat) -> Seq<char> {
    number_text(n, 16)
}

fn digit_text(d: u128) -> (r: &'static str)
    requires
        d < 16,
    ensures
        r@ == seq![digit_char(d as nat)],
{
    if d == 0 {
        proof {
            reveal_strlit("0");
        }
        "0"
    } else if d == 1 {
        proof {
            reveal_strlit("1");
        }
        "1"
    } else if d == 2 {
        proof {
            reveal_strlit("2");
        }
        "2"
    } else if d == 3 {
        proof {
            reveal_strlit("3");
        }
        "3"
    } else if d == 4 {
        proof {
            reveal_strlit("4");
        }
        "4"
    } else if d == 5 {
        proof {
            reveal_strlit("5");
        }
        "5"
    } else if d == 6 {
        proof {
            reveal_strlit("6");
        }
        "6"
    } else if d == 7 {
        proof {
            reveal_strlit("7");
        }
        "7"
    } else if d == 8 {
        proof {
            reveal_strlit("8");
        }
        "8"
    } else if d == 9 {
        proof {
            reveal_strlit("9");
        }
        "9"
    } else if d == 10 {
        proof {
            reveal_strlit("a");
        }
        "a"
    } else if d == 11 {
        proof {
            reveal_strlit("b");
        }
        "b"
    } else if d == 12 {
        proof {
            reveal_strlit("c");
        }
        "c"
    } else if d == 13 {
        proof {
            reveal_strlit("d");
        }
        "d"
    } else if d == 14 {
        proof {
            reveal_strlit("e");
        }
        "e"
    } else {
        proof {
            reveal_strlit("f");
        }
        "f"
    }
}

/// `n` written in base `base`, which is ten or sixteen.
pub fn number_to_text(n: u128, base: u128) -> (r: String)
    requires
        base == 10 || base == 16,
    ensures
        r@ == number_text(n as nat, base as nat),
    decreases n,
{
    if n < base {
        String::from_str(digit_text(n))
    } else {
        assert(n / base < n) by (nonlinear_arith)
            requires
                base > 1,
                n >= base,
        ;
        let head = number_to_text(n / base, base);
        let r = head.concat(digit_text(n % base));
        r
    }
}

} // verus!

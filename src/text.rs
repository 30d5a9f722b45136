use vstd::prelude::*;
use vstd::string::*;
use vstd::utf8::{encode_utf8_valid_utf8, is_char_boundary};

verus! {

pub open spec fn digit_char(d: nat) -> char {
    seq!['0', '1', '2', '3', '4', '5', '6', '7', '8', '9'][d as int]
}

/// The decimal digits of `n`, without leading zeros.
pub open spec fn spec_decimal(n: nat) -> Seq<char>
    decreases n,
{
    if n < 10 {
        seq![digit_char(n)]
    } else {
        spec_decimal(n / 10).push(digit_char(n % 10))
    }
}

/// The last two decimal digits of `n`, with a leading zero below 10.
pub open spec fn spec_two_digits(n: nat) -> Seq<char> {
    seq![digit_char((n / 10) % 10), digit_char(n % 10)]
}

fn digit_str(d: u16) -> (r: &'static str)
    requires
        d < 10,
    ensures
        r@ == seq![digit_char(d as nat)],
{
    match d {
        0 => {
            proof {
                reveal_strlit("0");
            }
            "0"
        },
        1 => {
            proof {
                reveal_strlit("1");
            }
            "1"
        },
        2 => {
            proof {
                reveal_strlit("2");
            }
            "2"
        },
        3 => {
            proof {
                reveal_strlit("3");
            }
            "3"
        },
        4 => {
            proof {
                reveal_strlit("4");
            }
            "4"
        },
        5 => {
            proof {
                reveal_strlit("5");
            }
            "5"
        },
        6 => {
            proof {
                reveal_strlit("6");
            }
            "6"
        },
        7 => {
            proof {
                reveal_strlit("7");
            }
            "7"
        },
        8 => {
            proof {
                reveal_strlit("8");
            }
            "8"
        },
        _ => {
            proof {
                reveal_strlit("9");
            }
            "9"
        },
    }
}

/// Appends the decimal digits of `n` to `s`.
pub fn push_decimal(s: &mut String, n: u16)
    ensures
        final(s)@ == old(s)@ + spec_decimal(n as nat),
    decreases n,
{
    if n >= 10 {
        push_decimal(s, n / 10);
    }
    s.append(digit_str(n % 10));
    proof {
        assert(s@ =~= old(s)@ + spec_decimal(n as nat));
    }
}

/// Appends the last two decimal digits of `n` to `s`, zero-padded.
pub fn push_two_digits(s: &mut String, n: u16)
    ensures
        final(s)@ == old(s)@ + spec_two_digits(n as nat),
{
    s.append(digit_str((n / 10) % 10));
    s.append(digit_str(n % 10));
    proof {
        assert(s@ =~= old(s)@ + spec_two_digits(n as nat));
    }
}

/// The first `length` bytes of `s`, or all of `s` where it is shorter.
/// `length` must fall between two characters.
pub fn truncate_string<'a>(s: &'a str, length: usize) -> (r: &'a str)
    requires
        s.spec_bytes().len() < length || is_char_boundary(s.spec_bytes(), length as int),
    ensures
        r.spec_bytes() == if s.spec_bytes().len() < length {
            s.spec_bytes()
        } else {
            s.spec_bytes().take(length as int)
        },
{
    proof {
        broadcast use encode_utf8_valid_utf8;
    }
    if s.as_bytes().len() < length {
        s
    } else {
        let (head, _) = s.split_at(length);
        proof {
            assert(head.spec_bytes() =~= s.spec_bytes().take(length as int));
        }
        head
    }
}

} // verus!

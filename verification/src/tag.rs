//! Sender tagging.
//!
//! Before a message is fanned out, its text is wrapped with a tag naming the
//! sending session, so recipients can tell speakers apart: message `hi` from
//! session 7 is delivered as `<User#7>: hi`.

use vstd::prelude::*;

verus! {

/// The decimal digit character for `d` (meaningful for `d < 10`).
pub open spec fn digit_char(d: nat) -> char {
    if d == 0 {
        '0'
    } else if d == 1 {
        '1'
    } else if d == 2 {
        '2'
    } else if d == 3 {
        '3'
    } else if d == 4 {
        '4'
    } else if d == 5 {
        '5'
    } else if d == 6 {
        '6'
    } else if d == 7 {
        '7'
    } else if d == 8 {
        '8'
    } else {
        '9'
    }
}

/// The decimal rendering of `n`, most significant digit first, with no
/// leading zero except for `n == 0` itself.
pub open spec fn spec_digits(n: nat) -> Seq<char>
    decreases n,
{
    if n < 10 {
        seq![digit_char(n)]
    } else {
        spec_digits(n / 10).push(digit_char(n % 10))
    }
}

/// The characters standing before the sender id in a tagged message.
pub open spec fn tag_prefix() -> Seq<char> {
    seq!['<', 'U', 's', 'e', 'r', '#']
}

/// The characters standing between the sender id and the text.
pub open spec fn tag_infix() -> Seq<char> {
    seq!['>', ':', ' ']
}

/// The tagged form of `text` as sent by session `from`:
/// `<User#` + decimal id + `>: ` + text.
pub open spec fn spec_tagged(from: u64, text: Seq<char>) -> Seq<char> {
    tag_prefix() + spec_digits(from as nat) + tag_infix() + text
}

/// The one-character string for the decimal digit `d`.
fn digit_str(d: u64) -> (s: &'static str)
    requires
        d < 10,
    ensures
        s@ == seq![digit_char(d as nat)],
{
    match d {
        0 => {
            proof {
                reveal_strlit("0");
                assert("0"@ =~= seq![digit_char(0 as nat)]);
            }
            "0"
        },
        1 => {
            proof {
                reveal_strlit("1");
                assert("1"@ =~= seq![digit_char(1 as nat)]);
            }
            "1"
        },
        2 => {
            proof {
                reveal_strlit("2");
                assert("2"@ =~= seq![digit_char(2 as nat)]);
            }
            "2"
        },
        3 => {
            proof {
                reveal_strlit("3");
                assert("3"@ =~= seq![digit_char(3 as nat)]);
            }
            "3"
        },
        4 => {
            proof {
                reveal_strlit("4");
                assert("4"@ =~= seq![digit_char(4 as nat)]);
            }
            "4"
        },
        5 => {
            proof {
                reveal_strlit("5");
                assert("5"@ =~= seq![digit_char(5 as nat)]);
            }
            "5"
        },
        6 => {
            proof {
                reveal_strlit("6");
                assert("6"@ =~= seq![digit_char(6 as nat)]);
            }
            "6"
        },
        7 => {
            proof {
                reveal_strlit("7");
                assert("7"@ =~= seq![digit_char(7 as nat)]);
            }
            "7"
        },
        8 => {
            proof {
                reveal_strlit("8");
                assert("8"@ =~= seq![digit_char(8 as nat)]);
            }
            "8"
        },
        _ => {
            proof {
                reveal_strlit("9");
                assert("9"@ =~= seq![digit_char(9 as nat)]);
            }
            "9"
        },
    }
}

/// Render `n` in decimal.
pub fn render_u64(n: u64) -> (s: String)
    ensures
        s@ == spec_digits(n as nat),
    decreases n,
{
    if n < 10 {
        String::from_str(digit_str(n))
    } else {
        let mut s = render_u64(n / 10);
        s.append(digit_str(n % 10));
        proof {
            assert(s@ =~= spec_digits(n as nat));
        }
        s
    }
}

/// Wrap `text` with the tag naming the sending session `from`.
pub fn tag_message(from: u64, text: &str) -> (s: String)
    ensures
        s@ == spec_tagged(from, text@),
{
    let mut s = String::from_str("<User#");
    let digits = render_u64(from);
    s.append(digits.as_str());
    s.append(">: ");
    s.append(text);
    proof {
        reveal_strlit("<User#");
        reveal_strlit(">: ");
        assert("<User#"@ =~= tag_prefix());
        assert(">: "@ =~= tag_infix());
        assert(s@ =~= spec_tagged(from, text@));
    }
    s
}

} // verus!

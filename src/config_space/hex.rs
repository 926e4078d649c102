use vstd::prelude::*;
use vstd::string::*;

verus! {

/// The lowercase hexadecimal digit for `d` (below 16).
pub open spec fn hex_digit(d: nat) -> char {
    seq!['0', '1', '2', '3', '4', '5', '6', '7', '8', '9', 'a', 'b', 'c', 'd', 'e', 'f'][d as int]
}

/// The `width` lowest hexadecimal digits of `v`, most significant first:
/// for a value below `16^width`, its zero-padded lowercase hex form.
pub open spec fn hex_text(v: nat, width: nat) -> Seq<char>
    decreases width,
{
    if width == 0 {
        Seq::empty()
    } else {
        hex_text(v / 16, (width - 1) as nat).push(hex_digit(v % 16))
    }
}

fn hex_digit_str(d: u32) -> (r: &'static str)
    requires
        d < 16,
    ensures
        r@ == seq![hex_digit(d as nat)],
{
    match d {
        0 => {
            proof {
                reveal_strlit("0");
            }
            "0"
        }
        1 => {
            proof {
                reveal_strlit("1");
            }
            "1"
        }
        2 => {
            proof {
                reveal_strlit("2");
            }
            "2"
        }
        3 => {
            proof {
                reveal_strlit("3");
            }
            "3"
        }
        4 => {
            proof {
                reveal_strlit("4");
            }
            "4"
        }
        5 => {
            proof {
                reveal_strlit("5");
            }
            "5"
        }
        6 => {
            proof {
                reveal_strlit("6");
            }
            "6"
        }
        7 => {
            proof {
                reveal_strlit("7");
            }
            "7"
        }
        8 => {
            proof {
                reveal_strlit("8");
            }
            "8"
        }
        9 => {
            proof {
                reveal_strlit("9");
            }
            "9"
        }
        10 => {
            proof {
                reveal_strlit("a");
            }
            "a"
        }
        11 => {
            proof {
                reveal_strlit("b");
            }
            "b"
        }
        12 => {
            proof {
                reveal_strlit("c");
            }
            "c"
        }
        13 => {
            proof {
                reveal_strlit("d");
            }
            "d"
        }
        14 => {
            proof {
                reveal_strlit("e");
            }
            "e"
        }
        _ => {
            proof {
                reveal_strlit("f");
            }
            "f"
        }
    }
}

/// Appends the `width` lowest hexadecimal digits of `v` to `out`.
pub(crate) fn push_hex(out: &mut String, v: u32, width: usize)
    ensures
        final(out)@ == old(out)@ + hex_text(v as nat, width as nat),
    decreases width,
{
    if width > 0 {
        push_hex(out, v / 16, width - 1);
        out.append(hex_digit_str(v % 16));
        assert(out@ =~= old(out)@ + hex_text(v as nat, width as nat));
    } else {
        assert(old(out)@ + hex_text(v as nat, width as nat) =~= old(out)@);
    }
}

} // verus!

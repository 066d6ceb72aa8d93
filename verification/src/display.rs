//! Textual rendering of integer scalars, exactly specified: the decimal
//! digits of a number, with a leading minus sign when it is negative.

use vstd::prelude::*;

verus! {

/// The decimal digit character for `d` in `0..9`.
pub open spec fn digit_char(d: int) -> char {
    if d == 0 {
        '0'
    } else if d == 1 {
        '1'
    } else if d == 2 {
        '2'
    } else if d == 3 {
        '3'
    } else if d == 4 {
        '4'
    } else if d == 5 {
        '5'
    } else if d == 6 {
        '6'
    } else if d == 7 {
        '7'
    } else if d == 8 {
        '8'
    } else {
        '9'
    }
}

/// The decimal digits of a nonnegative number, most significant first.
pub open spec fn dec_digits(n: int) -> Seq<char>
    decreases n,
{
    if n < 10 {
        seq![digit_char(n)]
    } else {
        dec_digits(n / 10) + seq![digit_char(n % 10)]
    }
}

/// The decimal rendering of an integer: digits, with `-` in front when it is
/// negative.
pub open spec fn int_str(n: int) -> Seq<char> {
    if n < 0 {
        seq!['-'] + dec_digits(-n)
    } else {
        dec_digits(n)
    }
}

/// A component list as it is rendered: each entry followed by a comma,
/// trailing comma included.
pub open spec fn comps_str(s: Seq<int>) -> Seq<char>
    decreases s.len(),
{
    if s.len() == 0 {
        Seq::empty()
    } else {
        int_str(s[0]) + seq![','] + comps_str(s.drop_first())
    }
}

/// A vector as it is rendered: `[c0,c1,...,]`.
pub open spec fn vector_str(s: Seq<int>) -> Seq<char> {
    seq!['['] + comps_str(s) + seq![']']
}

/// A point as it is rendered: `(c0,c1,...,)`.
pub open spec fn point_str(s: Seq<int>) -> Seq<char> {
    seq!['('] + comps_str(s) + seq![')']
}

/// The rows of a matrix as they are rendered: each row bracketed, rows
/// separated by `],`, a line break and one space of indentation.
pub open spec fn rows_str(m: Seq<Seq<int>>) -> Seq<char>
    decreases m.len(),
{
    if m.len() == 0 {
        Seq::empty()
    } else if m.len() == 1 {
        seq!['['] + comps_str(m[0])
    } else {
        seq!['['] + comps_str(m[0]) + seq![']', ',', '\n', ' '] + rows_str(m.drop_first())
    }
}

/// A matrix as it is rendered: the bracketed rows, closed by `]]` and a
/// final line break.
pub open spec fn matrix_str(m: Seq<Seq<int>>) -> Seq<char> {
    seq!['['] + rows_str(m) + seq![']', ']', '\n']
}

/// Appends the single digit character for `d`.
fn append_digit(s: &mut String, d: u64)
    requires
        d < 10,
    ensures
        final(s)@ == old(s)@ + seq![digit_char(d as int)],
{
    if d == 0 {
        s.append("0");
        proof {
            reveal_strlit("0");
            assert("0"@ =~= seq![digit_char(d as int)]);
        }
    } else if d == 1 {
        s.append("1");
        proof {
            reveal_strlit("1");
            assert("1"@ =~= seq![digit_char(d as int)]);
        }
    } else if d == 2 {
        s.append("2");
        proof {
            reveal_strlit("2");
            assert("2"@ =~= seq![digit_char(d as int)]);
        }
    } else if d == 3 {
        s.append("3");
        proof {
            reveal_strlit("3");
            assert("3"@ =~= seq![digit_char(d as int)]);
        }
    } else if d == 4 {
        s.append("4");
        proof {
            reveal_strlit("4");
            assert("4"@ =~= seq![digit_char(d as int)]);
        }
    } else if d == 5 {
        s.append("5");
        proof {
            reveal_strlit("5");
            assert("5"@ =~= seq![digit_char(d as int)]);
        }
    } else if d == 6 {
        s.append("6");
        proof {
            reveal_strlit("6");
            assert("6"@ =~= seq![digit_char(d as int)]);
        }
    } else if d == 7 {
        s.append("7");
        proof {
            reveal_strlit("7");
            assert("7"@ =~= seq![digit_char(d as int)]);
        }
    } else if d == 8 {
        s.append("8");
        proof {
            reveal_strlit("8");
            assert("8"@ =~= seq![digit_char(d as int)]);
        }
    } else {
        s.append("9");
        proof {
            reveal_strlit("9");
            assert("9"@ =~= seq![digit_char(d as int)]);
        }
    }
}

/// Appends the decimal digits of `m`, most significant first.
fn push_u64(s: &mut String, m: u64)
    ensures
        final(s)@ == old(s)@ + dec_digits(m as int),
    decreases m,
{
    if m >= 10 {
        proof {
            assert(m / 10 < m) by (nonlinear_arith)
                requires
                    m >= 10,
            ;
        }
        push_u64(s, m / 10);
        append_digit(s, m % 10);
        proof {
            assert(old(s)@ + dec_digits((m / 10) as int) + seq![digit_char((m % 10) as int)]
                =~= old(s)@ + dec_digits(m as int));
        }
    } else {
        append_digit(s, m);
    }
}

/// Appends the decimal rendering of `n`, sign included.
pub fn push_i64(s: &mut String, n: i64)
    ensures
        final(s)@ == old(s)@ + int_str(n as int),
{
    if n < 0 {
        s.append("-");
        proof {
            reveal_strlit("-");
            assert("-"@ =~= seq!['-']);
        }
        let mag: u64 = ((-(n + 1)) as u64) + 1;
        proof {
            assert(mag as int == -(n as int));
        }
        push_u64(s, mag);
        proof {
            assert(old(s)@ + seq!['-'] + dec_digits(mag as int) =~= old(s)@ + int_str(n as int));
        }
    } else {
        push_u64(s, n as u64);
    }
}

/// The decimal rendering of `n` as a fresh string.
pub fn int_string(n: i64) -> (s: String)
    ensures
        s@ == int_str(n as int),
{
    let mut s = String::new();
    push_i64(&mut s, n);
    proof {
        assert(Seq::<char>::empty() + int_str(n as int) =~= int_str(n as int));
    }
    s
}

} // verus!

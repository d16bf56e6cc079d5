//! Small text-building helpers the renderer needs: decimal numerals,
//! repetition, joining with a separator, and block indentation.

use vstd::prelude::*;

verus! {

/// The numeral for one decimal digit.
pub open spec fn digit_seq(d: int) -> Seq<char> {
    if d == 0 {
        "0"@
    } else if d == 1 {
        "1"@
    } else if d == 2 {
        "2"@
    } else if d == 3 {
        "3"@
    } else if d == 4 {
        "4"@
    } else if d == 5 {
        "5"@
    } else if d == 6 {
        "6"@
    } else if d == 7 {
        "7"@
    } else if d == 8 {
        "8"@
    } else {
        "9"@
    }
}

/// The decimal numeral of a nonnegative number.
pub open spec fn dec_digits(n: int) -> Seq<char>
    decreases n,
{
    if n < 10 {
        digit_seq(n)
    } else {
        dec_digits(n / 10) + digit_seq(n % 10)
    }
}

/// The decimal numeral of an integer, with a leading minus when negative.
pub open spec fn int_str(n: int) -> Seq<char> {
    if n < 0 {
        "-"@ + dec_digits(-n)
    } else {
        dec_digits(n)
    }
}

/// The numeral for one decimal digit.
fn digit_str(d: u64) -> (r: String)
    requires
        d < 10,
    ensures
        r@ == digit_seq(d as int),
{
    match d {
        0 => String::from_str("0"),
        1 => String::from_str("1"),
        2 => String::from_str("2"),
        3 => String::from_str("3"),
        4 => String::from_str("4"),
        5 => String::from_str("5"),
        6 => String::from_str("6"),
        7 => String::from_str("7"),
        8 => String::from_str("8"),
        _ => String::from_str("9"),
    }
}

/// The decimal numeral of a number.
pub fn u64_to_string(n: u64) -> (r: String)
    ensures
        r@ == dec_digits(n as int),
    decreases n,
{
    if n < 10 {
        digit_str(n)
    } else {
        let mut s = u64_to_string(n / 10);
        let tail = digit_str(n % 10);
        s.append(tail.as_str());
        s
    }
}

/// The decimal numeral of a signed integer.
pub fn i64_to_string(n: i64) -> (r: String)
    requires
        n > i64::MIN,
    ensures
        r@ == int_str(n as int),
{
    if n < 0 {
        let mut s = String::from_str("-");
        let tail = u64_to_string((-n) as u64);
        s.append(tail.as_str());
        s
    } else {
        u64_to_string(n as u64)
    }
}

/// `count` copies of `s`, concatenated.
pub open spec fn repeat_seq(s: Seq<char>, count: int) -> Seq<char>
    decreases count,
{
    if count <= 0 {
        Seq::empty()
    } else {
        repeat_seq(s, count - 1) + s
    }
}

/// `count` copies of `s`, concatenated.
pub fn repeat_str(s: &str, count: usize) -> (r: String)
    ensures
        r@ == repeat_seq(s@, count as int),
{
    let mut out = String::new();
    let mut i: usize = 0;
    proof {
        assert(out@ =~= repeat_seq(s@, 0));
    }
    while i < count
        invariant
            i <= count,
            out@ == repeat_seq(s@, i as int),
        decreases count - i,
    {
        out.append(s);
        i = i + 1;
    }
    out
}

} // verus!

verus! {

/// The given parts joined with `sep` between consecutive parts.
pub open spec fn join_seq(parts: Seq<Seq<char>>, sep: Seq<char>) -> Seq<char>
    decreases parts.len(),
{
    if parts.len() == 0 {
        Seq::empty()
    } else if parts.len() == 1 {
        parts[0]
    } else {
        join_seq(parts.drop_last(), sep) + sep + parts.last()
    }
}

/// The views of a row of strings, in order.
pub open spec fn views_of(parts: Seq<String>) -> Seq<Seq<char>>
    decreases parts.len(),
{
    if parts.len() == 0 {
        Seq::empty()
    } else {
        views_of(parts.drop_last()).push(parts.last()@)
    }
}

/// Relies on `itertools::Itertools::join`: it writes the items in order
/// with the separator between consecutive items. `String` items display
/// as themselves.
#[verifier::external_body]
pub fn join_strings(parts: &Vec<String>, sep: &str) -> (r: String)
    ensures
        r@ == join_seq(views_of(parts@), sep@),
{
    itertools::Itertools::join(&mut parts.iter(), sep)
}

/// Relies on `String::push`: it appends the one character to the string.
#[verifier::external_body]
fn push_char(s: &mut String, c: char)
    ensures
        final(s)@ == old(s)@.push(c),
{
    s.push(c)
}

/// The tail of an indented block: every newline gains two trailing spaces.
pub open spec fn indent_tail(s: Seq<char>) -> Seq<char>
    decreases s.len(),
{
    if s.len() == 0 {
        Seq::empty()
    } else {
        indent_tail(s.drop_last()) + (if s.last() == '\n' {
            "\n  "@
        } else {
            seq![s.last()]
        })
    }
}

/// A block with every line pushed right by two spaces; empty text stays
/// empty.
pub open spec fn indent_seq(s: Seq<char>) -> Seq<char> {
    if s.len() == 0 {
        Seq::empty()
    } else {
        "  "@ + indent_tail(s)
    }
}

/// The block with every line pushed right by two spaces.
pub fn indent(s: &str) -> (r: String)
    ensures
        r@ == indent_seq(s@),
{
    let len = s.unicode_len();
    if len == 0 {
        return String::new();
    }
    let mut out = String::from_str("  ");
    let mut i: usize = 0;
    proof {
        assert(s@.subrange(0, 0) =~= Seq::<char>::empty());
        assert(out@ =~= "  "@ + indent_tail(s@.subrange(0, 0)));
    }
    while i < len
        invariant
            i <= len,
            len == s@.len(),
            out@ == "  "@ + indent_tail(s@.subrange(0, i as int)),
        decreases len - i,
    {
        let c = s.get_char(i);
        proof {
            assert(s@.subrange(0, i + 1).drop_last() =~= s@.subrange(0, i as int));
            assert(s@.subrange(0, i + 1).last() == s@[i as int]);
        }
        if c == '\n' {
            out.append("\n  ");
            proof {
                reveal_strlit("\n  ");
            }
        } else {
            push_char(&mut out, c);
            proof {
                assert(indent_tail(s@.subrange(0, i + 1)) =~= indent_tail(
                    s@.subrange(0, i as int),
                ) + seq![c]);
                assert(out@ =~= "  "@ + indent_tail(s@.subrange(0, i + 1)));
            }
        }
        i = i + 1;
    }
    proof {
        assert(s@.subrange(0, len as int) =~= s@);
    }
    out
}

} // verus!

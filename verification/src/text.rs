//! Building entity identifiers: decimal numbers and joined strings.

use vstd::prelude::*;
use vstd::string::*;

verus! {

/// The character of the decimal digit `d`.
pub open spec fn digit(d: nat) -> char {
    if d == 0 {
        '0'
    } else if d == 1 {
        '1'
    } else if d == 2 {
        '2'
    } else if d == 3 {
        '3'
    } else if d == 4 {
        '4'
    } else if d == 5 {
        '5'
    } else if d == 6 {
        '6'
    } else if d == 7 {
        '7'
    } else if d == 8 {
        '8'
    } else {
        '9'
    }
}

/// The decimal representation of `n`, without leading zeros.
pub open spec fn decimal(n: nat) -> Seq<char>
    decreases n,
{
    if n < 10 {
        seq![digit(n)]
    } else {
        decimal(n / 10).push(digit(n % 10))
    }
}

/// `id`, then `infix`, then the decimal representation of `index`.
pub open spec fn indexed_id(id: Seq<char>, infix: Seq<char>, index: nat) -> Seq<char> {
    id + infix + decimal(index)
}

/// The identifiers `indexed_id(id, infix, 0)` up to `count - 1`.
pub open spec fn indexed_ids(id: Seq<char>, infix: Seq<char>, count: nat) -> Seq<Seq<char>> {
    Seq::new(count, |i: int| indexed_id(id, infix, i as nat))
}

fn digit_text(d: usize) -> (text: &'static str)
    requires
        d < 10,
    ensures
        text@ == seq![digit(d as nat)],
{
    proof {
        reveal_strlit("0");
        reveal_strlit("1");
        reveal_strlit("2");
        reveal_strlit("3");
        reveal_strlit("4");
        reveal_strlit("5");
        reveal_strlit("6");
        reveal_strlit("7");
        reveal_strlit("8");
        reveal_strlit("9");
    }
    let text = if d == 0 {
        "0"
    } else if d == 1 {
        "1"
    } else if d == 2 {
        "2"
    } else if d == 3 {
        "3"
    } else if d == 4 {
        "4"
    } else if d == 5 {
        "5"
    } else if d == 6 {
        "6"
    } else if d == 7 {
        "7"
    } else if d == 8 {
        "8"
    } else {
        "9"
    };
    assert(text@ =~= seq![digit(d as nat)]);
    text
}

/// Appends the decimal representation of `n` to `text`.
pub fn append_decimal(text: &mut String, n: usize)
    ensures
        final(text)@ == old(text)@ + decimal(n as nat),
    decreases n,
{
    if n >= 10 {
        append_decimal(text, n / 10);
    }
    text.append(digit_text(n % 10));
    proof {
        if n >= 10 {
            assert(text@ =~= old(text)@ + decimal(n as nat));
        }
    }
}

/// `id` followed by `suffix`.
pub fn with_suffix(id: &String, suffix: &str) -> (out: String)
    ensures
        out@ == id@ + suffix@,
{
    let mut out = id.clone();
    out.append(suffix);
    out
}

/// `id`, then `infix`, then the decimal representation of `index`.
pub fn with_index(id: &String, infix: &str, index: usize) -> (out: String)
    ensures
        out@ == indexed_id(id@, infix@, index as nat),
{
    let mut out = id.clone();
    out.append(infix);
    append_decimal(&mut out, index);
    out
}

} // verus!

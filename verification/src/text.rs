//! Small verified text utilities: decimal rendering of machine integers and
//! column padding, used by diagnostics and the disassembler.
use vstd::prelude::*;

verus! {

/// The character for a single decimal digit.
pub open spec fn digit_char(d: nat) -> char {
    if d == 0 {
        '0'
    } else if d == 1 {
        '1'
    } else if d == 2 {
        '2'
    } else if d == 3 {
        '3'
    } else if d == 4 {
        '4'
    } else if d == 5 {
        '5'
    } else if d == 6 {
        '6'
    } else if d == 7 {
        '7'
    } else if d == 8 {
        '8'
    } else {
        '9'
    }
}

/// The decimal representation of `n`, most significant digit first,
/// without leading zeros (except for `n == 0` itself).
pub open spec fn dec_rep(n: nat) -> Seq<char>
    decreases n,
{
    if n < 10 {
        seq![digit_char(n)]
    } else {
        dec_rep(n / 10).push(digit_char(n % 10))
    }
}

/// A one-character string for the digit `d`.
fn digit_str(d: usize) -> (r: &'static str)
    requires
        d < 10,
    ensures
        r@ == seq![digit_char(d as nat)],
{
    proof {
        reveal_strlit("0");
        reveal_strlit("1");
        reveal_strlit("2");
        reveal_strlit("3");
        reveal_strlit("4");
        reveal_strlit("5");
        reveal_strlit("6");
        reveal_strlit("7");
        reveal_strlit("8");
        reveal_strlit("9");
    }
    match d {
        0 => "0",
        1 => "1",
        2 => "2",
        3 => "3",
        4 => "4",
        5 => "5",
        6 => "6",
        7 => "7",
        8 => "8",
        _ => "9",
    }
}

/// Renders `n` in decimal.
pub fn usize_to_string(n: usize) -> (s: String)
    ensures
        s@ == dec_rep(n as nat),
    decreases n,
{
    if n < 10 {
        String::from_str(digit_str(n))
    } else {
        let mut s = usize_to_string(n / 10);
        s.append(digit_str(n % 10));
        s
    }
}

/// `width - len` spaces (or nothing when the text is already wide enough).
pub open spec fn fill(c: char, have: nat, width: nat) -> Seq<char> {
    if have >= width {
        Seq::empty()
    } else {
        Seq::new((width - have) as nat, |i: int| c)
    }
}

/// Right-aligns `s` in a column of `width` characters, padding with `c`.
pub fn pad_left(s: &str, width: usize, c: char, pad: &str) -> (r: String)
    requires
        pad@ == seq![c],
    ensures
        r@ == fill(c, s@.len(), width as nat) + s@,
{
    let n = s.unicode_len();
    let mut out = String::new();
    let mut k: usize = n;
    while k < width
        invariant
            n == s@.len(),
            pad@ == seq![c],
            n <= k,
            k <= width || k == n,
            out@ == fill(c, n as nat, (if k >= n { k } else { n }) as nat),
        decreases width - k,
    {
        out.append(pad);
        proof {
            assert(out@ =~= fill(c, n as nat, (k + 1) as nat));
        }
        k = k + 1;
    }
    out.append(s);
    proof {
        if n >= width {
            assert(out@ =~= fill(c, s@.len(), width as nat) + s@);
        } else {
            assert(out@ =~= fill(c, s@.len(), width as nat) + s@);
        }
    }
    out
}

/// Left-aligns `s` in a column of `width` characters, padding with spaces.
pub fn pad_right(s: &str, width: usize) -> (r: String)
    ensures
        r@ == s@ + fill(' ', s@.len(), width as nat),
{
    let n = s.unicode_len();
    let mut out = String::from_str(s);
    let mut k: usize = n;
    while k < width
        invariant
            n == s@.len(),
            n <= k,
            k <= width || k == n,
            out@ == s@ + fill(' ', n as nat, (if k >= n { k } else { n }) as nat),
        decreases width - k,
    {
        out.append(" ");
        proof {
            reveal_strlit(" ");
            assert(" "@ =~= seq![' ']);
            assert(out@ =~= s@ + fill(' ', n as nat, (k + 1) as nat));
        }
        k = k + 1;
    }
    proof {
        assert(out@ =~= s@ + fill(' ', s@.len(), width as nat));
    }
    out
}

/// `n` rendered right-aligned in `width` columns, space padded.
pub fn dec_padded(n: usize, width: usize) -> (r: String)
    ensures
        r@ == fill(' ', dec_rep(n as nat).len(), width as nat) + dec_rep(n as nat),
{
    let s = usize_to_string(n);
    proof {
        reveal_strlit(" ");
        assert(" "@ =~= seq![' ']);
    }
    pad_left(s.as_str(), width, ' ', " ")
}

/// `n` rendered right-aligned in `width` columns, zero padded.
pub fn dec_zero_padded(n: usize, width: usize) -> (r: String)
    ensures
        r@ == fill('0', dec_rep(n as nat).len(), width as nat) + dec_rep(n as nat),
{
    let s = usize_to_string(n);
    proof {
        reveal_strlit("0");
        assert("0"@ =~= seq!['0']);
    }
    pad_left(s.as_str(), width, '0', "0")
}

} // verus!

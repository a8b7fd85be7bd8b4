//! Character-level helpers shared by the builder and the ABI decoder.

use vstd::prelude::*;

verus! {

/// True when the text ends with an opening parenthesis. The builder tests
/// this to decide whether a separating comma is owed before the next entry
/// of a parameter or argument list.
pub open spec fn ends_open(s: Seq<char>) -> bool {
    s.len() > 0 && s[s.len() - 1] == '('
}

/// The decimal digit character for a value below ten.
pub open spec fn dec_digit(d: nat) -> char {
    if d == 0 {
        '0'
    } else if d == 1 {
        '1'
    } else if d == 2 {
        '2'
    } else if d == 3 {
        '3'
    } else if d == 4 {
        '4'
    } else if d == 5 {
        '5'
    } else if d == 6 {
        '6'
    } else if d == 7 {
        '7'
    } else if d == 8 {
        '8'
    } else {
        '9'
    }
}

/// The decimal rendering of a natural number, most significant digit first.
pub open spec fn dec_text(n: nat) -> Seq<char>
    decreases n,
{
    if n < 10 {
        seq![dec_digit(n)]
    } else {
        dec_text(n / 10) + seq![dec_digit(n % 10)]
    }
}

/// Appends the single decimal digit `d` to `out`.
fn append_digit(out: String, d: u64) -> (r: String)
    requires
        d < 10,
    ensures
        r@ == out@ + seq![dec_digit(d as nat)],
{
    proof {
        reveal_strlit("0");
        reveal_strlit("1");
        reveal_strlit("2");
        reveal_strlit("3");
        reveal_strlit("4");
        reveal_strlit("5");
        reveal_strlit("6");
        reveal_strlit("7");
        reveal_strlit("8");
        reveal_strlit("9");
    }
    let r = if d == 0 {
        out.concat("0")
    } else if d == 1 {
        out.concat("1")
    } else if d == 2 {
        out.concat("2")
    } else if d == 3 {
        out.concat("3")
    } else if d == 4 {
        out.concat("4")
    } else if d == 5 {
        out.concat("5")
    } else if d == 6 {
        out.concat("6")
    } else if d == 7 {
        out.concat("7")
    } else if d == 8 {
        out.concat("8")
    } else {
        out.concat("9")
    };
    proof {
        assert(r@ =~= out@ + seq![dec_digit(d as nat)]);
    }
    r
}

/// Appends the decimal rendering of `n` to `out`.
pub fn append_dec(out: String, n: u64) -> (r: String)
    ensures
        r@ == out@ + dec_text(n as nat),
    decreases n,
{
    if n < 10 {
        append_digit(out, n)
    } else {
        let q = append_dec(out, n / 10);
        let r = append_digit(q, n % 10);
        proof {
            assert(r@ =~= out@ + dec_text(n as nat));
        }
        r
    }
}

/// Character-for-character equality of two strings.
pub fn str_eq(a: &str, b: &str) -> (r: bool)
    ensures
        r == (a@ == b@),
{
    let an = a.unicode_len();
    let bn = b.unicode_len();
    if an != bn {
        return false;
    }
    let mut i: usize = 0;
    while i < an
        invariant
            i <= an,
            an == a@.len(),
            an == b@.len(),
            forall|j: int| 0 <= j < i ==> a@[j] == b@[j],
        decreases an - i,
    {
        if a.get_char(i) != b.get_char(i) {
            return false;
        }
        i += 1;
    }
    proof {
        assert(a@ =~= b@);
    }
    true
}

/// True when `p` is a prefix of `s`.
pub fn has_prefix(s: &str, p: &str) -> (r: bool)
    ensures
        r == (s@.len() >= p@.len() && s@.subrange(0, p@.len() as int) == p@),
{
    let sn = s.unicode_len();
    let pn = p.unicode_len();
    if sn < pn {
        return false;
    }
    str_eq(s.substring_char(0, pn), p)
}

/// True when the string ends with an opening parenthesis.
pub fn ends_with_open(s: &str) -> (r: bool)
    ensures
        r == ends_open(s@),
{
    let n = s.unicode_len();
    if n == 0 {
        false
    } else {
        s.get_char(n - 1) == '('
    }
}

} // verus!

//! Small text helpers shared by the configuration, the session enumerator
//! labelling rules and the process-name resolver.

use vstd::prelude::*;

verus! {

/// The character sequence that `str::to_lowercase` produces for `s`.
/// The mapping is a fixed function of the characters alone, so it is given a
/// name here rather than being written out.
pub uninterp spec fn lower_of(s: Seq<char>) -> Seq<char>;

/// Relies on `str::to_lowercase`: the result depends on the characters of
/// `s` alone, and an empty string stays empty.
#[verifier::external_body]
pub fn lowercase(s: &str) -> (r: String)
    ensures
        r@ == lower_of(s@),
        s@.len() == 0 ==> r@.len() == 0,
{
    s.to_lowercase()
}

/// Character-for-character equality of two string slices.
pub fn str_eq(a: &str, b: &str) -> (r: bool)
    ensures
        r == (a@ == b@),
{
    let sa: String = a.to_owned();
    let sb: String = b.to_owned();
    sa == sb
}

/// The character for a single decimal digit.
pub open spec fn dec_digit(d: int) -> char {
    if d == 0 {
        '0'
    } else if d == 1 {
        '1'
    } else if d == 2 {
        '2'
    } else if d == 3 {
        '3'
    } else if d == 4 {
        '4'
    } else if d == 5 {
        '5'
    } else if d == 6 {
        '6'
    } else if d == 7 {
        '7'
    } else if d == 8 {
        '8'
    } else {
        '9'
    }
}

/// The decimal representation of `n`, most significant digit first.
pub open spec fn dec_str_of(n: int) -> Seq<char>
    decreases n,
{
    if n < 10 {
        seq![dec_digit(n)]
    } else {
        dec_str_of(n / 10).push(dec_digit(n % 10))
    }
}

/// The one-character string slice for a decimal digit.
fn digit_str(d: u32) -> (r: &'static str)
    requires
        d < 10,
    ensures
        r@ =~= seq![dec_digit(d as int)],
{
    let s = "0123456789";
    proof {
        reveal_strlit("0123456789");
    }
    s.substring_char(d as usize, d as usize + 1)
}

/// Concatenation of a sequence of pieces, last piece first.
pub open spec fn rev_cat(parts: Seq<Seq<char>>) -> Seq<char>
    decreases parts.len(),
{
    if parts.len() == 0 {
        Seq::empty()
    } else {
        parts.last() + rev_cat(parts.drop_last())
    }
}

/// Renders `n` in decimal, e.g. for the placeholder name of an unresolved
/// process.
pub fn decimal_string(n: u32) -> (r: String)
    ensures
        r@ == dec_str_of(n as int),
{
    let mut parts: Vec<&str> = Vec::new();
    let mut m: u32 = n;
    loop
        invariant_except_break
            dec_str_of(n as int) == dec_str_of(m as int) + rev_cat(
                parts@.map_values(|p: &str| p@),
            ),
        ensures
            dec_str_of(n as int) == rev_cat(parts@.map_values(|p: &str| p@)),
        decreases m,
    {
        let d: u32 = m % 10;
        let ds = digit_str(d);
        proof {
            let pv = parts@.map_values(|p: &str| p@);
            let pv2 = parts@.push(ds).map_values(|p: &str| p@);
            assert(pv2.drop_last() =~= pv);
            assert(pv2.last() == ds@);
            if m < 10 {
                assert(dec_str_of(m as int) + rev_cat(pv) =~= rev_cat(pv2));
            } else {
                assert(dec_str_of(m as int) =~= dec_str_of(m as int / 10) + seq![
                    dec_digit(m as int % 10),
                ]);
                assert(dec_str_of(m as int / 10) + (ds@ + rev_cat(pv)) =~= dec_str_of(
                    m as int / 10,
                ) + rev_cat(pv2));
                assert(dec_str_of(n as int) == dec_str_of(m as int / 10) + rev_cat(pv2));
            }
        }
        parts.push(ds);
        if m < 10 {
            break;
        }
        m = m / 10;
    }
    let mut r = String::new();
    let mut i: usize = parts.len();
    proof {
        let pv = parts@.map_values(|p: &str| p@);
        assert(pv.take(i as int) =~= pv);
        assert(r@ + rev_cat(pv) =~= rev_cat(pv));
    }
    while i > 0
        invariant
            i <= parts.len(),
            r@ + rev_cat(parts@.map_values(|p: &str| p@).take(i as int)) == dec_str_of(n as int),
        decreases i,
    {
        proof {
            let pv = parts@.map_values(|p: &str| p@);
            assert(pv.take(i as int).last() == pv[i - 1]);
            assert(pv.take(i as int).drop_last() =~= pv.take(i - 1));
            assert(pv[i - 1] == parts@[i - 1]@);
        }
        r.append(parts[i - 1]);
        i = i - 1;
    }
    proof {
        let pv = parts@.map_values(|p: &str| p@);
        assert(pv.take(pv.len() as int) =~= pv);
        assert(pv.take(0) =~= Seq::empty());
        assert(rev_cat(Seq::empty()) =~= Seq::<char>::empty());
    }
    r
}

} // verus!

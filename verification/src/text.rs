//! Verified text helpers: character extraction, substring search, and
//! decimal formatting, with one trusted conversion from characters back to
//! an owned string.

use vstd::prelude::*;

verus! {

broadcast use vstd::string::group_string_axioms;

/// The characters of a string slice, as a vector.
pub fn str_chars(s: &str) -> (r: Vec<char>)
    ensures
        r@ == s@,
{
    let mut r: Vec<char> = Vec::new();
    for c in it: s.chars()
        invariant
            r@ =~= it.seq().subrange(0, it.index() as int),
    {
        r.push(c);
    }
    proof {
        assert(r@ =~= s@);
    }
    r
}

/// Relies on `String`'s `FromIterator<char>` implementation: collecting
/// characters builds the string holding exactly those characters in order.
#[verifier::external_body]
pub(crate) fn chars_to_string(v: &Vec<char>) -> (r: String)
    ensures
        r@ == v@,
{
    v.iter().collect()
}

/// Whether `n` occurs in `h` as a contiguous subsequence.
pub open spec fn seq_contains(h: Seq<char>, n: Seq<char>) -> bool {
    exists|i: int| 0 <= i <= h.len() - n.len() && #[trigger] h.subrange(i, i + n.len()) == n
}

/// Whether `hay` contains `needle` as a substring.
pub fn contains_str(hay: &str, needle: &str) -> (r: bool)
    ensures
        r == seq_contains(hay@, needle@),
{
    let h = str_chars(hay);
    let n = str_chars(needle);
    if n.len() > h.len() {
        proof {
            assert(!seq_contains(hay@, needle@));
        }
        return false;
    }
    let mut i: usize = 0;
    while i <= h.len() - n.len()
        invariant
            h@ == hay@,
            n@ == needle@,
            n.len() <= h.len(),
            i <= h.len() - n.len() + 1,
            forall|k: int| 0 <= k < i ==> #[trigger] hay@.subrange(k, k + needle@.len())
                != needle@,
        decreases h.len() - n.len() + 1 - i,
    {
        let mut j: usize = 0;
        let mut same = true;
        while j < n.len()
            invariant
                h@ == hay@,
                n@ == needle@,
                n.len() <= h.len(),
                i <= h.len() - n.len(),
                j <= n.len(),
                same == (forall|k: int| 0 <= k < j ==> h@[i + k] == n@[k]),
            decreases n.len() - j,
        {
            if h[i + j] != n[j] {
                proof {
                    assert(!(h@[i + j] == n@[j as int]));
                }
                same = false;
                j = n.len();
            } else {
                proof {
                    assert(h@[i + j] == n@[j as int]);
                }
                j += 1;
            }
        }
        if same {
            proof {
                assert(hay@.subrange(i as int, i + needle@.len()) =~= needle@);
            }
            return true;
        }
        proof {
            if hay@.subrange(i as int, i + needle@.len()) == needle@ {
                assert forall|k: int| 0 <= k < needle@.len() implies h@[i + k] == n@[k] by {
                    assert(hay@.subrange(i as int, i + needle@.len())[k] == hay@[i + k]);
                }
            }
        }
        i += 1;
    }
    false
}

/// The character for one decimal digit.
pub open spec fn digit_char(d: int) -> char {
    ((48 + d) as u8) as char
}

/// The decimal representation of a non-negative integer, most significant
/// digit first, with no leading zeroes.
pub open spec fn dec_digits(n: int) -> Seq<char>
    decreases n,
{
    if n < 10 {
        seq![digit_char(n)]
    } else {
        dec_digits(n / 10) + seq![digit_char(n % 10)]
    }
}

fn push_dec(n: u64, out: &mut Vec<char>)
    ensures
        final(out)@ == old(out)@ + dec_digits(n as int),
    decreases n,
{
    if n < 10 {
        out.push((48 + n as u8) as char);
        proof {
            assert(out@ =~= old(out)@ + dec_digits(n as int));
        }
    } else {
        push_dec(n / 10, out);
        let d = (n % 10) as u8;
        out.push((48 + d) as char);
        proof {
            assert(out@ =~= old(out)@ + dec_digits(n as int));
        }
    }
}

/// The decimal representation of `n`, as characters.
pub fn dec_u64(n: u64) -> (r: Vec<char>)
    ensures
        r@ == dec_digits(n as int),
{
    let mut r: Vec<char> = Vec::new();
    push_dec(n, &mut r);
    proof {
        assert(r@ =~= dec_digits(n as int));
    }
    r
}

/// The decimal representation of `n`, as an owned string.
pub fn dec_string(n: u64) -> (r: String)
    ensures
        r@ == dec_digits(n as int),
{
    let v = dec_u64(n);
    chars_to_string(&v)
}

} // verus!

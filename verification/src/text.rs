//! Character-level helpers shared by the lexer, the command grammar and the
//! renderer: whitespace classification, and conversions between `String`,
//! `&str` and `Vec<char>` so that all scanning can be verified over
//! `Seq<char>` views.

use vstd::prelude::*;
use vstd::string::*;

verus! {

/// The Unicode white-space code points, the set that `char::is_whitespace`
/// recognizes: the ASCII spacing characters, NEL, and the Unicode space
/// separators.
pub open spec fn is_space_char(c: char) -> bool {
    let u = c as u32;
    (9 <= u && u <= 13) || u == 32 || u == 0x85 || u == 0xa0 || u == 0x1680
        || (0x2000 <= u && u <= 0x200a) || u == 0x2028 || u == 0x2029 || u == 0x202f
        || u == 0x205f || u == 0x3000
}

/// Whitespace test used when splitting a command span into words.
pub fn is_space(c: char) -> (r: bool)
    ensures
        r == is_space_char(c),
{
    let u = c as u32;
    (9 <= u && u <= 13) || u == 32 || u == 0x85 || u == 0xa0 || u == 0x1680
        || (0x2000 <= u && u <= 0x200a) || u == 0x2028 || u == 0x2029 || u == 0x202f
        || u == 0x205f || u == 0x3000
}

/// The characters of a string slice, in order, as a vector.
pub fn str_to_chars(s: &str) -> (r: Vec<char>)
    ensures
        r@ == s@,
{
    let n = s.unicode_len();
    let mut v: Vec<char> = Vec::new();
    let mut i: usize = 0;
    while i < n
        invariant
            i <= n,
            n == s@.len(),
            v@ == s@.take(i as int),
        decreases n - i,
    {
        let c = s.get_char(i);
        v.push(c);
        i = i + 1;
        proof {
            assert(s@.take(i as int) =~= s@.take(i as int - 1).push(s@[i as int - 1]));
        }
    }
    proof {
        assert(s@.take(n as int) =~= s@);
    }
    v
}

/// Relies on `String: FromIterator<char>`: collecting an iterator of
/// characters yields a string holding exactly those characters in order.
#[verifier::external_body]
pub fn chars_to_string(v: &Vec<char>) -> (r: String)
    ensures
        r@ == v@,
{
    v.iter().collect()
}

/// The substring of `v` from `a` (inclusive) to `b` (exclusive), as a string.
pub fn copy_range(v: &Vec<char>, a: usize, b: usize) -> (r: String)
    requires
        a <= b <= v@.len(),
    ensures
        r@ == v@.subrange(a as int, b as int),
{
    let mut out: Vec<char> = Vec::new();
    let mut i: usize = a;
    while i < b
        invariant
            a <= i <= b <= v@.len(),
            out@ == v@.subrange(a as int, i as int),
        decreases b - i,
    {
        out.push(v[i]);
        i = i + 1;
        proof {
            assert(v@.subrange(a as int, i as int) =~= v@.subrange(a as int, i as int - 1).push(
                v@[i as int - 1],
            ));
        }
    }
    chars_to_string(&out)
}

/// Character-by-character equality of two string slices.
pub fn str_equal(a: &str, b: &str) -> (r: bool)
    ensures
        r == (a@ == b@),
{
    let n = a.unicode_len();
    let m = b.unicode_len();
    if n != m {
        proof {
            assert(a@ != b@);
        }
        return false;
    }
    let mut i: usize = 0;
    while i < n
        invariant
            i <= n,
            n == a@.len(),
            n == b@.len(),
            forall|k: int| 0 <= k < i ==> a@[k] == b@[k],
        decreases n - i,
    {
        if a.get_char(i) != b.get_char(i) {
            proof {
                assert(a@[i as int] != b@[i as int]);
            }
            return false;
        }
        i = i + 1;
    }
    proof {
        assert(a@ =~= b@);
    }
    true
}

/// Whether some string of `v` equals `s`.
pub fn contains_string(v: &Vec<String>, s: &str) -> (r: bool)
    ensures
        r == crate::ast::seq_view(v@).contains(s@),
{
    let mut i: usize = 0;
    while i < v.len()
        invariant
            i <= v@.len(),
            forall|k: int| 0 <= k < i ==> crate::ast::seq_view(v@)[k] != s@,
        decreases v@.len() - i,
    {
        if str_equal(v[i].as_str(), s) {
            proof {
                assert(crate::ast::seq_view(v@)[i as int] == s@);
            }
            return true;
        }
        i = i + 1;
    }
    proof {
        assert(forall|k: int| 0 <= k < v@.len() ==> crate::ast::seq_view(v@)[k] != s@);
    }
    false
}

/// A copy of a vector of strings, equal element by element.
pub fn clone_strings(v: &Vec<String>) -> (r: Vec<String>)
    ensures
        r@ == v@,
{
    let mut out: Vec<String> = Vec::new();
    let mut i: usize = 0;
    while i < v.len()
        invariant
            i <= v@.len(),
            out@ == v@.take(i as int),
        decreases v@.len() - i,
    {
        out.push(v[i].clone());
        i = i + 1;
        proof {
            assert(v@.take(i as int) =~= v@.take(i as int - 1).push(v@[i as int - 1]));
        }
    }
    proof {
        assert(v@.take(v@.len() as int) =~= v@);
    }
    out
}

} // verus!

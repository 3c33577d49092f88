//! Text helpers: lowercasing and conversions between strings and
//! character buffers.

use vstd::prelude::*;

verus! {

use vstd::string::StrSliceExecFns;

/// The lowercase image of a character sequence, as the Unicode
/// lowercase mapping of `str::to_lowercase` computes it: a function of
/// the characters alone, left uninterpreted here.
pub uninterp spec fn lower_of(s: Seq<char>) -> Seq<char>;

/// Relies on `str::to_lowercase`: its result depends on the input
/// characters alone, so it is only named, by `lower_of`.
#[verifier::external_body]
pub(crate) fn to_lower(s: &str) -> (r: String)
    ensures
        r@ == lower_of(s@),
{
    s.to_lowercase()
}

/// Relies on `String: FromIterator<char>` (`collect`): the collected
/// string holds exactly the given characters in order.
#[verifier::external_body]
pub(crate) fn collect_string(chars: &Vec<char>) -> (r: String)
    ensures
        r@ == chars@,
{
    chars.iter().collect()
}

/// The characters of `s`, in order.
pub(crate) fn chars_of(s: &str) -> (v: Vec<char>)
    ensures
        v@ == s@,
{
    let n = s.unicode_len();
    let mut v: Vec<char> = Vec::new();
    let mut i: usize = 0;
    while i < n
        invariant
            n == s@.len(),
            i <= n,
            v@ == s@.take(i as int),
        decreases n - i,
    {
        let c = s.get_char(i);
        v.push(c);
        proof {
            assert(s@.take(i + 1) =~= s@.take(i as int).push(s@[i as int]));
        }
        i += 1;
    }
    proof {
        assert(s@.take(n as int) =~= s@);
    }
    v
}

/// The characters of the lowercase image of `s`.
pub(crate) fn lower_chars(s: &str) -> (v: Vec<char>)
    ensures
        v@ == lower_of(s@),
{
    let low = to_lower(s);
    chars_of(low.as_str())
}

} // verus!

//! Small verified text helpers used by the lookup and auth paths.

use vstd::prelude::*;

verus! {

/// Character-wise string equality, proved equivalent to equality of views.
#[verifier::loop_isolation(false)]
pub fn str_eq(a: &str, b: &str) -> (r: bool)
    ensures
        r == (a@ == b@),
{
    let a_len = a.unicode_len();
    let b_len = b.unicode_len();
    if a_len != b_len {
        return false;
    }
    let mut i: usize = 0;
    while i < a_len
        invariant
            a_len == a@.len(),
            b_len == b@.len(),
            a_len == b_len,
            i <= a_len,
            forall|k: int| 0 <= k < i ==> a@[k] == b@[k],
        decreases a_len - i,
    {
        if a.get_char(i) != b.get_char(i) {
            return false;
        }
        i += 1;
    }
    proof {
        assert(a@ =~= b@);
    }
    true
}

/// The bearer credential carried by an authorization header: the header
/// value with a `token ` prefix removed, or the value itself when no such
/// prefix is present.
pub open spec fn spec_strip_token_prefix(s: Seq<char>) -> Seq<char> {
    if s.len() >= 6 && s.take(6) == "token "@ {
        s.skip(6)
    } else {
        s
    }
}

/// Remove a leading `token ` marker from an authorization header value.
pub fn strip_token_prefix(raw: &str) -> (r: &str)
    ensures
        r@ == spec_strip_token_prefix(raw@),
{
    let n = raw.unicode_len();
    if n >= 6 {
        let head = raw.substring_char(0, 6);
        proof {
            assert(head@ =~= raw@.take(6));
        }
        if str_eq(head, "token ") {
            let rest = raw.substring_char(6, n);
            proof {
                assert(rest@ =~= raw@.skip(6));
            }
            return rest;
        }
    }
    raw
}

} // verus!

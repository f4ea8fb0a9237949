//! Character-level helpers shared by the schema pipeline: string equality
//! over views and the identifier check used by the directive resolver.

use vstd::prelude::*;

verus! {

/// One character that may start an identifier: a letter or an underscore.
pub open spec fn is_ident_start(c: char) -> bool {
    ('a' <= c && c <= 'z') || ('A' <= c && c <= 'Z') || c == '_'
}

/// One character that may continue an identifier: a letter, a digit or an
/// underscore.
pub open spec fn is_ident_continue(c: char) -> bool {
    is_ident_start(c) || ('0' <= c && c <= '9')
}

/// A non-empty name whose first character starts an identifier and whose
/// remaining characters continue one.
pub open spec fn is_identifier(s: Seq<char>) -> bool {
    &&& s.len() > 0
    &&& is_ident_start(s[0])
    &&& forall|i: int| 0 < i < s.len() ==> is_ident_continue(#[trigger] s[i])
}

/// Decides string equality by comparing the character sequences.
pub fn str_eq(a: &str, b: &str) -> (r: bool)
    ensures
        r == (a@ == b@),
{
    let la = a.unicode_len();
    let lb = b.unicode_len();
    if la != lb {
        return false;
    }
    let mut i: usize = 0;
    while i < la
        invariant
            la == a@.len(),
            lb == b@.len(),
            la == lb,
            i <= la,
            forall|j: int| 0 <= j < i ==> a@[j] == b@[j],
        decreases la - i,
    {
        if a.get_char(i) != b.get_char(i) {
            return false;
        }
        i = i + 1;
    }
    proof {
        assert(a@ =~= b@);
    }
    true
}

/// Decides whether `s` is a valid identifier.
pub fn check_identifier(s: &str) -> (r: bool)
    ensures
        r == is_identifier(s@),
{
    let len = s.unicode_len();
    if len == 0 {
        return false;
    }
    let first = s.get_char(0);
    let first_ok = ('a' <= first && first <= 'z') || ('A' <= first && first <= 'Z')
        || first == '_';
    if !first_ok {
        return false;
    }
    let mut i: usize = 1;
    while i < len
        invariant
            len == s@.len(),
            len > 0,
            is_ident_start(s@[0]),
            1 <= i <= len,
            forall|j: int| 0 < j < i ==> is_ident_continue(#[trigger] s@[j]),
        decreases len - i,
    {
        let c = s.get_char(i);
        let ok = ('a' <= c && c <= 'z') || ('A' <= c && c <= 'Z') || c == '_'
            || ('0' <= c && c <= '9');
        if !ok {
            return false;
        }
        i = i + 1;
    }
    true
}

} // verus!

//! The directive resolver.
//!
//! An annotation is a valid `each` directive exactly when it holds one
//! key/value entry, the key is `each`, the value is a text literal, and the
//! text names a valid identifier: that identifier becomes the accumulator
//! method name. Every other annotation shape is a directive error.

use vstd::prelude::*;

use crate::schema::{Annotation, AttrValue, Directive, DirectiveEntry};
use crate::text::{check_identifier, is_identifier, str_eq};

verus! {

/// The accumulator name an annotation proposes: the text of its first
/// entry's value. Meaningful only for a valid `each` annotation.
pub open spec fn each_name(a: Annotation) -> Seq<char> {
    match a.entries@[0].value {
        AttrValue::Text(s) => s@,
        _ => Seq::empty(),
    }
}

/// Exactly one entry, keyed `each`, with a text value naming an identifier.
pub open spec fn valid_each_annotation(a: Annotation) -> bool {
    &&& a.entries@.len() == 1
    &&& a.entries@[0].key@ == "each"@
    &&& a.entries@[0].value is Text
    &&& is_identifier(each_name(a))
}

/// Parses one annotation as an `each` directive. `None` marks every invalid
/// shape: multiple entries, a wrong key, a non-text value, or a text value
/// that is no identifier.
pub fn resolve_each(a: Annotation) -> (r: Option<Directive>)
    ensures
        r is Some <==> valid_each_annotation(a),
        r matches Some(d) ==> d matches Directive::Each(s) && s@ == each_name(a),
{
    let Annotation { entries } = a;
    if entries.len() != 1 {
        return None;
    }
    let mut entries = entries;
    let entry = entries.remove(0);
    let DirectiveEntry { key, value } = entry;
    if !str_eq(key.as_str(), "each") {
        return None;
    }
    match value {
        AttrValue::Text(s) => {
            if check_identifier(s.as_str()) {
                Some(Directive::Each(s))
            } else {
                None
            }
        },
        _ => None,
    }
}

} // verus!

//! The shape classifier.
//!
//! Every field descriptor is assigned exactly one of three shapes. A field
//! wrapped in `optional` that carries no `each` directive is `Optional`; a
//! field with an `each` directive is `Repeated`, unwrapping the `sequence`
//! wrapper (looking through an outer `optional` wrapper, since an explicit
//! directive overrides structural inference); every other field is
//! `Required` with its declared type kept as-is. An `each` directive on a
//! type with no `sequence` wrapper to unwrap is a classification error.

use vstd::prelude::*;

use crate::schema::{Directive, FieldDescriptor, SynthesisError, TypeExpr};
use crate::text::str_eq;

verus! {

/// The derived shape of a field. `Optional` holds the unwrapped inner type;
/// `Repeated` holds the unwrapped element type and the accumulator name.
pub enum FieldShape {
    Required(TypeExpr),
    Optional(TypeExpr),
    Repeated(TypeExpr, String),
}

/// The type expression is a single-argument wrapper with the given name.
pub open spec fn is_wrapper_named(t: TypeExpr, w: Seq<char>) -> bool {
    match t {
        TypeExpr::Wrapper(name, _) => name@ == w,
        TypeExpr::Named(_) => false,
    }
}

/// The argument of a wrapper type. Meaningful only for wrappers.
pub open spec fn wrapper_arg(t: TypeExpr) -> TypeExpr
    recommends
        t is Wrapper,
{
    match t {
        TypeExpr::Wrapper(_, inner) => *inner,
        TypeExpr::Named(_) => t,
    }
}

/// The field carries at least one (validated) `each` directive.
pub open spec fn has_each(fd: FieldDescriptor) -> bool {
    fd.directives@.len() > 0
}

/// The accumulator name of the field's first `each` directive.
pub open spec fn accum_of(fd: FieldDescriptor) -> Seq<char>
    recommends
        has_each(fd),
{
    match fd.directives@[0] {
        Directive::Each(s) => s@,
    }
}

/// The element type an `each` directive accumulates: the argument of the
/// `sequence` wrapper, found either at the top of the declared type or under
/// one outer `optional` wrapper. `None` marks an invalid target.
pub open spec fn each_target(t: TypeExpr) -> Option<TypeExpr> {
    if is_wrapper_named(t, "sequence"@) {
        Some(wrapper_arg(t))
    } else if is_wrapper_named(t, "optional"@) && is_wrapper_named(wrapper_arg(t), "sequence"@) {
        Some(wrapper_arg(wrapper_arg(t)))
    } else {
        None
    }
}

/// Shape rule 1: an `optional` wrapper without an `each` directive.
pub open spec fn classifies_optional(fd: FieldDescriptor) -> bool {
    !has_each(fd) && is_wrapper_named(fd.declared_type, "optional"@)
}

/// Shape rule 2: an `each` directive with a `sequence` wrapper to unwrap.
pub open spec fn classifies_repeated(fd: FieldDescriptor) -> bool {
    has_each(fd) && each_target(fd.declared_type) is Some
}

/// Shape rule 3: everything else keeps its declared type as-is.
pub open spec fn classifies_required(fd: FieldDescriptor) -> bool {
    !has_each(fd) && !is_wrapper_named(fd.declared_type, "optional"@)
}

/// An `each` directive whose declared type holds no `sequence` wrapper.
pub open spec fn invalid_each_target(fd: FieldDescriptor) -> bool {
    has_each(fd) && each_target(fd.declared_type) is None
}

/// Decides whether `t` is a wrapper with the given name.
fn wrapper_is(t: &TypeExpr, w: &str) -> (r: bool)
    ensures
        r == is_wrapper_named(*t, w@),
{
    match t {
        TypeExpr::Wrapper(name, _) => str_eq(name.as_str(), w),
        TypeExpr::Named(_) => false,
    }
}

/// Takes a wrapper apart, yielding its argument.
fn into_wrapper_arg(t: TypeExpr) -> (r: TypeExpr)
    requires
        t is Wrapper,
    ensures
        r == wrapper_arg(t),
{
    match t {
        TypeExpr::Wrapper(_, inner) => *inner,
        TypeExpr::Named(n) => TypeExpr::Named(n),
    }
}

/// The shape classifier. Assigns the field its shape by the three rules, the
/// `each` directive taking precedence over the `optional` wrapper; an `each`
/// directive without a `sequence` wrapper to unwrap is `InvalidEachTarget`,
/// attributed to the field.
pub fn classify_field(fd: FieldDescriptor) -> (r: Result<FieldShape, SynthesisError>)
    ensures
        r is Ok <==> !invalid_each_target(fd),
        classifies_optional(fd) ==> (r matches Ok(s) && s matches FieldShape::Optional(t)
            && t == wrapper_arg(fd.declared_type)),
        classifies_repeated(fd) ==> (r matches Ok(s) && s matches FieldShape::Repeated(t, a)
            && Some(t) == each_target(fd.declared_type) && a@ == accum_of(fd)),
        classifies_required(fd) ==> (r matches Ok(s) && s matches FieldShape::Required(t)
            && t == fd.declared_type),
        invalid_each_target(fd) ==> (r matches Err(e)
            && e matches SynthesisError::InvalidEachTarget(n) && n@ == fd.name@),
{
    let FieldDescriptor { name, declared_type, directives } = fd;
    let mut directives = directives;
    if directives.len() == 0 {
        if wrapper_is(&declared_type, "optional") {
            Ok(FieldShape::Optional(into_wrapper_arg(declared_type)))
        } else {
            Ok(FieldShape::Required(declared_type))
        }
    } else {
        let elem = if wrapper_is(&declared_type, "sequence") {
            into_wrapper_arg(declared_type)
        } else if wrapper_is(&declared_type, "optional") {
            let arg = into_wrapper_arg(declared_type);
            if wrapper_is(&arg, "sequence") {
                into_wrapper_arg(arg)
            } else {
                return Err(SynthesisError::InvalidEachTarget(name));
            }
        } else {
            return Err(SynthesisError::InvalidEachTarget(name));
        };
        let d = directives.remove(0);
        match d {
            Directive::Each(a) => Ok(FieldShape::Repeated(elem, a)),
        }
    }
}

/// An explicit `each` directive overrides structural inference: a field
/// declared as "optional of sequence of T" that carries an `each` directive
/// classifies as `Repeated` over T, never as `Optional`.
pub proof fn law_each_overrides_optional(fd: FieldDescriptor)
    requires
        has_each(fd),
        is_wrapper_named(fd.declared_type, "optional"@),
        is_wrapper_named(wrapper_arg(fd.declared_type), "sequence"@),
    ensures
        classifies_repeated(fd),
        !classifies_optional(fd),
        each_target(fd.declared_type) == Some(wrapper_arg(wrapper_arg(fd.declared_type))),
{
    reveal_strlit("optional");
    reveal_strlit("sequence");
    assert("optional"@[0] != "sequence"@[0]);
}

} // verus!

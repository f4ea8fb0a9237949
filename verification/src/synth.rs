//! The builder synthesizer.
//!
//! From a schema it derives the builder plan: one entry per field, in
//! declaration order, holding the field's name and shape. The plan fixes
//! which operations the builder offers for each field: every field answers
//! to exactly one single-value method (the setter for required and optional
//! fields, the accumulator for repeated fields), and a repeated field whose
//! accumulator name differs from the field name additionally answers to a
//! bulk replace-all setter under the field's own name. When the two names
//! collide only the accumulator is emitted.

use vstd::prelude::*;

use crate::directive::each_name;
use crate::schema::{extract_schema, field_annotations_ok, first_bad_field_from, RawField,
    SchemaInput, SynthesisError};
use crate::shape::{classify_field, each_target, is_wrapper_named, wrapper_arg, FieldShape};

verus! {

/// One synthesized field: its name and derived shape.
pub struct FieldPlan {
    pub name: String,
    pub shape: FieldShape,
}

/// The synthesized artifact: the fields in declaration order.
pub struct BuilderPlan {
    pub fields: Vec<FieldPlan>,
}

/// The method name `m` invokes this field's single-value operation: the
/// plain setter of a required or optional field, or the accumulator of a
/// repeated field.
pub open spec fn is_single_method(f: FieldPlan, m: Seq<char>) -> bool {
    match f.shape {
        FieldShape::Repeated(_, a) => m == a@,
        _ => m == f.name@,
    }
}

/// The field emits a bulk replace-all setter: only a repeated field whose
/// accumulator name differs from the field name does.
pub open spec fn emits_bulk_setter(f: FieldPlan) -> bool {
    match f.shape {
        FieldShape::Repeated(_, a) => a@ != f.name@,
        _ => false,
    }
}

/// The method name `m` invokes this field's bulk replace-all setter.
pub open spec fn is_bulk_method(f: FieldPlan, m: Seq<char>) -> bool {
    emits_bulk_setter(f) && m == f.name@
}

/// The raw field carries at least one annotation.
pub open spec fn raw_has_each(f: RawField) -> bool {
    f.annotations@.len() > 0
}

/// The accumulator name proposed by the raw field's first annotation.
pub open spec fn raw_accum(f: RawField) -> Seq<char>
    recommends
        raw_has_each(f),
{
    each_name(f.annotations@[0])
}

/// The raw field classifies cleanly: no invalid `each` target.
pub open spec fn raw_target_ok(f: RawField) -> bool {
    raw_has_each(f) ==> each_target(f.declared_type) is Some
}

/// The least field index at or after `i` whose `each` target is invalid,
/// or -1.
pub open spec fn first_bad_target_from(fs: Seq<RawField>, i: int) -> int
    decreases fs.len() - i when 0 <= i <= fs.len()
{
    if i >= fs.len() {
        -1
    } else if !raw_target_ok(fs[i]) {
        i
    } else {
        first_bad_target_from(fs, i + 1)
    }
}

/// The plan entry derived from a raw field: same name, and the shape the
/// classifier's three rules assign.
pub open spec fn plan_of_raw(p: FieldPlan, f: RawField) -> bool {
    &&& p.name == f.name
    &&& (!raw_has_each(f) && is_wrapper_named(f.declared_type, "optional"@)) ==> (p.shape
        matches FieldShape::Optional(t) && t == wrapper_arg(f.declared_type))
    &&& (raw_has_each(f) && each_target(f.declared_type) is Some) ==> (p.shape
        matches FieldShape::Repeated(t, a) && Some(t) == each_target(f.declared_type)
        && a@ == raw_accum(f))
    &&& (!raw_has_each(f) && !is_wrapper_named(f.declared_type, "optional"@)) ==> (p.shape
        matches FieldShape::Required(t) && t == f.declared_type)
}

/// Skipping a prefix of fields with valid `each` targets does not move the
/// first invalid target.
proof fn lemma_first_bad_target_past_ok_prefix(fs: Seq<RawField>, i: int, k: int)
    requires
        0 <= i <= k <= fs.len(),
        forall|j: int| i <= j < k ==> raw_target_ok(#[trigger] fs[j]),
    ensures
        first_bad_target_from(fs, i) == first_bad_target_from(fs, k),
    decreases k - i,
{
    if i < k {
        assert(raw_target_ok(fs[i]));
        lemma_first_bad_target_past_ok_prefix(fs, i + 1, k);
    }
}

/// The builder synthesizer. Extracts the schema, classifies every field,
/// and emits the plan, in declaration order. Synthesis is all-or-nothing:
/// the first offending field aborts it, extraction diagnostics before
/// classification diagnostics.
pub fn synthesize(input: SchemaInput) -> (r: Result<BuilderPlan, SynthesisError>)
    ensures
        (input is Positional || input is Variants) ==> (r matches Err(e)
            && e is UnsupportedSchema),
        input matches SchemaInput::NamedFields(fs) ==> {
            &&& (r is Ok <==> forall|i: int|
                0 <= i < fs@.len() ==> field_annotations_ok(#[trigger] fs@[i])
                    && raw_target_ok(fs@[i]))
            &&& r matches Ok(plan) ==> {
                &&& plan.fields@.len() == fs@.len()
                &&& forall|i: int|
                    0 <= i < fs@.len() ==> plan_of_raw(#[trigger] plan.fields@[i], fs@[i])
            }
            &&& (exists|i: int|
                0 <= i < fs@.len() && !field_annotations_ok(#[trigger] fs@[i])) ==> (r
                matches Err(e) && e matches SynthesisError::InvalidDirective(n)
                && n@ == fs@[first_bad_field_from(fs@, 0)].name@)
            &&& ((forall|i: int| 0 <= i < fs@.len() ==> field_annotations_ok(#[trigger] fs@[i]))
                && (exists|i: int| 0 <= i < fs@.len() && !raw_target_ok(#[trigger] fs@[i])))
                ==> (r matches Err(e) && e matches SynthesisError::InvalidEachTarget(n)
                && n@ == fs@[first_bad_target_from(fs@, 0)].name@)
        },
{
    let ghost inp = input;
    let descriptors = match extract_schema(input) {
        Ok(ds) => ds,
        Err(e) => {
            return Err(e);
        },
    };
    let ghost fs0 = inp->NamedFields_0@;
    let ghost dss = descriptors@;
    let mut descriptors = descriptors;
    let mut fields: Vec<FieldPlan> = Vec::new();
    while descriptors.len() > 0
        invariant
            inp == input,
            inp matches SchemaInput::NamedFields(fsv) && fsv@ == fs0,
            forall|i: int|
                0 <= i < fs0.len() ==> field_annotations_ok(#[trigger] fs0[i]),
            dss.len() == fs0.len(),
            forall|i: int|
                0 <= i < dss.len() ==> crate::schema::descriptor_of(#[trigger] dss[i], fs0[i]),
            fields@.len() + descriptors@.len() == dss.len(),
            descriptors@ =~= dss.subrange(fields@.len() as int, dss.len() as int),
            forall|i: int| 0 <= i < fields@.len() ==> plan_of_raw(#[trigger] fields@[i], fs0[i]),
            forall|i: int| 0 <= i < fields@.len() ==> raw_target_ok(#[trigger] fs0[i]),
        decreases descriptors@.len(),
    {
        let ghost idx = fields@.len() as int;
        let fd = descriptors.remove(0);
        proof {
            assert(fd == dss[idx]);
        }
        let name = fd.name.clone();
        match classify_field(fd) {
            Ok(shape) => {
                proof {
                    assert(crate::schema::descriptor_of(dss[idx], fs0[idx]));
                }
                fields.push(FieldPlan { name, shape });
            },
            Err(e) => {
                proof {
                    assert(!raw_target_ok(fs0[idx]));
                    lemma_first_bad_target_past_ok_prefix(fs0, 0, idx);
                }
                return Err(e);
            },
        }
    }
    Ok(BuilderPlan { fields })
}

/// The name-collision rule: when a repeated field's accumulator name equals
/// the field's own name, only the accumulator is emitted. No method name
/// reaches a bulk replace on such a field, and the one name the field
/// answers to is the accumulator's.
pub proof fn law_collision_emits_only_accumulator(f: FieldPlan, m: Seq<char>)
    requires
        f.shape matches FieldShape::Repeated(_, a) && a@ == f.name@,
    ensures
        !is_bulk_method(f, m),
        is_single_method(f, m) <==> m == f.name@,
{
}

/// The no-collision rule: when the accumulator name differs from the field
/// name, both methods are emitted, under distinct names.
pub proof fn law_distinct_names_emit_both(f: FieldPlan)
    requires
        f.shape matches FieldShape::Repeated(_, a) && a@ != f.name@,
    ensures
        is_bulk_method(f, f.name@),
        is_single_method(f, accumulator_name(f)),
        accumulator_name(f) != f.name@,
{
}

/// The accumulator name of a repeated field.
pub open spec fn accumulator_name(f: FieldPlan) -> Seq<char>
    recommends
        f.shape is Repeated,
{
    match f.shape {
        FieldShape::Repeated(_, a) => a@,
        _ => f.name@,
    }
}

} // verus!

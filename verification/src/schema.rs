//! Schema model and the schema extractor.
//!
//! A schema arrives as a list of raw fields: a name, a declared type
//! expression, and zero or more key/value annotations. The extractor turns a
//! flat, named-field schema into an ordered sequence of field descriptors,
//! validating every annotation eagerly; any other schema form is rejected.

use vstd::prelude::*;

use crate::directive::{each_name, resolve_each, valid_each_annotation};

verus! {

/// A structural description of a type reference: either a plain named type
/// or a single-argument wrapper type such as "optional of T".
pub enum TypeExpr {
    Named(String),
    Wrapper(String, Box<TypeExpr>),
}

/// The literal kinds an annotation value can take. Only a text value can
/// name an accumulator; the other kinds make the annotation invalid.
pub enum AttrValue {
    Text(String),
    Number(u64),
    Flag,
}

/// One key/value pair inside an annotation.
pub struct DirectiveEntry {
    pub key: String,
    pub value: AttrValue,
}

/// One raw per-field annotation: a list of key/value entries.
pub struct Annotation {
    pub entries: Vec<DirectiveEntry>,
}

/// A validated per-field directive: the closed set recognized by the
/// resolver. `Each` names the accumulator method for a repeated field.
pub enum Directive {
    Each(String),
}

/// One field of the incoming schema, before extraction.
pub struct RawField {
    pub name: String,
    pub declared_type: TypeExpr,
    pub annotations: Vec<Annotation>,
}

/// The schema forms a caller can hand in. Only flat named fields are
/// supported; positional records and variant schemas are rejected.
pub enum SchemaInput {
    NamedFields(Vec<RawField>),
    Positional(Vec<TypeExpr>),
    Variants(Vec<String>),
}

/// A normalized field: name, declared type, and the validated directives,
/// in annotation order.
pub struct FieldDescriptor {
    pub name: String,
    pub declared_type: TypeExpr,
    pub directives: Vec<Directive>,
}

/// The synthesis-time diagnostics. Each field-attributable error carries the
/// name of the offending field.
pub enum SynthesisError {
    UnsupportedSchema,
    InvalidDirective(String),
    InvalidEachTarget(String),
}

/// Every annotation of the field is a valid `each` directive.
pub open spec fn field_annotations_ok(f: RawField) -> bool {
    forall|j: int|
        0 <= j < f.annotations@.len() ==> valid_each_annotation(#[trigger] f.annotations@[j])
}

/// The least field index at or after `i` with an invalid annotation, or -1.
pub open spec fn first_bad_field_from(fs: Seq<RawField>, i: int) -> int
    decreases fs.len() - i when 0 <= i <= fs.len()
{
    if i >= fs.len() {
        -1
    } else if !field_annotations_ok(fs[i]) {
        i
    } else {
        first_bad_field_from(fs, i + 1)
    }
}

/// The descriptor carries the raw field's name and type, and one validated
/// directive per annotation, in order.
pub open spec fn descriptor_of(d: FieldDescriptor, f: RawField) -> bool {
    &&& d.name == f.name
    &&& d.declared_type == f.declared_type
    &&& d.directives@.len() == f.annotations@.len()
    &&& forall|j: int|
        0 <= j < d.directives@.len() ==> ((#[trigger] d.directives@[j]) matches Directive::Each(s)
            && s@ == each_name(f.annotations@[j]))
}

/// Skipping a prefix of fields whose annotations are all valid does not move
/// the first invalid field.
proof fn lemma_first_bad_past_ok_prefix(fs: Seq<RawField>, i: int, k: int)
    requires
        0 <= i <= k <= fs.len(),
        forall|j: int| i <= j < k ==> field_annotations_ok(#[trigger] fs[j]),
    ensures
        first_bad_field_from(fs, i) == first_bad_field_from(fs, k),
    decreases k - i,
{
    if i < k {
        assert(field_annotations_ok(fs[i]));
        lemma_first_bad_past_ok_prefix(fs, i + 1, k);
    }
}

/// The schema extractor. A flat named-field schema yields one descriptor per
/// field, in declaration order, with every annotation validated eagerly; the
/// first field carrying an invalid annotation aborts extraction. Any other
/// schema form is `UnsupportedSchema`.
pub fn extract_schema(input: SchemaInput) -> (r: Result<Vec<FieldDescriptor>, SynthesisError>)
    ensures
        (input is Positional || input is Variants) ==> (r matches Err(e)
            && e is UnsupportedSchema),
        input matches SchemaInput::NamedFields(fs) ==> {
            &&& (r is Ok <==> forall|i: int|
                0 <= i < fs@.len() ==> field_annotations_ok(#[trigger] fs@[i]))
            &&& r matches Ok(ds) ==> {
                &&& ds@.len() == fs@.len()
                &&& forall|i: int|
                    0 <= i < ds@.len() ==> descriptor_of(#[trigger] ds@[i], fs@[i])
            }
            &&& r matches Err(e) ==> e matches SynthesisError::InvalidDirective(n)
                && n@ == fs@[first_bad_field_from(fs@, 0)].name@
        },
{
    match input {
        SchemaInput::Positional(_) => Err(SynthesisError::UnsupportedSchema),
        SchemaInput::Variants(_) => Err(SynthesisError::UnsupportedSchema),
        SchemaInput::NamedFields(fields) => {
            let ghost orig = fields@;
            let mut fields = fields;
            let mut out: Vec<FieldDescriptor> = Vec::new();
            while fields.len() > 0
                invariant
                    input matches SchemaInput::NamedFields(fs0) && fs0@ == orig,
                    out@.len() + fields@.len() == orig.len(),
                    fields@ =~= orig.subrange(out@.len() as int, orig.len() as int),
                    forall|i: int| 0 <= i < out@.len() ==> descriptor_of(#[trigger] out@[i], orig[i]),
                    forall|i: int| 0 <= i < out@.len() ==> field_annotations_ok(#[trigger] orig[i]),
                decreases fields@.len(),
            {
                let ghost idx = out@.len() as int;
                let f = fields.remove(0);
                proof {
                    assert(f == orig[idx]);
                }
                let RawField { name, declared_type, annotations } = f;
                let ghost anns = annotations@;
                let mut annotations = annotations;
                let mut dirs: Vec<Directive> = Vec::new();
                while annotations.len() > 0
                    invariant
                        input matches SchemaInput::NamedFields(fs0) && fs0@ == orig,
                        dirs@.len() + annotations@.len() == anns.len(),
                        annotations@ =~= anns.subrange(dirs@.len() as int, anns.len() as int),
                        forall|j: int|
                            0 <= j < dirs@.len() ==> ((#[trigger] dirs@[j])
                                matches Directive::Each(s) && s@ == each_name(anns[j])),
                        forall|j: int|
                            0 <= j < dirs@.len() ==> valid_each_annotation(#[trigger] anns[j]),
                        0 <= idx < orig.len(),
                        name == orig[idx].name,
                        anns == orig[idx].annotations@,
                        forall|i: int| 0 <= i < idx ==> field_annotations_ok(#[trigger] orig[i]),
                    decreases annotations@.len(),
                {
                    let ghost jdx = dirs@.len() as int;
                    let a = annotations.remove(0);
                    proof {
                        assert(a == anns[jdx]);
                    }
                    match resolve_each(a) {
                        Some(d) => {
                            dirs.push(d);
                        },
                        None => {
                            proof {
                                assert(!field_annotations_ok(orig[idx]));
                                lemma_first_bad_past_ok_prefix(orig, 0, idx);
                            }
                            return Err(SynthesisError::InvalidDirective(name));
                        },
                    }
                }
                proof {
                    assert(field_annotations_ok(orig[idx])) by {
                        assert(forall|j: int|
                            0 <= j < orig[idx].annotations@.len()
                                ==> valid_each_annotation(#[trigger] orig[idx].annotations@[j]));
                    }
                }
                out.push(FieldDescriptor { name, declared_type, directives: dirs });
            }
            Ok(out)
        },
    }
}

} // verus!

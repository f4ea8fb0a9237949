//! The builder runtime and the construction validator.
//!
//! A builder instance interprets a synthesized plan: it holds one slot per
//! field, created empty (absent for required and optional fields, the empty
//! sequence for repeated fields), mutated only through the method-dispatch
//! operations, and consumed by the terminal `build` operation. Dispatch is
//! by method name, scanning the fields in declaration order: `send` invokes
//! a field's single-value method (the setter of a required or optional
//! field, or the accumulator of a repeated field), `send_all` invokes a
//! repeated field's bulk replace-all setter where one is emitted. Setters
//! never fail; an unknown method name leaves the builder untouched and
//! reports that nothing matched.

use vstd::prelude::*;

use crate::shape::FieldShape;
use crate::synth::{is_bulk_method, is_single_method, BuilderPlan, FieldPlan};

verus! {

/// The run-time state of one field: a present-or-absent slot for required
/// and optional fields, an ordered sequence for repeated fields.
pub enum Slot<V> {
    Absent,
    Present(V),
    Elems(Vec<V>),
}

/// A constructed record: one named value per field, in declaration order.
pub enum FieldValue<V> {
    Single(V),
    Maybe(Option<V>),
    Many(Vec<V>),
}

/// One field of a constructed record.
pub struct RecordField<V> {
    pub name: String,
    pub value: FieldValue<V>,
}

/// The value the terminal build operation produces.
pub struct Record<V> {
    pub fields: Vec<RecordField<V>>,
}

/// The construction-time error: the first required field, in declaration
/// order, whose slot is still absent.
pub struct MissingField {
    pub field: String,
}

/// A builder instance: the plan it interprets and one slot per field.
pub struct Builder<V> {
    pub plan: BuilderPlan,
    pub slots: Vec<Slot<V>>,
}

/// The least field index at or after `i` whose single-value method is
/// named `m`, or -1.
pub open spec fn first_single_from(fields: Seq<FieldPlan>, m: Seq<char>, i: int) -> int
    decreases fields.len() - i when 0 <= i <= fields.len()
{
    if i >= fields.len() {
        -1
    } else if is_single_method(fields[i], m) {
        i
    } else {
        first_single_from(fields, m, i + 1)
    }
}

/// The least field index at or after `i` whose bulk setter is named `m`,
/// or -1.
pub open spec fn first_bulk_from(fields: Seq<FieldPlan>, m: Seq<char>, i: int) -> int
    decreases fields.len() - i when 0 <= i <= fields.len()
{
    if i >= fields.len() {
        -1
    } else if is_bulk_method(fields[i], m) {
        i
    } else {
        first_bulk_from(fields, m, i + 1)
    }
}

/// The least field index at or after `i` that is required but unfilled,
/// or -1.
pub open spec fn first_missing_from<V>(fields: Seq<FieldPlan>, slots: Seq<Slot<V>>, i: int) -> int
    decreases fields.len() - i when 0 <= i <= fields.len()
{
    if i >= fields.len() {
        -1
    } else if fields[i].shape is Required && !(slots[i] is Present) {
        i
    } else {
        first_missing_from(fields, slots, i + 1)
    }
}

proof fn lemma_first_single_past_prefix(fields: Seq<FieldPlan>, m: Seq<char>, i: int, k: int)
    requires
        0 <= i <= k <= fields.len(),
        forall|j: int| i <= j < k ==> !is_single_method(#[trigger] fields[j], m),
    ensures
        first_single_from(fields, m, i) == first_single_from(fields, m, k),
    decreases k - i,
{
    if i < k {
        assert(!is_single_method(fields[i], m));
        lemma_first_single_past_prefix(fields, m, i + 1, k);
    }
}

proof fn lemma_first_bulk_past_prefix(fields: Seq<FieldPlan>, m: Seq<char>, i: int, k: int)
    requires
        0 <= i <= k <= fields.len(),
        forall|j: int| i <= j < k ==> !is_bulk_method(#[trigger] fields[j], m),
    ensures
        first_bulk_from(fields, m, i) == first_bulk_from(fields, m, k),
    decreases k - i,
{
    if i < k {
        assert(!is_bulk_method(fields[i], m));
        lemma_first_bulk_past_prefix(fields, m, i + 1, k);
    }
}

proof fn lemma_first_missing_past_prefix<V>(
    fields: Seq<FieldPlan>,
    slots: Seq<Slot<V>>,
    i: int,
    k: int,
)
    requires
        0 <= i <= k <= fields.len(),
        forall|j: int|
            i <= j < k ==> !((#[trigger] fields[j]).shape is Required && !(slots[j] is Present)),
    ensures
        first_missing_from(fields, slots, i) == first_missing_from(fields, slots, k),
    decreases k - i,
{
    if i < k {
        lemma_first_missing_past_prefix(fields, slots, i + 1, k);
    }
}

impl<V> Builder<V> {
    /// One slot per field, repeated fields holding sequences, others a
    /// present-or-absent value.
    pub open spec fn wf(self) -> bool {
        &&& self.slots@.len() == self.plan.fields@.len()
        &&& forall|i: int|
            0 <= i < self.plan.fields@.len() ==> ((#[trigger] self.plan.fields@[i].shape)
                is Repeated <==> self.slots@[i] is Elems)
    }

    /// The number of fields the builder interprets.
    pub open spec fn n_fields(self) -> int {
        self.plan.fields@.len() as int
    }

    /// The plan entry of field `i`.
    pub open spec fn field(self, i: int) -> FieldPlan {
        self.plan.fields@[i]
    }

    /// Field `i`'s slot holds a value.
    pub open spec fn filled(self, i: int) -> bool {
        self.slots@[i] is Present
    }

    /// The sequence accumulated so far for repeated field `i`.
    pub open spec fn items(self, i: int) -> Seq<V> {
        match self.slots@[i] {
            Slot::Elems(es) => es@,
            _ => Seq::empty(),
        }
    }

    /// Every required field's slot holds a value.
    pub open spec fn all_required_filled(self) -> bool {
        forall|i: int|
            0 <= i < self.n_fields() ==> ((#[trigger] self.field(i).shape) is Required
                ==> self.filled(i))
    }

    /// Instantiates the builder with every slot at its default: absent for
    /// required and optional fields, the empty sequence for repeated fields.
    pub fn new(plan: BuilderPlan) -> (b: Builder<V>)
        ensures
            b.wf(),
            b.plan == plan,
            forall|i: int| 0 <= i < b.n_fields() ==> !b.filled(i),
            forall|i: int|
                0 <= i < b.n_fields() ==> (#[trigger] b.items(i)) == Seq::<V>::empty(),
    {
        let mut slots: Vec<Slot<V>> = Vec::new();
        let n = plan.fields.len();
        let mut i: usize = 0;
        while i < n
            invariant
                n == plan.fields@.len(),
                i <= n,
                slots@.len() == i,
                forall|j: int|
                    0 <= j < i as int ==> ((#[trigger] plan.fields@[j].shape) is Repeated
                        <==> slots@[j] is Elems),
                forall|j: int| 0 <= j < i as int ==> !((#[trigger] slots@[j]) is Present),
                forall|j: int|
                    0 <= j < i as int ==> ((#[trigger] slots@[j]) matches Slot::Elems(es)
                        ==> es@ == Seq::<V>::empty()),
            decreases n - i,
        {
            match &plan.fields[i].shape {
                FieldShape::Repeated(_, _) => {
                    slots.push(Slot::Elems(Vec::new()));
                },
                _ => {
                    slots.push(Slot::Absent);
                },
            }
            i = i + 1;
        }
        Builder { plan, slots }
    }

    /// Looks up the first field, in declaration order, whose single-value
    /// method is named `method`.
    fn find_single(&self, method: &str) -> (r: Option<usize>)
        ensures
            r matches Some(i) ==> 0 <= (i as int) < self.plan.fields@.len()
                && i as int == first_single_from(self.plan.fields@, method@, 0)
                && is_single_method(self.plan.fields@[i as int], method@),
            r is None <==> first_single_from(self.plan.fields@, method@, 0) == -1,
    {
        let n = self.plan.fields.len();
        let mut i: usize = 0;
        while i < n
            invariant
                n == self.plan.fields@.len(),
                i <= n,
                forall|j: int|
                    0 <= j < i as int ==> !is_single_method(
                        #[trigger] self.plan.fields@[j],
                        method@,
                    ),
            decreases n - i,
        {
            let f = &self.plan.fields[i];
            let hit = match &f.shape {
                FieldShape::Repeated(_, a) => crate::text::str_eq(method, a.as_str()),
                _ => crate::text::str_eq(method, f.name.as_str()),
            };
            if hit {
                proof {
                    lemma_first_single_past_prefix(self.plan.fields@, method@, 0, i as int);
                }
                return Some(i);
            }
            i = i + 1;
        }
        proof {
            lemma_first_single_past_prefix(self.plan.fields@, method@, 0, n as int);
        }
        None
    }

    /// Looks up the first field, in declaration order, whose bulk setter is
    /// named `method`.
    fn find_bulk(&self, method: &str) -> (r: Option<usize>)
        ensures
            r matches Some(i) ==> 0 <= (i as int) < self.plan.fields@.len()
                && i as int == first_bulk_from(self.plan.fields@, method@, 0)
                && is_bulk_method(self.plan.fields@[i as int], method@),
            r is None <==> first_bulk_from(self.plan.fields@, method@, 0) == -1,
    {
        let n = self.plan.fields.len();
        let mut i: usize = 0;
        while i < n
            invariant
                n == self.plan.fields@.len(),
                i <= n,
                forall|j: int|
                    0 <= j < i as int ==> !is_bulk_method(#[trigger] self.plan.fields@[j], method@),
            decreases n - i,
        {
            let f = &self.plan.fields[i];
            let hit = match &f.shape {
                FieldShape::Repeated(_, a) => crate::text::str_eq(method, f.name.as_str())
                    && !crate::text::str_eq(f.name.as_str(), a.as_str()),
                _ => false,
            };
            if hit {
                proof {
                    lemma_first_bulk_past_prefix(self.plan.fields@, method@, 0, i as int);
                }
                return Some(i);
            }
            i = i + 1;
        }
        proof {
            lemma_first_bulk_past_prefix(self.plan.fields@, method@, 0, n as int);
        }
        None
    }

    /// Invokes the single-value method named `method` on the first field
    /// answering to it: a required or optional field's setter stores the
    /// value (overwriting any previous one), a repeated field's accumulator
    /// appends it. With no matching method the builder is untouched.
    pub fn send(&mut self, method: &str, value: V) -> (matched: bool)
        requires
            old(self).wf(),
        ensures
            final(self).wf(),
            final(self).plan == old(self).plan,
            matched <==> first_single_from(old(self).plan.fields@, method@, 0) >= 0,
            !matched ==> *final(self) == *old(self),
            matched ==> ({
                let t = first_single_from(old(self).plan.fields@, method@, 0);
                &&& final(self).slots@.len() == old(self).slots@.len()
                &&& forall|i: int|
                    0 <= i < old(self).slots@.len() && i != t ==> final(self).slots@[i] == old(
                        self,
                    ).slots@[i]
                &&& (old(self).field(t).shape is Repeated ==> (final(self).slots@[t]
                    matches Slot::Elems(es) && es@ == old(self).items(t).push(value)))
                &&& (!(old(self).field(t).shape is Repeated) ==> final(self).slots@[t]
                    == Slot::Present(value))
            }),
    {
        match self.find_single(method) {
            None => false,
            Some(i) => {
                let repeated = match &self.plan.fields[i].shape {
                    FieldShape::Repeated(_, _) => true,
                    _ => false,
                };
                let slot = vstd::std_specs::vec::vec_index_mut(&mut self.slots, i);
                if repeated {
                    match slot {
                        Slot::Elems(es) => {
                            es.push(value);
                        },
                        _ => {
                            proof {
                                assert(false);
                            }
                        },
                    }
                } else {
                    *slot = Slot::Present(value);
                }
                true
            },
        }
    }

    /// Invokes the bulk replace-all setter named `method` on the first field
    /// emitting one: the given sequence replaces the field's accumulated
    /// sequence wholesale, whatever it held. With no matching method the
    /// builder is untouched.
    pub fn send_all(&mut self, method: &str, values: Vec<V>) -> (matched: bool)
        requires
            old(self).wf(),
        ensures
            final(self).wf(),
            final(self).plan == old(self).plan,
            matched <==> first_bulk_from(old(self).plan.fields@, method@, 0) >= 0,
            !matched ==> *final(self) == *old(self),
            matched ==> ({
                let t = first_bulk_from(old(self).plan.fields@, method@, 0);
                &&& final(self).slots@.len() == old(self).slots@.len()
                &&& forall|i: int|
                    0 <= i < old(self).slots@.len() && i != t ==> final(self).slots@[i] == old(
                        self,
                    ).slots@[i]
                &&& (final(self).slots@[t] matches Slot::Elems(es) && es@ == values@)
            }),
    {
        match self.find_bulk(method) {
            None => false,
            Some(i) => {
                let slot = vstd::std_specs::vec::vec_index_mut(&mut self.slots, i);
                *slot = Slot::Elems(values);
                true
            },
        }
    }

    /// The terminal build operation: validates required-field presence and
    /// extracts the record, consuming the builder.
    pub fn build(self) -> (r: Result<Record<V>, MissingField>)
        requires
            self.wf(),
        ensures
            r is Ok <==> self.all_required_filled(),
            r matches Ok(rec) ==> record_extracts(self, rec),
            !self.all_required_filled() ==> (r matches Err(m) && m.field@ == self.field(
                first_missing_from(self.plan.fields@, self.slots@, 0),
            ).name@),
    {
        validate_and_extract(self)
    }
}

/// The round-trip identity between a builder and the record it produces:
/// `rec` reads back exactly the state stored in `b` — per field, a required
/// field's set value, an optional field's value or an explicit absence, a
/// repeated field's accumulated sequence.
pub open spec fn record_extracts<V>(b: Builder<V>, rec: Record<V>) -> bool {
    &&& rec.fields@.len() == b.n_fields()
    &&& forall|i: int| 0 <= i < b.n_fields() ==> (#[trigger] rec.fields@[i]).name == b.field(i).name
    &&& forall|i: int|
        0 <= i < b.n_fields() ==> match (#[trigger] b.field(i)).shape {
            FieldShape::Required(_) => (b.slots@[i] matches Slot::Present(v) && rec.fields@[i].value
                == FieldValue::Single(v)),
            FieldShape::Optional(_) => ((b.slots@[i] matches Slot::Present(v) ==> rec.fields@[i].value
                == FieldValue::Maybe(Some(v))) && (!(b.slots@[i] is Present)
                ==> rec.fields@[i].value == FieldValue::Maybe(Option::<V>::None))),
            FieldShape::Repeated(_, _) => (rec.fields@[i].value matches FieldValue::Many(es) && es@
                == b.items(i)),
        }
}

/// The construction validator: a pure function of the builder state.
/// Required fields are checked in declaration order, so the reported
/// missing field is always the first one in that order; optional fields
/// resolve to an explicit absence; repeated fields resolve to their
/// accumulated sequence, possibly empty.
pub fn validate_and_extract<V>(b: Builder<V>) -> (r: Result<Record<V>, MissingField>)
    requires
        b.wf(),
    ensures
        r is Ok <==> b.all_required_filled(),
        r matches Ok(rec) ==> record_extracts(b, rec),
        !b.all_required_filled() ==> (r matches Err(m) && m.field@ == b.field(
            first_missing_from(b.plan.fields@, b.slots@, 0),
        ).name@),
{
    let ghost gb = b;
    let n = b.plan.fields.len();
    let mut i: usize = 0;
    while i < n
        invariant
            gb == b,
            b.wf(),
            n == b.plan.fields@.len(),
            i <= n,
            forall|j: int|
                0 <= j < i as int ==> !((#[trigger] b.plan.fields@[j].shape) is Required && !(
                b.slots@[j] is Present)),
        decreases n - i,
    {
        let required = match &b.plan.fields[i].shape {
            FieldShape::Required(_) => true,
            _ => false,
        };
        if required {
            let present = match &b.slots[i] {
                Slot::Present(_) => true,
                _ => false,
            };
            if !present {
                proof {
                    lemma_first_missing_past_prefix(b.plan.fields@, b.slots@, 0, i as int);
                }
                return Err(MissingField { field: b.plan.fields[i].name.clone() });
            }
        }
        i = i + 1;
    }
    let Builder { plan, slots } = b;
    let BuilderPlan { fields } = plan;
    let ghost pf = fields@;
    let ghost sl = slots@;
    let mut fields = fields;
    let mut slots = slots;
    let mut out: Vec<RecordField<V>> = Vec::new();
    while fields.len() > 0
        invariant
            gb.plan.fields@ == pf,
            gb.slots@ == sl,
            gb.wf(),
            gb.all_required_filled(),
            pf.len() == sl.len(),
            out@.len() + fields@.len() == pf.len(),
            fields@ =~= pf.subrange(out@.len() as int, pf.len() as int),
            slots@ =~= sl.subrange(out@.len() as int, sl.len() as int),
            forall|j: int|
                0 <= j < out@.len() ==> (#[trigger] out@[j]).name == pf[j].name,
            forall|j: int|
                0 <= j < out@.len() ==> match (#[trigger] pf[j]).shape {
                    FieldShape::Required(_) => (sl[j] matches Slot::Present(v) && out@[j].value
                        == FieldValue::Single(v)),
                    FieldShape::Optional(_) => ((sl[j] matches Slot::Present(v) ==> out@[j].value
                        == FieldValue::Maybe(Some(v))) && (!(sl[j] is Present) ==> out@[j].value
                        == FieldValue::Maybe(Option::<V>::None))),
                    FieldShape::Repeated(_, _) => (out@[j].value matches FieldValue::Many(es) && es@
                        == (match sl[j] {
                        Slot::Elems(es0) => es0@,
                        _ => Seq::empty(),
                    })),
                },
        decreases fields@.len(),
    {
        let ghost idx = out@.len() as int;
        let f = fields.remove(0);
        let s = slots.remove(0);
        proof {
            assert(f == pf[idx]);
            assert(s == sl[idx]);
            assert(gb.field(idx) == pf[idx]);
        }
        let FieldPlan { name, shape } = f;
        let value = match shape {
            FieldShape::Required(_) => match s {
                Slot::Present(v) => FieldValue::Single(v),
                _ => {
                    proof {
                        assert(gb.field(idx).shape is Required && !gb.filled(idx));
                        assert(false);
                    }
                    FieldValue::Maybe(Option::None)
                },
            },
            FieldShape::Optional(_) => match s {
                Slot::Present(v) => FieldValue::Maybe(Option::Some(v)),
                Slot::Absent => FieldValue::Maybe(Option::None),
                Slot::Elems(_) => {
                    proof {
                        assert(false);
                    }
                    FieldValue::Maybe(Option::None)
                },
            },
            FieldShape::Repeated(_, _) => match s {
                Slot::Elems(es) => FieldValue::Many(es),
                _ => {
                    proof {
                        assert(false);
                    }
                    FieldValue::Many(Vec::new())
                },
            },
        };
        out.push(RecordField { name, value });
    }
    Ok(Record { fields: out })
}

/// For a schema with only required fields the construction validator
/// succeeds exactly when every field's slot holds a value; a slot holds a
/// value exactly when the field's setter ran at least once, since every
/// slot starts absent and only the field's setter stores into it.
pub proof fn law_all_required_build<V>(b: Builder<V>)
    requires
        b.wf(),
        forall|i: int| 0 <= i < b.n_fields() ==> (#[trigger] b.field(i).shape) is Required,
    ensures
        b.all_required_filled() <==> forall|i: int| 0 <= i < b.n_fields() ==> b.filled(i),
{
    if b.all_required_filled() {
        assert forall|i: int| 0 <= i < b.n_fields() implies b.filled(i) by {
            assert((b.field(i).shape) is Required);
        }
    }
}

proof fn lemma_first_missing_found<V>(
    fields: Seq<FieldPlan>,
    slots: Seq<Slot<V>>,
    k: int,
    i: int,
)
    requires
        0 <= k <= i < fields.len(),
        fields[i].shape is Required,
        !(slots[i] is Present),
    ensures
        ({
            let f = first_missing_from(fields, slots, k);
            &&& k <= f <= i
            &&& fields[f].shape is Required && !(slots[f] is Present)
            &&& forall|j: int|
                k <= j < f ==> !((#[trigger] fields[j]).shape is Required && !(slots[j]
                    is Present))
        }),
    decreases i - k,
{
    if !(fields[k].shape is Required && !(slots[k] is Present)) {
        lemma_first_missing_found(fields, slots, k + 1, i);
    }
}

/// Missing-field reporting is deterministic: whatever set of required
/// fields is still unfilled, the reported index is the first one in
/// declaration order — every field before it is either not required or
/// already filled.
pub proof fn law_first_missing_deterministic<V>(b: Builder<V>, i: int)
    requires
        b.wf(),
        0 <= i < b.n_fields(),
        b.field(i).shape is Required,
        !b.filled(i),
    ensures
        ({
            let f = first_missing_from(b.plan.fields@, b.slots@, 0);
            &&& 0 <= f <= i
            &&& b.field(f).shape is Required && !b.filled(f)
            &&& forall|j: int|
                0 <= j < f ==> !((#[trigger] b.field(j).shape) is Required && !b.filled(j))
        }),
{
    lemma_first_missing_found(b.plan.fields@, b.slots@, 0, i);
}

/// An optional field that was never set resolves to an explicit absence in
/// the constructed record.
pub proof fn law_unset_optional_absent<V>(b: Builder<V>, rec: Record<V>, i: int)
    requires
        b.wf(),
        record_extracts(b, rec),
        0 <= i < b.n_fields(),
        b.field(i).shape is Optional,
        !b.filled(i),
    ensures
        rec.fields@[i].value == FieldValue::Maybe(Option::<V>::None),
{
}

/// An optional field never blocks construction: success depends on the
/// required fields alone.
pub proof fn law_optional_never_blocks<V>(b: Builder<V>)
    requires
        b.wf(),
        forall|i: int|
            0 <= i < b.n_fields() ==> ((#[trigger] b.field(i).shape) is Required ==> b.filled(i)),
    ensures
        b.all_required_filled(),
{
}

/// Iterated accumulation: pushing each value of `vs` in turn onto `init`.
pub open spec fn accumulated<V>(init: Seq<V>, vs: Seq<V>) -> Seq<V>
    decreases vs.len(),
{
    if vs.len() == 0 {
        init
    } else {
        accumulated(init.push(vs[0]), vs.drop_first())
    }
}

proof fn lemma_accumulated_appends<V>(init: Seq<V>, vs: Seq<V>)
    ensures
        accumulated(init, vs) == init + vs,
    decreases vs.len(),
{
    if vs.len() == 0 {
        assert(init + vs =~= init);
    } else {
        lemma_accumulated_appends(init.push(vs[0]), vs.drop_first());
        assert(init.push(vs[0]) + vs.drop_first() =~= init + vs);
    }
}

/// Accumulator calls preserve call order: calling a repeated field's
/// accumulator once per value of `vs`, starting from the empty sequence a
/// fresh builder holds, leaves exactly `vs`, in call order. Each `send`
/// that hits the accumulator takes the field's items from `e` to
/// `e.push(v)`, so `n` calls compute `accumulated` of the empty sequence.
pub proof fn law_accumulator_order<V>(vs: Seq<V>)
    ensures
        accumulated(Seq::<V>::empty(), vs) == vs,
{
    lemma_accumulated_appends(Seq::<V>::empty(), vs);
    assert(Seq::<V>::empty() + vs =~= vs);
}

} // verus!

//! Decoding a tagged message body against one variant set, and translating a
//! decoded message into the call it dispatches to.

use vstd::prelude::*;
use crate::diag::Diagnostic;
use crate::ops::spec_contract_only;
use crate::value::{body_views, value_views, PayloadField, TopEntry, Value, ValueView};
use crate::variant::MsgVariant;
use crate::variants::MsgVariants;

verus! {

/// A constructed message: one variant of a set, with one value per field.
#[derive(Debug)]
pub struct VariantMsg {
    /// The index of the variant within its set's declaration order.
    pub idx: usize,
    /// The field values, in declared field order.
    pub values: Vec<Value>,
}

/// The call a decoded message dispatches to.
#[derive(Debug)]
pub struct VariantCall {
    /// The method the originating variant was extracted from.
    pub function_name: String,
    /// The arguments, in declared field order.
    pub args: Vec<Value>,
}

/// Why a tagged body failed to decode against a variant set.
#[derive(Debug)]
pub enum DecodeError {
    /// The key matches no variant's wire name.
    UnknownVariant { key: String },
    /// A declared field has no entry in the body.
    MissingField { field: String },
}

/// The index of the first variant whose wire name is `key`.
pub open spec fn spec_find_variant(vs: Seq<MsgVariant>, key: Seq<char>) -> Option<int>
    decreases vs.len(),
{
    if vs.len() == 0 {
        None
    } else if vs[0].snake_name@ == key {
        Some(0int)
    } else {
        match spec_find_variant(vs.skip(1), key) {
            Some(i) => Some(i + 1),
            None => None,
        }
    }
}

/// The index of the first body entry named `name`.
pub open spec fn spec_find_field(fields: Seq<(Seq<char>, ValueView)>, name: Seq<char>) -> Option<
    int,
>
    decreases fields.len(),
{
    if fields.len() == 0 {
        None
    } else if fields[0].0 == name {
        Some(0int)
    } else {
        match spec_find_field(fields.skip(1), name) {
            Some(i) => Some(i + 1),
            None => None,
        }
    }
}

/// The declared field names of a variant, in order.
pub open spec fn field_names(v: MsgVariant) -> Seq<Seq<char>> {
    v.fields@.map_values(|f: crate::variant::MsgField| f.name@)
}

/// Binds each declared name to the first body entry carrying it, in declared
/// order; the first name without an entry is the error.
pub open spec fn spec_bind(
    declared: Seq<Seq<char>>,
    fields: Seq<(Seq<char>, ValueView)>,
) -> Result<Seq<ValueView>, Seq<char>>
    decreases declared.len(),
{
    if declared.len() == 0 {
        Ok(Seq::empty())
    } else {
        match spec_find_field(fields, declared[0]) {
            None => Err(declared[0]),
            Some(k) => match spec_bind(declared.skip(1), fields) {
                Ok(rest) => Ok(seq![fields[k].1] + rest),
                Err(e) => Err(e),
            },
        }
    }
}

/// What decoding a tagged body against a variant set yields.
pub enum SpecDecoded {
    /// The key named this variant, and the body bound these values.
    Hit { idx: int, values: Seq<ValueView> },
    /// The key names no variant of the set.
    NoVariant,
    /// This declared field is missing from the body.
    NoField { field: Seq<char> },
}

/// The decoding of a tagged body against a variant set.
pub open spec fn spec_decode(
    vs: Seq<MsgVariant>,
    key: Seq<char>,
    fields: Seq<(Seq<char>, ValueView)>,
) -> SpecDecoded {
    match spec_find_variant(vs, key) {
        None => SpecDecoded::NoVariant,
        Some(j) => match spec_bind(field_names(vs[j]), fields) {
            Ok(values) => SpecDecoded::Hit { idx: j, values },
            Err(f) => SpecDecoded::NoField { field: f },
        },
    }
}

/// The body a constructed message encodes to: each declared field name against
/// the corresponding value, in declared order.
pub open spec fn spec_encode_body(v: MsgVariant, values: Seq<Value>) -> Seq<
    (Seq<char>, ValueView),
> {
    Seq::new(v.fields@.len(), |i: int| (v.fields@[i].name@, values[i]@))
}

pub proof fn lemma_find_variant_first(vs: Seq<MsgVariant>, key: Seq<char>)
    ensures
        match spec_find_variant(vs, key) {
            Some(i) => 0 <= i < vs.len() && vs[i].snake_name@ == key && forall|j: int|
                0 <= j < i ==> (#[trigger] vs[j]).snake_name@ != key,
            None => forall|j: int| 0 <= j < vs.len() ==> (#[trigger] vs[j]).snake_name@ != key,
        },
    decreases vs.len(),
{
    if vs.len() > 0 && vs[0].snake_name@ != key {
        let rest = vs.skip(1);
        lemma_find_variant_first(rest, key);
        match spec_find_variant(vs, key) {
            Some(i) => {
                assert(rest[i - 1] == vs[i]);
                assert forall|j: int| 0 <= j < i implies (#[trigger] vs[j]).snake_name@ != key by {
                    if j > 0 {
                        assert(rest[j - 1] == vs[j]);
                    }
                }
            },
            None => {
                assert forall|j: int| 0 <= j < vs.len() implies (#[trigger] vs[j]).snake_name@
                    != key by {
                    if j > 0 {
                        assert(rest[j - 1] == vs[j]);
                    }
                }
            },
        }
    }
}

pub proof fn lemma_find_field_first(fields: Seq<(Seq<char>, ValueView)>, name: Seq<char>)
    ensures
        match spec_find_field(fields, name) {
            Some(i) => 0 <= i < fields.len() && fields[i].0 == name && forall|j: int|
                0 <= j < i ==> (#[trigger] fields[j]).0 != name,
            None => forall|j: int| 0 <= j < fields.len() ==> (#[trigger] fields[j]).0 != name,
        },
    decreases fields.len(),
{
    if fields.len() > 0 && fields[0].0 != name {
        let rest = fields.skip(1);
        lemma_find_field_first(rest, name);
        match spec_find_field(fields, name) {
            Some(i) => {
                assert(rest[i - 1] == fields[i]);
                assert forall|j: int| 0 <= j < i implies (#[trigger] fields[j]).0 != name by {
                    if j > 0 {
                        assert(rest[j - 1] == fields[j]);
                    }
                }
            },
            None => {
                assert forall|j: int| 0 <= j < fields.len() implies (#[trigger] fields[j]).0
                    != name by {
                    if j > 0 {
                        assert(rest[j - 1] == fields[j]);
                    }
                }
            },
        }
    }
}

/// Finds the first variant whose wire name is `key`.
fn find_variant(vs: &Vec<MsgVariant>, key: &String) -> (r: Option<usize>)
    ensures
        match r {
            Some(i) => i < vs@.len() && spec_find_variant(vs@, key@) == Some(i as int),
            None => spec_find_variant(vs@, key@) is None,
        },
{
    proof {
        lemma_find_variant_first(vs@, key@);
    }
    let mut i: usize = 0;
    while i < vs.len()
        invariant
            i <= vs@.len(),
            forall|j: int| 0 <= j < i ==> (#[trigger] vs@[j]).snake_name@ != key@,
            match spec_find_variant(vs@, key@) {
                Some(k) => 0 <= k < vs@.len() && vs@[k].snake_name@ == key@ && forall|j: int|
                    0 <= j < k ==> (#[trigger] vs@[j]).snake_name@ != key@,
                None => forall|j: int| 0 <= j < vs@.len() ==> (#[trigger] vs@[j]).snake_name@
                    != key@,
            },
        decreases vs@.len() - i,
    {
        if vs[i].snake_name.eq(key) {
            proof {
                match spec_find_variant(vs@, key@) {
                    Some(k) => {
                        if k < i {
                        } else if k > i {
                            assert(vs@[i as int].snake_name@ != key@);
                        }
                    },
                    None => {
                        assert(vs@[i as int].snake_name@ != key@);
                    },
                }
            }
            return Some(i);
        }
        i = i + 1;
    }
    None
}

/// Finds the first body entry named `name`.
fn find_field(body: &Vec<PayloadField>, name: &String) -> (r: Option<usize>)
    ensures
        match r {
            Some(i) => i < body@.len() && spec_find_field(body_views(body@), name@) == Some(
                i as int,
            ),
            None => spec_find_field(body_views(body@), name@) is None,
        },
{
    proof {
        lemma_find_field_first(body_views(body@), name@);
    }
    let ghost fields = body_views(body@);
    let mut i: usize = 0;
    while i < body.len()
        invariant
            i <= body@.len(),
            fields == body_views(body@),
            forall|j: int| 0 <= j < i ==> (#[trigger] fields[j]).0 != name@,
            match spec_find_field(fields, name@) {
                Some(k) => 0 <= k < fields.len() && fields[k].0 == name@ && forall|j: int|
                    0 <= j < k ==> (#[trigger] fields[j]).0 != name@,
                None => forall|j: int| 0 <= j < fields.len() ==> (#[trigger] fields[j]).0 != name@,
            },
        decreases body@.len() - i,
    {
        if body[i].name.eq(name) {
            proof {
                assert(fields[i as int].0 == name@);
                match spec_find_field(fields, name@) {
                    Some(k) => {
                        if k < i {
                        } else if k > i {
                            assert(fields[i as int].0 != name@);
                        }
                    },
                    None => {
                        assert(fields[i as int].0 != name@);
                    },
                }
            }
            return Some(i);
        }
        i = i + 1;
    }
    None
}

/// Decodes a tagged body against the set: picks the variant the key names and
/// binds every declared field, in order, to the first body entry carrying its
/// name; entries no declared field names are ignored.
pub fn decode_variant(vs: &MsgVariants, key: &String, body: &Vec<PayloadField>) -> (r: Result<
    VariantMsg,
    DecodeError,
>)
    ensures
        match r {
            Ok(m) => {
                &&& m.idx < vs.variants@.len()
                &&& spec_decode(vs.variants@, key@, body_views(body@)) == SpecDecoded::Hit {
                    idx: m.idx as int,
                    values: value_views(m.values@),
                }
            },
            Err(DecodeError::UnknownVariant { key: k }) => {
                &&& k@ == key@
                &&& spec_decode(vs.variants@, key@, body_views(body@)) is NoVariant
            },
            Err(DecodeError::MissingField { field }) => spec_decode(
                vs.variants@,
                key@,
                body_views(body@),
            ) == (SpecDecoded::NoField { field: field@ }),
        },
{
    let ghost fields = body_views(body@);
    let j = match find_variant(&vs.variants, key) {
        Some(j) => j,
        None => {
            return Err(DecodeError::UnknownVariant { key: key.clone() });
        },
    };
    let variant = &vs.variants[j];
    let ghost declared = field_names(*variant);
    proof {
        assert(declared.skip(0) =~= declared);
        if spec_bind(declared, fields) is Ok {
            lemma_bind_len(declared, fields);
        }
    }
    let mut values: Vec<Value> = Vec::new();
    let mut i: usize = 0;
    while i < variant.fields.len()
        invariant
            i <= variant.fields@.len(),
            variant == &vs.variants@[j as int],
            j < vs.variants@.len(),
            spec_find_variant(vs.variants@, key@) == Some(j as int),
            declared == field_names(*variant),
            fields == body_views(body@),
            values@.len() == i,
            spec_bind(declared, fields) matches Ok(bound) ==> {
                &&& bound.len() == declared.len()
                &&& forall|k: int| 0 <= k < i ==> (#[trigger] values@[k])@ == bound[k]
            },
            (forall|k: int| 0 <= k < i ==> spec_find_field(fields, #[trigger] declared[k]) is Some),
            spec_bind(declared.skip(i as int), fields) is Ok ==> spec_bind(declared, fields) is Ok,
            spec_bind(declared.skip(i as int), fields) matches Err(f) ==> spec_bind(
                declared,
                fields,
            ) == Err::<Seq<ValueView>, Seq<char>>(f),
        decreases variant.fields@.len() - i,
    {
        let ghost rest = declared.skip(i as int);
        assert(rest[0] == declared[i as int]);
        match find_field(body, &variant.fields[i].name) {
            Some(k) => {
                values.push(body[k].value.duplicate());
                proof {
                    assert(rest.skip(1) =~= declared.skip(i + 1));
                    if spec_bind(declared, fields) is Ok {
                        let bound = spec_bind(declared, fields)->Ok_0;
                        lemma_bind_index(declared, fields, i as int);
                        assert(bound[i as int] == fields[k as int].1);
                        assert(fields[k as int].1 == body@[k as int].value@);
                    }
                }
            },
            None => {
                proof {
                    assert(vs.variants@[j as int] == *variant);
                    assert(declared == field_names(vs.variants@[j as int]));
                    assert(declared[i as int] == variant.fields@[i as int].name@);
                    assert(spec_bind(rest, fields) == Err::<Seq<ValueView>, Seq<char>>(
                        declared[i as int],
                    ));
                    assert(spec_bind(declared, fields) == Err::<Seq<ValueView>, Seq<char>>(
                        declared[i as int],
                    ));
                    assert(spec_decode(vs.variants@, key@, fields) == (SpecDecoded::NoField {
                        field: declared[i as int],
                    }));
                }
                return Err(DecodeError::MissingField { field: variant.fields[i].name.clone() });
            },
        }
        i = i + 1;
    }
    proof {
        assert(declared.skip(declared.len() as int) =~= Seq::<Seq<char>>::empty());
        assert(spec_bind(declared, fields) is Ok);
        let bound = spec_bind(declared, fields)->Ok_0;
        assert(value_views(values@) =~= bound);
    }
    Ok(VariantMsg { idx: j, values })
}

/// Within a successful binding, the value bound for the `i`-th declared name
/// is the body entry its first occurrence points at.
pub proof fn lemma_bind_index(
    declared: Seq<Seq<char>>,
    fields: Seq<(Seq<char>, ValueView)>,
    i: int,
)
    requires
        0 <= i < declared.len(),
        spec_bind(declared, fields) is Ok,
    ensures
        spec_bind(declared, fields) matches Ok(bound) ==> bound.len() == declared.len(),
        spec_bind(declared, fields) matches Ok(bound) ==> (spec_find_field(
            fields,
            declared[i],
        ) matches Some(k) && bound[i] == fields[k].1),
    decreases declared.len(),
{
    let rest = declared.skip(1);
    if i == 0 {
        lemma_bind_len(rest, fields);
    } else {
        lemma_bind_index(rest, fields, i - 1);
        assert(rest[i - 1] == declared[i]);
    }
}

/// A successful binding binds one value per declared name.
pub proof fn lemma_bind_len(declared: Seq<Seq<char>>, fields: Seq<(Seq<char>, ValueView)>)
    requires
        spec_bind(declared, fields) is Ok,
    ensures
        spec_bind(declared, fields) matches Ok(bound) ==> bound.len() == declared.len(),
    decreases declared.len(),
{
    if declared.len() > 0 {
        lemma_bind_len(declared.skip(1), fields);
    }
}

/// Builds the message for the variant at `idx` from one value per field; the
/// generated enum offers one such constructor per variant, named after it.
pub fn construct(vs: &MsgVariants, idx: usize, values: Vec<Value>) -> (r: VariantMsg)
    requires
        idx < vs.variants@.len(),
        values@.len() == vs.variants@[idx as int].fields@.len(),
    ensures
        r.idx == idx,
        r.values == values,
{
    VariantMsg { idx, values }
}

/// Builds the message whose constructor carries the given wire name, handing
/// one value per field; fails on an unknown name or a wrong value count.
pub fn construct_named(vs: &MsgVariants, name: &String, values: Vec<Value>) -> (r: Option<
    VariantMsg,
>)
    ensures
        match r {
            Some(m) => {
                &&& spec_find_variant(vs.variants@, name@) == Some(m.idx as int)
                &&& m.values == values
                &&& values@.len() == vs.variants@[m.idx as int].fields@.len()
            },
            None => spec_find_variant(vs.variants@, name@) is None || (spec_find_variant(
                vs.variants@,
                name@,
            ) matches Some(j) && values@.len() != vs.variants@[j].fields@.len()),
        },
{
    match find_variant(&vs.variants, name) {
        Some(j) => {
            proof {
                lemma_find_variant_first(vs.variants@, name@);
            }
            if values.len() == vs.variants[j].fields.len() {
                Some(VariantMsg { idx: j, values })
            } else {
                None
            }
        },
        None => None,
    }
}

/// Encodes a constructed message as its tagged wire form: the variant's wire
/// name as the single key, and one named entry per field, in declared order.
pub fn encode(vs: &MsgVariants, m: VariantMsg) -> (r: TopEntry)
    requires
        m.idx < vs.variants@.len(),
        m.values@.len() == vs.variants@[m.idx as int].fields@.len(),
    ensures
        r.key@ == vs.variants@[m.idx as int].snake_name@,
        body_views(r.body@) == spec_encode_body(vs.variants@[m.idx as int], m.values@),
{
    let variant = &vs.variants[m.idx];
    let key = variant.snake_name.clone();
    let mut body: Vec<PayloadField> = Vec::new();
    let mut values = m.values;
    let mut i: usize = 0;
    while i < values.len()
        invariant
            i <= values@.len(),
            values@.len() == variant.fields@.len(),
            variant == &vs.variants@[m.idx as int],
            m.idx < vs.variants@.len(),
            body@.len() == i,
            forall|k: int| 0 <= k < i ==> {
                &&& (#[trigger] body@[k]).name@ == variant.fields@[k].name@
                &&& body@[k].value@ == values@[k]@
            },
        decreases values@.len() - i,
    {
        let entry = PayloadField {
            name: variant.fields[i].name.clone(),
            value: values[i].duplicate(),
        };
        body.push(entry);
        i = i + 1;
    }
    proof {
        assert(body_views(body@) =~= spec_encode_body(vs.variants@[m.idx as int], values@));
    }
    TopEntry { key, body }
}

/// Translates a decoded message into the call it dispatches to: the
/// originating method, with the bound values as arguments in field order.
pub fn dispatch_variant(vs: &MsgVariants, m: VariantMsg) -> (r: VariantCall)
    requires
        m.idx < vs.variants@.len(),
    ensures
        r.function_name@ == vs.variants@[m.idx as int].function_name@,
        r.args == m.values,
{
    VariantCall { function_name: vs.variants[m.idx].function_name.clone(), args: m.values }
}

/// Pairwise-distinct names.
pub open spec fn unique_names(ns: Seq<Seq<char>>) -> bool {
    forall|p: int, q: int| 0 <= p < q < ns.len() ==> ns[p] != ns[q]
}

proof fn lemma_bind_encoded(v: MsgVariant, values: Seq<Value>, t: int)
    requires
        values.len() == v.fields@.len(),
        unique_names(field_names(v)),
        0 <= t <= v.fields@.len(),
    ensures
        spec_bind(field_names(v).skip(t), spec_encode_body(v, values)) == Ok::<
            Seq<ValueView>,
            Seq<char>,
        >(value_views(values).skip(t)),
    decreases v.fields@.len() - t,
{
    let names = field_names(v);
    let body = spec_encode_body(v, values);
    let rest = names.skip(t);
    if t == names.len() {
        assert(rest.len() == 0);
        assert(value_views(values).skip(t) =~= Seq::<ValueView>::empty());
    } else {
        assert(rest[0] == names[t]);
        lemma_find_field_first(body, names[t]);
        assert(body[t].0 == names[t]);
        match spec_find_field(body, names[t]) {
            Some(k) => {
                assert(k <= t);
                if k < t {
                    assert(body[k].0 == names[k]);
                    assert(names[k] == names[t]);
                    assert(false);
                }
                assert(body[t].1 == values[t]@);
                lemma_bind_encoded(v, values, t + 1);
                assert(rest.skip(1) =~= names.skip(t + 1));
                assert(seq![body[t].1] + value_views(values).skip(t + 1) =~= value_views(
                    values,
                ).skip(t));
            },
            None => {
                assert(false);
            },
        }
    }
}

/// Round-trip correctness of the variant set builder and dispatcher pair:
/// encoding a constructed message and decoding the wire form back through the
/// same variant set hits the same variant with the same field values, provided
/// the set's wire names and the variant's field names are pairwise distinct —
/// which holds of every set built from one trait or impl, where method and
/// argument names are unique by the host language's own rules.
pub proof fn lemma_round_trip(vs: Seq<MsgVariant>, idx: int, values: Seq<Value>)
    requires
        0 <= idx < vs.len(),
        values.len() == vs[idx].fields@.len(),
        unique_names(crate::variants::snake_names(vs)),
        unique_names(field_names(vs[idx])),
    ensures
        spec_decode(vs, vs[idx].snake_name@, spec_encode_body(vs[idx], values))
            == (SpecDecoded::Hit { idx, values: value_views(values) }),
{
    let key = vs[idx].snake_name@;
    let names = crate::variants::snake_names(vs);
    lemma_find_variant_first(vs, key);
    match spec_find_variant(vs, key) {
        Some(k) => {
            assert(k <= idx);
            if k < idx {
                assert(names[k] == vs[k].snake_name@);
                assert(names[idx] == vs[idx].snake_name@);
                assert(false);
            }
        },
        None => {
            assert(false);
        },
    }
    lemma_bind_encoded(vs[idx], values, 0);
    assert(field_names(vs[idx]).skip(0) =~= field_names(vs[idx]));
    assert(value_views(values).skip(0) =~= value_views(values));
}

/// The match arm behind the phantom variant, where the set carries one: the
/// phantom exists only to thread unused generic parameters through the type
/// system, is excluded from the wire-format name table, and dispatching it is
/// a routing error.
pub fn emit_phantom_match_arm(vs: &MsgVariants) -> (r: Option<String>)
    ensures
        match r {
            Some(m) => vs.used_generics@.len() > 0 && m@
                == "Phantom message should not be constructed."@,
            None => vs.used_generics@.len() == 0,
        },
{
    if vs.has_phantom() {
        let mut s = String::new();
        s.append("Phantom message should not be constructed.");
        assert(s@ =~= "Phantom message should not be constructed."@);
        Some(s)
    } else {
        None
    }
}

/// The dispatch legs of an interface trait's variant set: Instantiate, Reply,
/// Migrate and Sudo variants may not appear there, and each one is reported.
pub fn interface_dispatch_legs(vs: &MsgVariants) -> (r: Result<(), Vec<Diagnostic>>)
    ensures
        r is Ok <==> !(spec_contract_only(vs.msg_ty) && vs.variants@.len() > 0),
        r matches Err(ds) ==> ds@.len() == vs.variants@.len() && forall|k: int|
            0 <= k < ds@.len() ==> (#[trigger] ds@[k]).message@
                == "Instantiation, Reply, Migrate and Sudo messages not supported on traits, they should be defined on contracts directly"@,
{
    if !vs.msg_ty.contract_only() || vs.variants.len() == 0 {
        return Ok(());
    }
    let mut diags: Vec<Diagnostic> = Vec::new();
    let mut i: usize = 0;
    while i < vs.variants.len()
        invariant
            i <= vs.variants@.len(),
            diags@.len() == i,
            forall|k: int| 0 <= k < i ==> (#[trigger] diags@[k]).message@
                == "Instantiation, Reply, Migrate and Sudo messages not supported on traits, they should be defined on contracts directly"@,
        decreases vs.variants@.len() - i,
    {
        diags.push(
            Diagnostic::new(
                "Instantiation, Reply, Migrate and Sudo messages not supported on traits, they should be defined on contracts directly",
                &vs.variants[i].name,
            ),
        );
        i = i + 1;
    }
    Err(diags)
}

} // verus!

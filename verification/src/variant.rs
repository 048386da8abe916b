//! The signature extractor: reconstructing one message variant from the
//! logical shape of one annotated method.

use vstd::prelude::*;
use crate::OpKind;
use crate::casing::{camel_of, snake_of, to_snake, to_upper_camel};
use crate::diag::Diagnostic;

verus! {

/// How an argument binds its value.
#[derive(Clone, Debug)]
pub enum ArgPattern {
    /// A plain name; the only form a message field can be derived from.
    Ident(String),
    /// A destructuring pattern; no field name can be derived from it.
    Pattern,
}

/// One argument of an annotated method, after the receiver is stripped; the
/// type is recorded together with the generic parameters it references.
#[derive(Clone, Debug)]
pub struct MethodArg {
    pub pat: ArgPattern,
    pub ty: String,
    pub mentions: Vec<String>,
}

/// The logical shape of one annotated method. The first argument is the
/// context argument; it never becomes a message field.
#[derive(Clone, Debug)]
pub struct MethodDesc {
    /// The method's snake_case name.
    pub name: String,
    /// The operation kind its annotation assigns.
    pub kind: OpKind,
    /// All arguments but the receiver; `args[0]` is the context.
    pub args: Vec<MethodArg>,
    /// The type a successful call resolves to.
    pub ret_ty: String,
    /// Generic parameters referenced by the return type.
    pub ret_mentions: Vec<String>,
    /// An explicit response-type override on a query annotation.
    pub resp_ty: Option<String>,
    /// Generic parameters referenced by the override.
    pub resp_mentions: Vec<String>,
}

/// One named field of a message variant.
#[derive(Clone, Debug)]
pub struct MsgField {
    pub name: String,
    pub ty: String,
    pub mentions: Vec<String>,
}

/// One case of a generated message enum.
#[derive(Clone, Debug)]
pub struct MsgVariant {
    /// The display name: the UpperCamel rendering of the method name.
    pub name: String,
    /// The originating method's name; dispatch calls it.
    pub function_name: String,
    /// The wire-level name: the snake_case rendering of the display name.
    pub snake_name: String,
    /// The message fields, in argument order.
    pub fields: Vec<MsgField>,
    /// The operation kind the variant belongs to.
    pub msg_type: OpKind,
    /// For a query, the response type: the override if one was given,
    /// otherwise the type taken from the method's return type.
    pub return_type: Option<String>,
    /// Generic parameters referenced by the response type.
    pub return_mentions: Vec<String>,
}

impl MsgField {
    /// The field's name.
    pub fn name(&self) -> (r: &String)
        ensures
            r == &self.name,
    {
        &self.name
    }
}

impl MsgVariant {
    /// The variant's display name.
    pub fn name(&self) -> (r: &String)
        ensures
            r == &self.name,
    {
        &self.name
    }

    /// The names of the variant's fields, in declared order.
    pub fn as_fields_names(&self) -> (r: Vec<String>)
        ensures
            r@.len() == self.fields@.len(),
            forall|i: int| 0 <= i < r@.len() ==> (#[trigger] r@[i])@ == self.fields@[i].name@,
    {
        let mut names: Vec<String> = Vec::new();
        let mut i: usize = 0;
        while i < self.fields.len()
            invariant
                i <= self.fields@.len(),
                names@.len() == i,
                forall|k: int| 0 <= k < i ==> (#[trigger] names@[k])@ == self.fields@[k].name@,
            decreases self.fields@.len() - i,
        {
            names.push(self.fields[i].name.clone());
            i = i + 1;
        }
        names
    }
}

/// The arguments of a method that become message fields: everything after the
/// context argument that binds a plain name.
pub open spec fn spec_msg_args(args: Seq<MethodArg>) -> Seq<MethodArg> {
    args.skip(1).filter(|a: MethodArg| a.pat is Ident)
}

/// The field list `fields` is the one extracted from `args`.
pub open spec fn fields_match_args(fields: Seq<MsgField>, args: Seq<MethodArg>) -> bool {
    let kept = spec_msg_args(args);
    &&& fields.len() == kept.len()
    &&& forall|i: int| 0 <= i < fields.len() ==> {
        &&& (#[trigger] fields[i]).name@ == kept[i].pat->0@
        &&& fields[i].ty@ == kept[i].ty@
        &&& fields[i].mentions@ == kept[i].mentions@
    }
}

/// The variant `v` is exactly what the signature extractor derives from `m`.
pub open spec fn is_extracted(v: MsgVariant, m: MethodDesc) -> bool {
    &&& v.function_name@ == m.name@
    &&& v.name@ == camel_of(m.name@)
    &&& v.snake_name@ == snake_of(camel_of(m.name@))
    &&& v.msg_type == m.kind
    &&& fields_match_args(v.fields@, m.args@)
    &&& if m.kind == OpKind::Query {
        match m.resp_ty {
            Some(t) => {
                &&& v.return_type matches Some(r) && r@ == t@
                &&& v.return_mentions@ == m.resp_mentions@
            },
            None => {
                &&& v.return_type matches Some(r) && r@ == m.ret_ty@
                &&& v.return_mentions@ == m.ret_mentions@
            },
        }
    } else {
        v.return_type is None && v.return_mentions@ == Seq::<String>::empty()
    }
}

/// Scans the method arguments after the context argument and keeps one field
/// per plainly named argument; a destructuring pattern yields a diagnostic
/// instead of a field, and the remaining arguments are still processed.
pub fn process_fields(args: &Vec<MethodArg>, origin: &String) -> (r: (Vec<MsgField>, Vec<
    Diagnostic,
>))
    requires
        args@.len() >= 1,
    ensures
        fields_match_args(r.0@, args@),
        r.1@.len() == args@.skip(1).len() - spec_msg_args(args@).len(),
        forall|i: int| 0 <= i < r.1@.len() ==> {
            &&& (#[trigger] r.1@[i]).message@ == "Expected argument name, pattern occurred"@
            &&& r.1@[i].origin@ == origin@
        },
{
    let ghost keep = |a: MethodArg| a.pat is Ident;
    let mut fields: Vec<MsgField> = Vec::new();
    let mut diags: Vec<Diagnostic> = Vec::new();
    let mut i: usize = 1;
    proof {
        assert(args@.subrange(1, 1).filter(keep) =~= Seq::<MethodArg>::empty());
    }
    while i < args.len()
        invariant
            1 <= i <= args.len(),
            fields_match_args(fields@, args@.subrange(0, i as int)),
            fields@.len() == args@.subrange(1, i as int).filter(
                |a: MethodArg| a.pat is Ident,
            ).len(),
            diags@.len() == (i - 1) - fields@.len(),
            forall|k: int| 0 <= k < diags@.len() ==> {
                &&& (#[trigger] diags@[k]).message@ == "Expected argument name, pattern occurred"@
                &&& diags@[k].origin@ == origin@
            },
        decreases args.len() - i,
    {
        let ghost prefix = args@.subrange(1, i as int);
        let ghost kept_prefix = prefix.filter(keep);
        match &args[i].pat {
            ArgPattern::Ident(n) => {
                let f = MsgField {
                    name: n.clone(),
                    ty: args[i].ty.clone(),
                    mentions: args[i].mentions.clone(),
                };
                fields.push(f);
            },
            ArgPattern::Pattern => {
                diags.push(Diagnostic::new("Expected argument name, pattern occurred", origin));
            },
        }
        proof {
            let next = args@.subrange(1, i + 1);
            assert(next.drop_last() =~= prefix);
            assert(next.last() == args@[i as int]);
            reveal_with_fuel(Seq::filter, 2);
            if keep(args@[i as int]) {
                assert(next.filter(keep) =~= kept_prefix.push(args@[i as int]));
            } else {
                assert(next.filter(keep) =~= kept_prefix);
            }
            assert(args@.subrange(0, i + 1).skip(1) =~= next);
            assert(args@.subrange(0, i as int).skip(1) =~= prefix);
        }
        i = i + 1;
    }
    proof {
        assert(args@.subrange(0, args@.len() as int) =~= args@);
        assert(args@.subrange(1, args@.len() as int) =~= args@.skip(1));
    }
    (fields, diags)
}

/// Derives one message variant from one annotated method: the display name,
/// the wire name, the field list, and — for a query — the response type.
pub fn extract_variant(m: &MethodDesc) -> (r: (MsgVariant, Vec<Diagnostic>))
    requires
        m.args@.len() >= 1,
    ensures
        is_extracted(r.0, *m),
        r.1@.len() == m.args@.skip(1).len() - spec_msg_args(m.args@).len(),
        forall|i: int| 0 <= i < r.1@.len() ==> {
            &&& (#[trigger] r.1@[i]).message@ == "Expected argument name, pattern occurred"@
            &&& r.1@[i].origin@ == m.name@
        },
{
    let name = to_upper_camel(&m.name);
    let snake_name = to_snake(&name);
    let (fields, diags) = process_fields(&m.args, &m.name);
    let (return_type, return_mentions): (Option<String>, Vec<String>) = if matches!(
        m.kind,
        OpKind::Query,
    ) {
        match &m.resp_ty {
            Some(t) => (Some(t.clone()), m.resp_mentions.clone()),
            None => (Some(m.ret_ty.clone()), m.ret_mentions.clone()),
        }
    } else {
        (None, Vec::new())
    };
    let v = MsgVariant {
        name,
        function_name: m.name.clone(),
        snake_name,
        fields,
        msg_type: m.kind,
        return_type,
        return_mentions,
    };
    (v, diags)
}

} // verus!

//! The per-trait and per-contract message plans: resolved names and custom
//! types for the generated enums, the struct messages of the single-method
//! kinds, and the contract and interface api surfaces with their generic
//! parameter threading.

use vstd::prelude::*;
use itertools::Itertools;
use crate::OpKind;
use crate::diag::Diagnostic;
use crate::ops::spec_msg_name;
use crate::text::views_of;
use crate::variant::{extract_variant, fields_match_args, MethodDesc, MsgField, MsgVariant};
use crate::variants::{
    fields_use, mentions_contain, methods_of_kind, methods_wf, set_split, MsgVariants,
    WherePredicate,
};

verus! {

/// A custom message or query type declared on a contract or an interface.
#[derive(Debug)]
pub struct Custom {
    pub msg: Option<String>,
    pub query: Option<String>,
}

/// The runtime's plain message type, used wherever no custom type is declared.
pub open spec fn spec_default_type() -> Seq<char> {
    "Empty"@
}

impl Custom {
    /// The declared custom message type, or the runtime's plain type.
    pub fn msg_or_default(&self) -> (r: String)
        ensures
            match self.msg {
                Some(m) => r@ == m@,
                None => r@ == spec_default_type(),
            },
    {
        match &self.msg {
            Some(m) => m.clone(),
            None => default_type(),
        }
    }

    /// The declared custom query type, or the runtime's plain type.
    pub fn query_or_default(&self) -> (r: String)
        ensures
            match self.query {
                Some(q) => r@ == q@,
                None => r@ == spec_default_type(),
            },
    {
        match &self.query {
            Some(q) => q.clone(),
            None => default_type(),
        }
    }
}

fn default_type() -> (r: String)
    ensures
        r@ == spec_default_type(),
{
    let mut s = String::new();
    s.append("Empty");
    assert(s@ =~= "Empty"@);
    s
}

/// The error type the generated dispatch maps every failure into: the one the
/// contract declares, or the runtime's standard error.
pub fn resolve_error_type(declared: &Option<String>) -> (r: String)
    ensures
        match declared {
            Some(e) => r@ == e@,
            None => r@ == "StdError"@,
        },
{
    match declared {
        Some(e) => e.clone(),
        None => {
            let mut s = String::new();
            s.append("StdError");
            assert(s@ =~= "StdError"@);
            s
        },
    }
}

/// Resolves a trait enum's custom type slot: an explicit declaration wins,
/// then the trait's associated type, then the runtime's plain type.
pub fn resolve_custom_type(declared: &Option<String>, associated: &Option<String>) -> (r: String)
    ensures
        match declared {
            Some(d) => r@ == d@,
            None => match associated {
                Some(a) => r@ == a@,
                None => r@ == spec_default_type(),
            },
        },
{
    match declared {
        Some(d) => d.clone(),
        None => match associated {
            Some(a) => a.clone(),
            None => default_type(),
        },
    }
}

/// The name of a trait's generated enum: unique across traits because the
/// trait's own name prefixes the per-kind enum name.
pub fn unique_enum_name(trait_name: &String, msg_ty: OpKind) -> (r: String)
    ensures
        r@ == trait_name@ + spec_msg_name(msg_ty),
{
    let mut s = trait_name.clone();
    s.append(msg_ty.msg_name());
    assert(s@ =~= trait_name@ + spec_msg_name(msg_ty));
    s
}

/// A struct message: the single-variant form the Instantiate and Migrate
/// kinds take, with a plain `new` constructor instead of an enum.
#[derive(Debug)]
pub struct StructMessage {
    /// The originating method's name.
    pub function_name: String,
    /// The message fields, in argument order.
    pub fields: Vec<MsgField>,
    /// The generic parameters the fields reference, in declaration order.
    pub used_generics: Vec<String>,
    /// The remaining generic parameters, in declaration order; the dispatch
    /// method threads them through without serializing them.
    pub unused_generics: Vec<String>,
    /// The where-clause bounds that constrain a used parameter.
    pub where_predicates: Vec<WherePredicate>,
    /// The method's return type; the dispatch method resolves to it.
    pub return_type: String,
    /// The kind; only Instantiate and Migrate are meaningful here.
    pub msg_ty: OpKind,
}

impl StructMessage {
    /// Builds the struct message of the given kind from the first annotated
    /// method of that kind, if the impl declares one: its name, its fields,
    /// the split of the owner's generics over those fields, the bounds that
    /// survive on used parameters, and the method's return type. Only
    /// Instantiate and Migrate may take the struct form; any other kind is
    /// refused. Malformed arguments of the chosen method are reported beside
    /// the result, not fatal.
    pub fn build(
        methods: &Vec<MethodDesc>,
        msg_ty: OpKind,
        generics: &Vec<String>,
        wheres: &Vec<WherePredicate>,
    ) -> (r: (Result<Option<StructMessage>, Diagnostic>, Vec<Diagnostic>))
        requires
            methods_wf(methods@),
        ensures
            match r.0 {
                Ok(Some(m)) => {
                    &&& (msg_ty == OpKind::Instantiate || msg_ty == OpKind::Migrate)
                    &&& methods_of_kind(methods@, msg_ty).len() > 0
                    &&& m.msg_ty == msg_ty
                    &&& m.function_name@ == methods_of_kind(methods@, msg_ty)[0].name@
                    &&& fields_match_args(m.fields@, methods_of_kind(methods@, msg_ty)[0].args@)
                    &&& m.return_type@ == methods_of_kind(methods@, msg_ty)[0].ret_ty@
                    &&& m.used_generics@ == generics@.filter(
                        |g: String| fields_use(m.fields@, g@),
                    )
                    &&& m.unused_generics@ == generics@.filter(
                        |g: String| !fields_use(m.fields@, g@),
                    )
                    &&& m.where_predicates@ == wheres@.filter(
                        |w: WherePredicate| mentions_contain(m.used_generics@, w.param@),
                    )
                },
                Ok(None) => {
                    &&& (msg_ty == OpKind::Instantiate || msg_ty == OpKind::Migrate)
                    &&& methods_of_kind(methods@, msg_ty).len() == 0
                },
                Err(d) => {
                    &&& msg_ty != OpKind::Instantiate && msg_ty != OpKind::Migrate
                    &&& d.message@ == "Invalid message type"@
                },
            },
            forall|k: int| 0 <= k < r.1@.len() ==> (#[trigger] r.1@[k]).message@
                == "Expected argument name, pattern occurred"@,
    {
        if !(matches!(msg_ty, OpKind::Instantiate) || matches!(msg_ty, OpKind::Migrate)) {
            let origin = msg_ty.ep_name();
            let mut o = String::new();
            o.append(origin);
            return (Err(Diagnostic::new("Invalid message type", &o)), Vec::new());
        }
        let ghost keep = |m: MethodDesc| m.kind == msg_ty;
        let mut i: usize = 0;
        proof {
            assert(methods@.subrange(0, 0).filter(keep) =~= Seq::<MethodDesc>::empty());
        }
        while i < methods.len()
            invariant
                i <= methods@.len(),
                methods_wf(methods@),
                keep == (|m: MethodDesc| m.kind == msg_ty),
                methods@.subrange(0, i as int).filter(keep) =~= Seq::<MethodDesc>::empty(),
                msg_ty == OpKind::Instantiate || msg_ty == OpKind::Migrate,
            decreases methods@.len() - i,
        {
            let ghost prefix = methods@.subrange(0, i as int);
            if methods[i].kind == msg_ty {
                proof {
                    let next = methods@.subrange(0, i + 1);
                    assert(next.drop_last() =~= prefix);
                    assert(next.last() == methods@[i as int]);
                    reveal_with_fuel(Seq::filter, 2);
                    crate::entry_points::lemma_filter_first(methods@, keep, i as int);
                }
                let (v, diags) = extract_variant(&methods[i]);
                let MsgVariant { function_name, fields, .. } = v;
                let return_type = methods[i].ret_ty.clone();
                let (used_generics, unused_generics, where_predicates) = split_struct_generics(
                    &fields,
                    generics,
                    wheres,
                );
                let m = StructMessage {
                    function_name,
                    fields,
                    used_generics,
                    unused_generics,
                    where_predicates,
                    return_type,
                    msg_ty,
                };
                return (Ok(Some(m)), diags);
            }
            proof {
                let next = methods@.subrange(0, i + 1);
                assert(next.drop_last() =~= prefix);
                assert(next.last() == methods@[i as int]);
                reveal_with_fuel(Seq::filter, 2);
                assert(next.filter(keep) =~= prefix.filter(keep));
            }
            i = i + 1;
        }
        proof {
            assert(methods@.subrange(0, methods@.len() as int) =~= methods@);
        }
        (Ok(None), Vec::new())
    }
}

/// Splits the owner's generic parameters by whether the struct message's
/// fields reference them, and keeps the bounds on used parameters, all in
/// declaration order.
fn split_struct_generics(
    fields: &Vec<MsgField>,
    all_generics: &Vec<String>,
    wheres: &Vec<WherePredicate>,
) -> (r: (Vec<String>, Vec<String>, Vec<WherePredicate>))
    ensures
        r.0@ == all_generics@.filter(|g: String| fields_use(fields@, g@)),
        r.1@ == all_generics@.filter(|g: String| !fields_use(fields@, g@)),
        r.2@ == wheres@.filter(|w: WherePredicate| mentions_contain(r.0@, w.param@)),
{
    let ghost uses = |g: String| fields_use(fields@, g@);
    let ghost not_uses = |g: String| !fields_use(fields@, g@);
    let mut used: Vec<String> = Vec::new();
    let mut unused: Vec<String> = Vec::new();
    let mut j: usize = 0;
    proof {
        assert(all_generics@.subrange(0, 0).filter(uses) =~= Seq::<String>::empty());
        assert(all_generics@.subrange(0, 0).filter(not_uses) =~= Seq::<String>::empty());
    }
    while j < all_generics.len()
        invariant
            j <= all_generics@.len(),
            uses == (|g: String| fields_use(fields@, g@)),
            not_uses == (|g: String| !fields_use(fields@, g@)),
            used@ == all_generics@.subrange(0, j as int).filter(uses),
            unused@ == all_generics@.subrange(0, j as int).filter(not_uses),
        decreases all_generics@.len() - j,
    {
        let ghost prefix = all_generics@.subrange(0, j as int);
        if crate::variants::fields_use_exec(fields, &all_generics[j]) {
            used.push(all_generics[j].clone());
        } else {
            unused.push(all_generics[j].clone());
        }
        proof {
            let next = all_generics@.subrange(0, j + 1);
            assert(next.drop_last() =~= prefix);
            assert(next.last() == all_generics@[j as int]);
            reveal_with_fuel(Seq::filter, 2);
            if uses(all_generics@[j as int]) {
                assert(next.filter(uses) =~= prefix.filter(uses).push(all_generics@[j as int]));
                assert(next.filter(not_uses) =~= prefix.filter(not_uses));
            } else {
                assert(next.filter(uses) =~= prefix.filter(uses));
                assert(next.filter(not_uses) =~= prefix.filter(not_uses).push(
                    all_generics@[j as int],
                ));
            }
        }
        j = j + 1;
    }
    proof {
        assert(all_generics@.subrange(0, all_generics@.len() as int) =~= all_generics@);
    }
    let ghost bound_on_used = |w: WherePredicate| mentions_contain(used@, w.param@);
    let mut where_predicates: Vec<WherePredicate> = Vec::new();
    let mut k: usize = 0;
    proof {
        assert(wheres@.subrange(0, 0).filter(bound_on_used) =~= Seq::<WherePredicate>::empty());
    }
    while k < wheres.len()
        invariant
            k <= wheres@.len(),
            bound_on_used == (|w: WherePredicate| mentions_contain(used@, w.param@)),
            where_predicates@ == wheres@.subrange(0, k as int).filter(bound_on_used),
        decreases wheres@.len() - k,
    {
        let ghost prefix = wheres@.subrange(0, k as int);
        if crate::variants::contains_name(&used, &wheres[k].param) {
            let w = WherePredicate {
                param: wheres[k].param.clone(),
                bound: wheres[k].bound.clone(),
            };
            where_predicates.push(w);
        }
        proof {
            let next = wheres@.subrange(0, k + 1);
            assert(next.drop_last() =~= prefix);
            assert(next.last() == wheres@[k as int]);
            reveal_with_fuel(Seq::filter, 2);
            if bound_on_used(wheres@[k as int]) {
                assert(next.filter(bound_on_used) =~= prefix.filter(bound_on_used).push(
                    wheres@[k as int],
                ));
            } else {
                assert(next.filter(bound_on_used) =~= prefix.filter(bound_on_used));
            }
        }
        k = k + 1;
    }
    proof {
        assert(wheres@.subrange(0, wheres@.len() as int) =~= wheres@);
    }
    (used, unused, where_predicates)
}

/// The generated enum of one interface trait's operation kind: the variant
/// set under the trait-prefixed enum name, with the custom message and query
/// slots resolved.
#[derive(Debug)]
pub struct EnumMessage {
    /// The trait the enum is generated for.
    pub trait_name: String,
    /// The enum's name: the trait name followed by the per-kind enum name.
    pub enum_name: String,
    /// The trait's variant set for this kind.
    pub variants: MsgVariants,
    /// The resolved response wrapper type.
    pub resp_type: String,
    /// The resolved query type.
    pub query_type: String,
}

impl EnumMessage {
    /// Assembles a trait's per-kind enum: the name is prefixed with the
    /// trait's own, and the custom slots resolve to the declaration, the
    /// trait's associated type, or the runtime's plain type, in that order.
    pub fn new(
        trait_name: &String,
        custom: &Custom,
        associated_msg: &Option<String>,
        associated_query: &Option<String>,
        variants: MsgVariants,
    ) -> (r: EnumMessage)
        ensures
            r.trait_name@ == trait_name@,
            r.enum_name@ == trait_name@ + spec_msg_name(variants.msg_ty),
            r.variants == variants,
            (match custom.msg {
                Some(m) => r.resp_type@ == m@,
                None => match associated_msg {
                    Some(a) => r.resp_type@ == a@,
                    None => r.resp_type@ == spec_default_type(),
                },
            }),
            (match custom.query {
                Some(q) => r.query_type@ == q@,
                None => match associated_query {
                    Some(a) => r.query_type@ == a@,
                    None => r.query_type@ == spec_default_type(),
                },
            }),
    {
        let enum_name = unique_enum_name(trait_name, variants.msg_ty);
        let resp_type = resolve_custom_type(&custom.msg, associated_msg);
        let query_type = resolve_custom_type(&custom.query, associated_query);
        EnumMessage { trait_name: trait_name.clone(), enum_name, variants, resp_type, query_type }
    }
}

/// The generated enum of one of the contract's own operation kinds.
#[derive(Debug)]
pub struct ContractEnumMessage {
    /// The contract's variant set for this kind.
    pub variants: MsgVariants,
    /// The contract's error type; every dispatch failure converts into it.
    pub error: String,
    /// The contract's custom message and query declaration.
    pub custom: Custom,
}

impl ContractEnumMessage {
    /// Assembles one of the contract's own message enums from its annotated
    /// methods.
    pub fn new(
        methods: &Vec<MethodDesc>,
        msg_ty: OpKind,
        generics: &Vec<String>,
        wheres: &Vec<WherePredicate>,
        error: &Option<String>,
        custom: Custom,
    ) -> (r: (ContractEnumMessage, Vec<Diagnostic>))
        requires
            methods_wf(methods@),
        ensures
            r.0.variants.msg_ty == msg_ty,
            crate::variants::variants_match_methods(r.0.variants.variants@, methods@, msg_ty),
            set_split(r.0.variants, generics@, wheres@),
            (match error {
                Some(e) => r.0.error@ == e@,
                None => r.0.error@ == "StdError"@,
            }),
    {
        let (variants, diags) = MsgVariants::build(methods, msg_ty, generics, wheres);
        let error = resolve_error_type(error);
        (ContractEnumMessage { variants, error, custom }, diags)
    }
}

/// First-occurrence deduplication: later copies of a name already seen are
/// dropped, and the surviving order is the original one.
pub open spec fn dedup_first(s: Seq<Seq<char>>) -> Seq<Seq<char>>
    decreases s.len(),
{
    if s.len() == 0 {
        Seq::empty()
    } else {
        let prior = dedup_first(s.drop_last());
        if prior.contains(s.last()) {
            prior
        } else {
            prior.push(s.last())
        }
    }
}

/// Relies on itertools' `unique`: a stable adaptor that drops every element
/// already produced once, keeping the first occurrence of each.
#[verifier::external_body]
pub(crate) fn unique_names(v: Vec<String>) -> (r: Vec<String>)
    ensures
        views_of(r@) == dedup_first(views_of(v@)),
{
    v.into_iter().unique().collect()
}

/// The contract generic parameters that the attachments' generic arguments
/// mention, in declaration order.
pub fn filter_generics(all_generics: &Vec<String>, args: &Vec<String>) -> (r: Vec<String>)
    ensures
        r@ == all_generics@.filter(|g: String| mentions_contain(args@, g@)),
{
    let ghost keep = |g: String| mentions_contain(args@, g@);
    let mut kept: Vec<String> = Vec::new();
    let mut i: usize = 0;
    proof {
        assert(all_generics@.subrange(0, 0).filter(keep) =~= Seq::<String>::empty());
    }
    while i < all_generics.len()
        invariant
            i <= all_generics@.len(),
            keep == (|g: String| mentions_contain(args@, g@)),
            kept@ == all_generics@.subrange(0, i as int).filter(keep),
        decreases all_generics@.len() - i,
    {
        let ghost prefix = all_generics@.subrange(0, i as int);
        if crate::variants::contains_name(args, &all_generics[i]) {
            kept.push(all_generics[i].clone());
        }
        proof {
            let next = all_generics@.subrange(0, i + 1);
            assert(next.drop_last() =~= prefix);
            assert(next.last() == all_generics@[i as int]);
            reveal_with_fuel(Seq::filter, 2);
            if keep(all_generics@[i as int]) {
                assert(next.filter(keep) =~= prefix.filter(keep).push(all_generics@[i as int]));
            } else {
                assert(next.filter(keep) =~= prefix.filter(keep));
            }
        }
        i = i + 1;
    }
    proof {
        assert(all_generics@.subrange(0, all_generics@.len() as int) =~= all_generics@);
    }
    kept
}

/// Threads two generic parameter lists into one, dropping repeats: the
/// parameters the attachments need come first, then the variant set's own.
pub fn merge_generics(interface_generics: &Vec<String>, used: &Vec<String>) -> (r: Vec<String>)
    ensures
        views_of(r@) == dedup_first(views_of(interface_generics@) + views_of(used@)),
{
    let mut all: Vec<String> = Vec::new();
    let mut i: usize = 0;
    while i < interface_generics.len()
        invariant
            i <= interface_generics@.len(),
            all@.len() == i,
            forall|k: int| 0 <= k < i ==> (#[trigger] all@[k])@ == interface_generics@[k]@,
        decreases interface_generics@.len() - i,
    {
        all.push(interface_generics[i].clone());
        i = i + 1;
    }
    let mut j: usize = 0;
    while j < used.len()
        invariant
            j <= used@.len(),
            all@.len() == interface_generics@.len() + j,
            forall|k: int| 0 <= k < interface_generics@.len() ==> (#[trigger] all@[k])@
                == interface_generics@[k]@,
            forall|k: int| 0 <= k < j ==> (#[trigger] all@[interface_generics@.len() + k])@
                == used@[k]@,
        decreases used@.len() - j,
    {
        all.push(used[j].clone());
        j = j + 1;
    }
    proof {
        let lhs = views_of(all@);
        let rhs = views_of(interface_generics@) + views_of(used@);
        let n = interface_generics@.len() as int;
        assert forall|k: int| 0 <= k < lhs.len() implies lhs[k] == rhs[k] by {
            if k >= n {
                assert(all@[n + (k - n)]@ == used@[k - n]@);
            }
        }
        assert(lhs =~= rhs);
    }
    unique_names(all)
}

/// The contract api surface: the contract's variant sets for the four message
/// kinds a contract declares directly, built once from its annotated methods.
#[derive(Debug)]
pub struct ContractApi {
    pub exec_variants: MsgVariants,
    pub query_variants: MsgVariants,
    pub instantiate_variants: MsgVariants,
    pub migrate_variants: MsgVariants,
}

impl ContractApi {
    /// Builds the four variant sets from the contract's methods, each with the
    /// contract's full generic parameter list.
    pub fn build(methods: &Vec<MethodDesc>, generics: &Vec<String>, wheres: &Vec<WherePredicate>)
        -> (r: (ContractApi, Vec<Diagnostic>))
        requires
            methods_wf(methods@),
        ensures
            crate::variants::variants_match_methods(
                r.0.exec_variants.variants@,
                methods@,
                OpKind::Exec,
            ),
            crate::variants::variants_match_methods(
                r.0.query_variants.variants@,
                methods@,
                OpKind::Query,
            ),
            crate::variants::variants_match_methods(
                r.0.instantiate_variants.variants@,
                methods@,
                OpKind::Instantiate,
            ),
            crate::variants::variants_match_methods(
                r.0.migrate_variants.variants@,
                methods@,
                OpKind::Migrate,
            ),
            r.0.exec_variants.msg_ty == OpKind::Exec,
            r.0.query_variants.msg_ty == OpKind::Query,
            r.0.instantiate_variants.msg_ty == OpKind::Instantiate,
            r.0.migrate_variants.msg_ty == OpKind::Migrate,
            set_split(r.0.exec_variants, generics@, wheres@),
            set_split(r.0.query_variants, generics@, wheres@),
            set_split(r.0.instantiate_variants, generics@, wheres@),
            set_split(r.0.migrate_variants, generics@, wheres@),
    {
        let mut diags: Vec<Diagnostic> = Vec::new();
        let (exec_variants, mut d1) = MsgVariants::build(methods, OpKind::Exec, generics, wheres);
        diags.append(&mut d1);
        let (query_variants, mut d2) = MsgVariants::build(methods, OpKind::Query, generics, wheres);
        diags.append(&mut d2);
        let (instantiate_variants, mut d3) = MsgVariants::build(
            methods,
            OpKind::Instantiate,
            generics,
            wheres,
        );
        diags.append(&mut d3);
        let (migrate_variants, mut d4) = MsgVariants::build(
            methods,
            OpKind::Migrate,
            generics,
            wheres,
        );
        diags.append(&mut d4);
        (ContractApi { exec_variants, query_variants, instantiate_variants, migrate_variants }, diags)
    }

    /// The migrate associated type is the migrate message only when a migrate
    /// variant exists; otherwise it is the runtime's plain type.
    pub fn migrate_type(&self) -> (r: String)
        ensures
            self.migrate_variants.variants@.len() > 0 ==> r@ == spec_msg_name(OpKind::Migrate),
            self.migrate_variants.variants@.len() == 0 ==> r@ == spec_default_type(),
    {
        if self.migrate_variants.variants.len() > 0 {
            let mut s = String::new();
            s.append(OpKind::Migrate.msg_name());
            assert(s@ =~= spec_msg_name(OpKind::Migrate));
            s
        } else {
            default_type()
        }
    }

}


/// The interface api surface: an interface trait's exec and query variant
/// sets, built over the trait's associated type names.
#[derive(Debug)]
pub struct InterfaceApi {
    pub exec_variants: MsgVariants,
    pub query_variants: MsgVariants,
}

impl InterfaceApi {
    /// Builds the two variant sets an interface contributes.
    pub fn build(methods: &Vec<MethodDesc>, generics: &Vec<String>, wheres: &Vec<WherePredicate>)
        -> (r: (InterfaceApi, Vec<Diagnostic>))
        requires
            methods_wf(methods@),
        ensures
            crate::variants::variants_match_methods(
                r.0.exec_variants.variants@,
                methods@,
                OpKind::Exec,
            ),
            crate::variants::variants_match_methods(
                r.0.query_variants.variants@,
                methods@,
                OpKind::Query,
            ),
            r.0.exec_variants.msg_ty == OpKind::Exec,
            r.0.query_variants.msg_ty == OpKind::Query,
            set_split(r.0.exec_variants, generics@, wheres@),
            set_split(r.0.query_variants, generics@, wheres@),
    {
        let mut diags: Vec<Diagnostic> = Vec::new();
        let (exec_variants, mut d1) = MsgVariants::build(methods, OpKind::Exec, generics, wheres);
        diags.append(&mut d1);
        let (query_variants, mut d2) = MsgVariants::build(methods, OpKind::Query, generics, wheres);
        diags.append(&mut d2);
        (InterfaceApi { exec_variants, query_variants }, diags)
    }
}

} // verus!

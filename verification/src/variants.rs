//! The variant set builder: grouping the variants extracted from a trait's or
//! impl's annotated methods by operation kind, and partitioning the owner's
//! generic parameters into those the set references and those it does not.

use vstd::prelude::*;
use crate::OpKind;
use crate::diag::Diagnostic;
use crate::text::{lex_leq_fn, sort_names, views_of};
use crate::variant::{is_extracted, extract_variant, MethodDesc, MsgField, MsgVariant};

verus! {

/// One bound from the owner's where clause, reduced to the parameter it
/// constrains and the bound's rendering.
#[derive(Clone, Debug)]
pub struct WherePredicate {
    pub param: String,
    pub bound: String,
}

/// All message variants of one operation kind within one trait or impl,
/// together with the split of the owner's generic parameters.
#[derive(Clone, Debug)]
pub struct MsgVariants {
    /// The variants, in method declaration order.
    pub variants: Vec<MsgVariant>,
    /// The generic parameters some variant references, in declaration order.
    pub used_generics: Vec<String>,
    /// The remaining generic parameters, in declaration order.
    pub unused_generics: Vec<String>,
    /// The where-clause bounds that constrain a used parameter.
    pub where_predicates: Vec<WherePredicate>,
    /// The operation kind every variant of the set shares.
    pub msg_ty: OpKind,
}

/// Every method description carries its context argument.
pub open spec fn methods_wf(ms: Seq<MethodDesc>) -> bool {
    forall|i: int| 0 <= i < ms.len() ==> (#[trigger] ms[i]).args@.len() >= 1
}

/// The methods of `ms` annotated with kind `k`, in declaration order.
pub open spec fn methods_of_kind(ms: Seq<MethodDesc>, k: OpKind) -> Seq<MethodDesc> {
    ms.filter(|m: MethodDesc| m.kind == k)
}

/// The variant list `vs` is extracted, method by method, from the methods of
/// `ms` of kind `k`.
pub open spec fn variants_match_methods(vs: Seq<MsgVariant>, ms: Seq<MethodDesc>, k: OpKind) -> bool {
    let kept = methods_of_kind(ms, k);
    &&& vs.len() == kept.len()
    &&& forall|i: int| 0 <= i < vs.len() ==> is_extracted(#[trigger] vs[i], kept[i])
}

/// Whether some name in `s` reads as `g`.
pub open spec fn mentions_contain(s: Seq<String>, g: Seq<char>) -> bool {
    exists|i: int| 0 <= i < s.len() && s[i]@ == g
}

/// Whether some field of the list references the parameter `g`.
pub open spec fn fields_use(fields: Seq<MsgField>, g: Seq<char>) -> bool {
    exists|i: int| 0 <= i < fields.len() && mentions_contain((#[trigger] fields[i]).mentions@, g)
}

/// Whether the variant's fields or response type reference the parameter `g`.
pub open spec fn variant_uses(v: MsgVariant, g: Seq<char>) -> bool {
    fields_use(v.fields@, g) || mentions_contain(v.return_mentions@, g)
}

/// Whether any variant of the set references the parameter `g`.
pub open spec fn set_uses(vs: Seq<MsgVariant>, g: Seq<char>) -> bool {
    exists|i: int| 0 <= i < vs.len() && variant_uses(#[trigger] vs[i], g)
}

/// The wire-level names of the variants, in declaration order.
pub open spec fn snake_names(vs: Seq<MsgVariant>) -> Seq<Seq<char>> {
    vs.map_values(|v: MsgVariant| v.snake_name@)
}

/// The set's generic split and surviving bounds are exactly the ones its
/// variants induce over the declared parameter list: used and unused are the
/// declaration-ordered filters by actual reference, and the kept bounds are
/// those on a used parameter.
pub open spec fn set_split(vs: MsgVariants, generics: Seq<String>, wheres: Seq<WherePredicate>) -> bool {
    &&& vs.used_generics@ == generics.filter(|g: String| set_uses(vs.variants@, g@))
    &&& vs.unused_generics@ == generics.filter(|g: String| !set_uses(vs.variants@, g@))
    &&& vs.where_predicates@ == wheres.filter(
        |w: WherePredicate| mentions_contain(vs.used_generics@, w.param@),
    )
}

/// The used/unused split is a true partition of the declared generics:
/// disjoint, exhaustive, and order preserving. Every declared parameter lands
/// in exactly one side — in the used side exactly when some variant
/// references it — and both sides keep declaration order.
pub proof fn lemma_generics_partition(
    all: Seq<String>,
    vs: Seq<MsgVariant>,
    used: Seq<String>,
    unused: Seq<String>,
)
    requires
        used == all.filter(|g: String| set_uses(vs, g@)),
        unused == all.filter(|g: String| !set_uses(vs, g@)),
    ensures
        used.len() + unused.len() == all.len(),
        forall|i: int| 0 <= i < used.len() ==> set_uses(vs, (#[trigger] used[i])@),
        forall|i: int| 0 <= i < unused.len() ==> !set_uses(vs, (#[trigger] unused[i])@),
        forall|i: int| 0 <= i < all.len() ==> used.contains(#[trigger] all[i])
            || unused.contains(all[i]),
    decreases all.len(),
{
    let uses = |g: String| set_uses(vs, g@);
    let not_uses = |g: String| !set_uses(vs, g@);
    reveal_with_fuel(Seq::filter, 2);
    if all.len() > 0 {
        lemma_generics_partition(
            all.drop_last(),
            vs,
            all.drop_last().filter(uses),
            all.drop_last().filter(not_uses),
        );
        if uses(all.last()) {
            assert(all.filter(uses) =~= all.drop_last().filter(uses).push(all.last()));
            assert(all.filter(not_uses) =~= all.drop_last().filter(not_uses));
        } else {
            assert(all.filter(uses) =~= all.drop_last().filter(uses));
            assert(all.filter(not_uses) =~= all.drop_last().filter(not_uses).push(all.last()));
        }
        assert forall|i: int| 0 <= i < all.len() implies used.contains(#[trigger] all[i])
            || unused.contains(all[i]) by {
            if i < all.len() - 1 {
                assert(all.drop_last()[i] == all[i]);
                if all.drop_last().filter(uses).contains(all[i]) {
                    let j = choose|j: int|
                        0 <= j < all.drop_last().filter(uses).len() && all.drop_last().filter(
                            uses,
                        )[j] == all[i];
                    assert(used[j] == all[i]);
                } else {
                    let j = choose|j: int|
                        0 <= j < all.drop_last().filter(not_uses).len() && all.drop_last().filter(
                            not_uses,
                        )[j] == all[i];
                    assert(unused[j] == all[i]);
                }
            } else {
                if uses(all.last()) {
                    assert(used.last() == all[i]);
                } else {
                    assert(unused.last() == all[i]);
                }
            }
        }
        assert forall|i: int| 0 <= i < used.len() implies set_uses(
            vs,
            (#[trigger] used[i])@,
        ) by {
            all.lemma_filter_pred(uses, i);
        }
        assert forall|i: int| 0 <= i < unused.len() implies !set_uses(
            vs,
            (#[trigger] unused[i])@,
        ) by {
            all.lemma_filter_pred(not_uses, i);
        }
    } else {
        assert(all.filter(uses) =~= Seq::<String>::empty());
        assert(all.filter(not_uses) =~= Seq::<String>::empty());
    }
}

/// Whether some name in `v` reads as `g`.
pub fn contains_name(v: &Vec<String>, g: &String) -> (r: bool)
    ensures
        r == mentions_contain(v@, g@),
{
    let mut i: usize = 0;
    while i < v.len()
        invariant
            i <= v.len(),
            forall|k: int| 0 <= k < i ==> (#[trigger] v@[k])@ != g@,
        decreases v.len() - i,
    {
        if v[i].eq(g) {
            return true;
        }
        i = i + 1;
    }
    false
}

/// Whether some field of the list references the parameter `g`.
pub(crate) fn fields_use_exec(fields: &Vec<MsgField>, g: &String) -> (r: bool)
    ensures
        r == fields_use(fields@, g@),
{
    let mut i: usize = 0;
    while i < fields.len()
        invariant
            i <= fields@.len(),
            forall|k: int| 0 <= k < i ==> !mentions_contain(
                (#[trigger] fields@[k]).mentions@,
                g@,
            ),
        decreases fields@.len() - i,
    {
        if contains_name(&fields[i].mentions, g) {
            return true;
        }
        i = i + 1;
    }
    false
}

/// Whether the variant references the parameter `g`.
fn variant_uses_exec(v: &MsgVariant, g: &String) -> (r: bool)
    ensures
        r == variant_uses(*v, g@),
{
    if fields_use_exec(&v.fields, g) {
        return true;
    }
    contains_name(&v.return_mentions, g)
}

/// Whether any variant of the list references the parameter `g`.
fn set_uses_exec(vs: &Vec<MsgVariant>, g: &String) -> (r: bool)
    ensures
        r == set_uses(vs@, g@),
{
    let mut i: usize = 0;
    while i < vs.len()
        invariant
            i <= vs@.len(),
            forall|k: int| 0 <= k < i ==> !variant_uses(#[trigger] vs@[k], g@),
        decreases vs@.len() - i,
    {
        if variant_uses_exec(&vs[i], g) {
            return true;
        }
        i = i + 1;
    }
    false
}

impl MsgVariants {
    /// Walks the annotated methods, keeps those whose kind matches, extracts
    /// one variant per kept method in declaration order, and splits the
    /// owner's generic parameters into used and unused, both preserving
    /// declaration order. Malformed arguments are reported, not fatal.
    pub fn build(
        methods: &Vec<MethodDesc>,
        msg_ty: OpKind,
        all_generics: &Vec<String>,
        wheres: &Vec<WherePredicate>,
    ) -> (r: (MsgVariants, Vec<Diagnostic>))
        requires
            methods_wf(methods@),
        ensures
            r.0.msg_ty == msg_ty,
            variants_match_methods(r.0.variants@, methods@, msg_ty),
            r.0.used_generics@ == all_generics@.filter(
                |g: String| set_uses(r.0.variants@, g@),
            ),
            r.0.unused_generics@ == all_generics@.filter(
                |g: String| !set_uses(r.0.variants@, g@),
            ),
            r.0.where_predicates@ == wheres@.filter(
                |w: WherePredicate| mentions_contain(r.0.used_generics@, w.param@),
            ),
            forall|k: int| 0 <= k < r.1@.len() ==> (#[trigger] r.1@[k]).message@
                == "Expected argument name, pattern occurred"@,
            forall|i: int| 0 <= i < r.0.variants@.len() ==> (#[trigger] r.0.variants@[i]).msg_type
                == msg_ty,
            set_split(r.0, all_generics@, wheres@),
    {
        let ghost keep = |m: MethodDesc| m.kind == msg_ty;
        let mut variants: Vec<MsgVariant> = Vec::new();
        let mut diags: Vec<Diagnostic> = Vec::new();
        let mut i: usize = 0;
        proof {
            assert(methods@.subrange(0, 0).filter(keep) =~= Seq::<MethodDesc>::empty());
        }
        while i < methods.len()
            invariant
                i <= methods@.len(),
                methods_wf(methods@),
                keep == (|m: MethodDesc| m.kind == msg_ty),
                variants_match_methods(variants@, methods@.subrange(0, i as int), msg_ty),
                forall|k: int| 0 <= k < diags@.len() ==> (#[trigger] diags@[k]).message@
                    == "Expected argument name, pattern occurred"@,
            decreases methods@.len() - i,
        {
            let ghost prefix = methods@.subrange(0, i as int);
            if methods[i].kind == msg_ty {
                let (v, mut d) = extract_variant(&methods[i]);
                variants.push(v);
                let ghost old_diags = diags@;
                diags.append(&mut d);
                assert(forall|k: int| 0 <= k < diags@.len() ==> (#[trigger] diags@[k]).message@
                    == "Expected argument name, pattern occurred"@);
            }
            proof {
                let next = methods@.subrange(0, i + 1);
                assert(next.drop_last() =~= prefix);
                assert(next.last() == methods@[i as int]);
                reveal_with_fuel(Seq::filter, 2);
                if keep(methods@[i as int]) {
                    assert(next.filter(keep) =~= prefix.filter(keep).push(methods@[i as int]));
                } else {
                    assert(next.filter(keep) =~= prefix.filter(keep));
                }
            }
            i = i + 1;
        }
        proof {
            assert(methods@.subrange(0, methods@.len() as int) =~= methods@);
        }
        let ghost uses = |g: String| set_uses(variants@, g@);
        let ghost not_uses = |g: String| !set_uses(variants@, g@);
        let mut used: Vec<String> = Vec::new();
        let mut unused: Vec<String> = Vec::new();
        let mut j: usize = 0;
        proof {
            assert(all_generics@.subrange(0, 0).filter(uses) =~= Seq::<String>::empty());
            assert(all_generics@.subrange(0, 0).filter(not_uses) =~= Seq::<String>::empty());
        }
        while j < all_generics.len()
            invariant
                j <= all_generics@.len(),
                uses == (|g: String| set_uses(variants@, g@)),
                not_uses == (|g: String| !set_uses(variants@, g@)),
                used@ == all_generics@.subrange(0, j as int).filter(uses),
                unused@ == all_generics@.subrange(0, j as int).filter(not_uses),
            decreases all_generics@.len() - j,
        {
            let ghost prefix = all_generics@.subrange(0, j as int);
            if set_uses_exec(&variants, &all_generics[j]) {
                used.push(all_generics[j].clone());
            } else {
                unused.push(all_generics[j].clone());
            }
            proof {
                let next = all_generics@.subrange(0, j + 1);
                assert(next.drop_last() =~= prefix);
                assert(next.last() == all_generics@[j as int]);
                reveal_with_fuel(Seq::filter, 2);
                if uses(all_generics@[j as int]) {
                    assert(next.filter(uses) =~= prefix.filter(uses).push(
                        all_generics@[j as int],
                    ));
                    assert(next.filter(not_uses) =~= prefix.filter(not_uses));
                } else {
                    assert(next.filter(uses) =~= prefix.filter(uses));
                    assert(next.filter(not_uses) =~= prefix.filter(not_uses).push(
                        all_generics@[j as int],
                    ));
                }
            }
            j = j + 1;
        }
        proof {
            assert(all_generics@.subrange(0, all_generics@.len() as int) =~= all_generics@);
        }
        let ghost bound_on_used = |w: WherePredicate| mentions_contain(used@, w.param@);
        let mut where_predicates: Vec<WherePredicate> = Vec::new();
        let mut k: usize = 0;
        proof {
            assert(wheres@.subrange(0, 0).filter(bound_on_used) =~= Seq::<WherePredicate>::empty());
        }
        while k < wheres.len()
            invariant
                k <= wheres@.len(),
                bound_on_used == (|w: WherePredicate| mentions_contain(used@, w.param@)),
                where_predicates@ == wheres@.subrange(0, k as int).filter(bound_on_used),
            decreases wheres@.len() - k,
        {
            let ghost prefix = wheres@.subrange(0, k as int);
            if contains_name(&used, &wheres[k].param) {
                let w = WherePredicate {
                    param: wheres[k].param.clone(),
                    bound: wheres[k].bound.clone(),
                };
                where_predicates.push(w);
            }
            proof {
                let next = wheres@.subrange(0, k + 1);
                assert(next.drop_last() =~= prefix);
                assert(next.last() == wheres@[k as int]);
                reveal_with_fuel(Seq::filter, 2);
                if bound_on_used(wheres@[k as int]) {
                    assert(next.filter(bound_on_used) =~= prefix.filter(bound_on_used).push(
                        wheres@[k as int],
                    ));
                } else {
                    assert(next.filter(bound_on_used) =~= prefix.filter(bound_on_used));
                }
            }
            k = k + 1;
        }
        proof {
            assert(wheres@.subrange(0, wheres@.len() as int) =~= wheres@);
            assert forall|i: int| 0 <= i < variants@.len() implies (
            #[trigger] variants@[i]).msg_type == msg_ty by {
                methods@.lemma_filter_pred(keep, i);
            }
        }
        (
            MsgVariants { variants, used_generics: used, unused_generics: unused, where_predicates, msg_ty },
            diags,
        )
    }

    /// The variants, in declaration order.
    pub fn variants(&self) -> (r: &Vec<MsgVariant>)
        ensures
            r == &self.variants,
    {
        &self.variants
    }

    /// The generic parameters the set references.
    pub fn used_generics(&self) -> (r: &Vec<String>)
        ensures
            r == &self.used_generics,
    {
        &self.used_generics
    }

    /// The generic parameters the set leaves untouched.
    pub fn unused_generics(&self) -> (r: &Vec<String>)
        ensures
            r == &self.unused_generics,
    {
        &self.unused_generics
    }

    /// The wire-level names of the variants, in declaration order.
    pub fn as_names_snake_cased(&self) -> (r: Vec<String>)
        ensures
            views_of(r@) == snake_names(self.variants@),
    {
        let mut names: Vec<String> = Vec::new();
        let mut i: usize = 0;
        while i < self.variants.len()
            invariant
                i <= self.variants@.len(),
                names@.len() == i,
                forall|k: int| 0 <= k < i ==> (#[trigger] names@[k])@
                    == self.variants@[k].snake_name@,
            decreases self.variants@.len() - i,
        {
            names.push(self.variants[i].snake_name.clone());
            i = i + 1;
        }
        proof {
            assert(views_of(names@) =~= snake_names(self.variants@));
        }
        names
    }

    /// The wire-format name table: the variants' wire names, sorted. Both the
    /// collision check and the unknown-message report read this listing.
    pub fn name_table(&self) -> (r: Vec<String>)
        ensures
            views_of(r@) == snake_names(self.variants@).sort_by(lex_leq_fn()),
    {
        let names = self.as_names_snake_cased();
        sort_names(&names)
    }

    /// The first variant, if the set has any; a migrate set is meaningful
    /// only when this is its only variant.
    pub fn get_only_variant(&self) -> (r: Option<&MsgVariant>)
        ensures
            match r {
                Some(v) => self.variants@.len() > 0 && v == &self.variants[0],
                None => self.variants@.len() == 0,
            },
    {
        if self.variants.len() > 0 {
            Some(&self.variants[0])
        } else {
            None
        }
    }

    /// The where-clause bounds kept for the generated enum: exactly those on a
    /// used parameter, or nothing when none survive.
    pub fn where_clause(&self) -> (r: Option<&Vec<WherePredicate>>)
        ensures
            match r {
                Some(w) => self.where_predicates@.len() > 0 && w == &self.where_predicates,
                None => self.where_predicates@.len() == 0,
            },
    {
        if self.where_predicates.len() > 0 {
            Some(&self.where_predicates)
        } else {
            None
        }
    }

    /// Whether the generated enum carries the phantom variant: present exactly
    /// when some generic parameter is used, absent otherwise. The phantom
    /// variant never enters the wire-format name table.
    pub fn has_phantom(&self) -> (r: bool)
        ensures
            r == (self.used_generics@.len() > 0),
    {
        self.used_generics.len() > 0
    }
}

} // verus!

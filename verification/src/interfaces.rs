//! The interface attachments declared on a contract: the binding of each
//! attached interface trait to the contract, with the outer-enum tag it is
//! given, the generic arguments the contract supplies, and the custom-type
//! flags that drive context and response conversion at dispatch.

use vstd::prelude::*;
use crate::OpKind;
use crate::diag::Diagnostic;
use crate::ops::{spec_accessor_name, spec_ep_name};
use crate::text::{bracket_names, spec_brackets, views_of};

verus! {

/// One attachment declaration: the binding of one interface to one contract.
#[derive(Debug)]
pub struct ContractMessageAttr {
    /// The attached interface's module identity.
    pub module: String,
    /// The outer-enum variant tag, derived from the trait name.
    pub variant: String,
    /// The generic arguments the contract supplies to the interface.
    pub generics: Vec<String>,
    /// The interface keeps the default message type while the contract fixes
    /// a custom one, so its responses must be widened at dispatch.
    pub custom_msg: bool,
    /// The interface keeps the default query type while the contract fixes a
    /// custom one, so its context must be narrowed at dispatch.
    pub custom_query: bool,
}

/// The flattened generic arguments of a list of attachments, in order.
pub open spec fn spec_generic_args(ifaces: Seq<ContractMessageAttr>) -> Seq<String>
    decreases ifaces.len(),
{
    if ifaces.len() == 0 {
        Seq::empty()
    } else {
        ifaces[0].generics@ + spec_generic_args(ifaces.skip(1))
    }
}

/// Whether some attachment in `s` binds the module `m`.
pub open spec fn contains_module(s: Seq<ContractMessageAttr>, m: Seq<char>) -> bool {
    exists|i: int| 0 <= i < s.len() && s[i].module@ == m
}

/// `a` records the same attachment as `b`.
pub open spec fn attr_like(a: ContractMessageAttr, b: ContractMessageAttr) -> bool {
    &&& a.module@ == b.module@
    &&& a.variant@ == b.variant@
    &&& crate::text::views_of(a.generics@) == crate::text::views_of(b.generics@)
    &&& a.custom_msg == b.custom_msg
    &&& a.custom_query == b.custom_query
}

/// The attachments that survive deduplication: the first declaration of each
/// module, in declaration order.
pub open spec fn spec_dedup_attachments(s: Seq<ContractMessageAttr>) -> Seq<ContractMessageAttr>
    decreases s.len(),
{
    if s.len() == 0 {
        Seq::empty()
    } else {
        let prior = spec_dedup_attachments(s.drop_last());
        if contains_module(prior, s.last().module@) {
            prior
        } else {
            prior.push(s.last())
        }
    }
}

/// All interface attachments declared on one contract, in declaration order.
#[derive(Debug)]
pub struct Interfaces {
    pub interfaces: Vec<ContractMessageAttr>,
}

fn attr_copy(a: &ContractMessageAttr) -> (r: ContractMessageAttr)
    ensures
        attr_like(r, *a),
{
    let mut generics: Vec<String> = Vec::new();
    let mut i: usize = 0;
    while i < a.generics.len()
        invariant
            i <= a.generics@.len(),
            generics@.len() == i,
            forall|k: int| 0 <= k < i ==> (#[trigger] generics@[k])@ == a.generics@[k]@,
        decreases a.generics@.len() - i,
    {
        generics.push(a.generics[i].clone());
        i = i + 1;
    }
    proof {
        assert(crate::text::views_of(generics@) =~= crate::text::views_of(a.generics@));
    }
    ContractMessageAttr {
        module: a.module.clone(),
        variant: a.variant.clone(),
        generics,
        custom_msg: a.custom_msg,
        custom_query: a.custom_query,
    }
}

fn find_module(s: &Vec<ContractMessageAttr>, m: &String) -> (r: Option<usize>)
    ensures
        match r {
            Some(i) => i < s@.len() && s@[i as int].module@ == m@,
            None => !contains_module(s@, m@),
        },
{
    let mut i: usize = 0;
    while i < s.len()
        invariant
            i <= s@.len(),
            forall|k: int| 0 <= k < i ==> (#[trigger] s@[k]).module@ != m@,
        decreases s@.len() - i,
    {
        if s[i].module.eq(m) {
            return Some(i);
        }
        i = i + 1;
    }
    None
}

/// Keeps the first attachment of each interface module and reports every
/// later attachment of an already-attached module against the first one:
/// attaching the same interface twice is an error, and the first wins.
pub fn dedup_attachments(declared: Vec<ContractMessageAttr>) -> (r: (
    Vec<ContractMessageAttr>,
    Vec<Diagnostic>,
))
    ensures
        r.0@.len() == spec_dedup_attachments(declared@).len(),
        forall|i: int| 0 <= i < r.0@.len() ==> attr_like(
            #[trigger] r.0@[i],
            spec_dedup_attachments(declared@)[i],
        ),
        r.1@.len() == declared@.len() - spec_dedup_attachments(declared@).len(),
        forall|k: int| 0 <= k < r.1@.len() ==> (#[trigger] r.1@[k]).message@
            == "The interface is attached to the contract more than once"@,
{
    let mut kept: Vec<ContractMessageAttr> = Vec::new();
    let mut diags: Vec<Diagnostic> = Vec::new();
    let mut i: usize = 0;
    proof {
        assert(declared@.subrange(0, 0) =~= Seq::<ContractMessageAttr>::empty());
        assert(spec_dedup_attachments(declared@.subrange(0, 0)) =~= Seq::<
            ContractMessageAttr,
        >::empty());
    }
    while i < declared.len()
        invariant
            i <= declared@.len(),
            kept@.len() == spec_dedup_attachments(declared@.subrange(0, i as int)).len(),
            forall|k: int| 0 <= k < kept@.len() ==> attr_like(
                #[trigger] kept@[k],
                spec_dedup_attachments(declared@.subrange(0, i as int))[k],
            ),
            forall|m: Seq<char>| contains_module(kept@, m) == contains_module(
                spec_dedup_attachments(declared@.subrange(0, i as int)),
                m,
            ),
            diags@.len() == i - kept@.len(),
            forall|k: int| 0 <= k < diags@.len() ==> (#[trigger] diags@[k]).message@
                == "The interface is attached to the contract more than once"@,
        decreases declared@.len() - i,
    {
        let ghost prefix = declared@.subrange(0, i as int);
        let ghost deduped = spec_dedup_attachments(prefix);
        match find_module(&kept, &declared[i].module) {
            Some(first) => {
                proof {
                    assert(contains_module(kept@, declared@[i as int].module@));
                }
                diags.push(
                    Diagnostic::with_note(
                        "The interface is attached to the contract more than once",
                        &declared[i].module,
                        &kept[first].module,
                    ),
                );
            },
            None => {
                let ghost kept0 = kept@;
                let copy = attr_copy(&declared[i]);
                kept.push(copy);
                proof {
                    let pushed = deduped.push(declared@[i as int]);
                    assert(kept@ == kept0.push(copy));
                    assert forall|m: Seq<char>| contains_module(kept@, m) == contains_module(
                        pushed,
                        m,
                    ) by {
                        if contains_module(kept@, m) {
                            let k = choose|k: int|
                                0 <= k < kept@.len() && kept@[k].module@ == m;
                            if k < kept0.len() {
                                assert(kept@[k] == kept0[k]);
                                assert(contains_module(kept0, m));
                                assert(contains_module(deduped, m));
                                let j = choose|j: int|
                                    0 <= j < deduped.len() && deduped[j].module@ == m;
                                assert(pushed[j] == deduped[j]);
                                assert(contains_module(pushed, m));
                            } else {
                                assert(kept@[k] == copy);
                                assert(copy.module@ == declared@[i as int].module@);
                                assert(pushed[pushed.len() - 1].module@ == m);
                                assert(contains_module(pushed, m));
                            }
                        }
                        if contains_module(pushed, m) {
                            let j = choose|j: int|
                                0 <= j < pushed.len() && pushed[j].module@ == m;
                            if j < deduped.len() {
                                assert(pushed[j] == deduped[j]);
                                assert(contains_module(deduped, m));
                                assert(contains_module(kept0, m));
                                let k = choose|k: int|
                                    0 <= k < kept0.len() && kept0[k].module@ == m;
                                assert(kept@[k] == kept0[k]);
                                assert(contains_module(kept@, m));
                            } else {
                                assert(pushed[j] == declared@[i as int]);
                                assert(copy.module@ == m);
                                assert(kept@[kept@.len() - 1].module@ == m);
                                assert(contains_module(kept@, m));
                            }
                        }
                    }
                }
            },
        }
        proof {
            let next = declared@.subrange(0, i + 1);
            assert(next.drop_last() =~= prefix);
            assert(next.last() == declared@[i as int]);
        }
        i = i + 1;
    }
    proof {
        assert(declared@.subrange(0, declared@.len() as int) =~= declared@);
    }
    (kept, diags)
}

impl Interfaces {
    /// Wraps the parsed attachment declarations.
    pub fn new(interfaces: Vec<ContractMessageAttr>) -> (r: Interfaces)
        ensures
            r.interfaces == interfaces,
    {
        Interfaces { interfaces }
    }

    /// The attachments, in declaration order.
    pub fn interfaces(&self) -> (r: &Vec<ContractMessageAttr>)
        ensures
            r == &self.interfaces,
    {
        &self.interfaces
    }

    /// The generic arguments every attachment supplies, flattened in
    /// declaration order.
    pub fn as_generic_args(&self) -> (r: Vec<String>)
        ensures
            r@.len() == spec_generic_args(self.interfaces@).len(),
            forall|k: int| 0 <= k < r@.len() ==> (#[trigger] r@[k])@ == spec_generic_args(
                self.interfaces@,
            )[k]@,
    {
        let mut args: Vec<String> = Vec::new();
        let mut i: usize = 0;
        proof {
            lemma_generic_args_prefix(self.interfaces@, 0);
        }
        while i < self.interfaces.len()
            invariant
                i <= self.interfaces@.len(),
                args@.len() == spec_generic_args(self.interfaces@.subrange(0, i as int)).len(),
                forall|k: int| 0 <= k < args@.len() ==> (#[trigger] args@[k])@ == spec_generic_args(
                    self.interfaces@.subrange(0, i as int),
                )[k]@,
            decreases self.interfaces@.len() - i,
        {
            let ghost prefix = self.interfaces@.subrange(0, i as int);
            let mut j: usize = 0;
            let gens = &self.interfaces[i].generics;
            while j < gens.len()
                invariant
                    j <= gens@.len(),
                    gens == &self.interfaces@[i as int].generics,
                    i < self.interfaces@.len(),
                    args@.len() == spec_generic_args(prefix).len() + j,
                    forall|k: int| 0 <= k < spec_generic_args(prefix).len() ==> (
                    #[trigger] args@[k])@ == spec_generic_args(prefix)[k]@,
                    forall|k: int| 0 <= k < j ==> (#[trigger] args@[spec_generic_args(
                        prefix,
                    ).len() + k])@ == gens@[k]@,
                decreases gens@.len() - j,
            {
                args.push(gens[j].clone());
                j = j + 1;
            }
            proof {
                lemma_generic_args_step(self.interfaces@, i as int);
                let pre = spec_generic_args(prefix);
                let nxt = spec_generic_args(self.interfaces@.subrange(0, i + 1));
                assert(nxt == pre + self.interfaces@[i as int].generics@);
                assert forall|k: int| 0 <= k < args@.len() implies (#[trigger] args@[k])@
                    == nxt[k]@ by {
                    if k >= pre.len() {
                        assert(args@[pre.len() + (k - pre.len())]@
                            == self.interfaces@[i as int].generics@[k - pre.len()]@);
                    }
                }
            }
            i = i + 1;
        }
        proof {
            assert(self.interfaces@.subrange(0, self.interfaces@.len() as int)
                =~= self.interfaces@);
        }
        args
    }

    /// The rendered name-table calls of the attachments for one kind, in
    /// declaration order: the dispatcher consults these tables in this order.
    pub fn emit_messages_call(&self, msg_ty: OpKind) -> (r: Vec<String>)
        ensures
            r@.len() == self.interfaces@.len(),
            forall|k: int| 0 <= k < r@.len() ==> (#[trigger] r@[k])@
                == self.interfaces@[k].module@ + "::sv::"@ + spec_ep_name(msg_ty) + "_messages"@,
    {
        let mut calls: Vec<String> = Vec::new();
        let mut i: usize = 0;
        while i < self.interfaces.len()
            invariant
                i <= self.interfaces@.len(),
                calls@.len() == i,
                forall|k: int| 0 <= k < i ==> (#[trigger] calls@[k])@
                    == self.interfaces@[k].module@ + "::sv::"@ + spec_ep_name(msg_ty)
                    + "_messages"@,
            decreases self.interfaces@.len() - i,
        {
            let mut s = self.interfaces[i].module.clone();
            s.append("::sv::");
            s.append(msg_ty.ep_name());
            s.append("_messages");
            proof {
                assert(s@ =~= self.interfaces@[i as int].module@ + "::sv::"@ + spec_ep_name(
                    msg_ty,
                ) + "_messages"@);
            }
            calls.push(s);
            i = i + 1;
        }
        calls
    }

    /// The outer-enum cases the attachments contribute, rendered name by
    /// name: each attachment's tag wraps that interface's per-kind message
    /// type, in attachment order, with the generic arguments the contract
    /// supplies spelled out on the interface's api path whenever the
    /// attachment declares any.
    pub fn emit_glue_message_variants(&self, msg_ty: OpKind) -> (r: Vec<String>)
        ensures
            r@.len() == self.interfaces@.len(),
            forall|k: int| 0 <= k < r@.len() ==> (#[trigger] r@[k])@
                == self.interfaces@[k].variant@ + "(<"@ + self.interfaces@[k].module@
                + "::sv::Api"@ + spec_brackets(views_of(self.interfaces@[k].generics@))
                + " as InterfaceApi>::"@ + spec_accessor_name(msg_ty) + ")"@,
    {
        let mut cases: Vec<String> = Vec::new();
        let mut i: usize = 0;
        while i < self.interfaces.len()
            invariant
                i <= self.interfaces@.len(),
                cases@.len() == i,
                forall|k: int| 0 <= k < i ==> (#[trigger] cases@[k])@
                    == self.interfaces@[k].variant@ + "(<"@ + self.interfaces@[k].module@
                    + "::sv::Api"@ + spec_brackets(views_of(self.interfaces@[k].generics@))
                    + " as InterfaceApi>::"@ + spec_accessor_name(msg_ty) + ")"@,
            decreases self.interfaces@.len() - i,
        {
            let mut s = self.interfaces[i].variant.clone();
            s.append("(<");
            s.append(self.interfaces[i].module.as_str());
            s.append("::sv::Api");
            let brackets = bracket_names(&self.interfaces[i].generics);
            s.append(brackets.as_str());
            s.append(" as InterfaceApi>::");
            s.append(msg_ty.accessor_name());
            s.append(")");
            proof {
                assert(s@ =~= self.interfaces@[i as int].variant@ + "(<"@
                    + self.interfaces@[i as int].module@ + "::sv::Api"@ + spec_brackets(
                    views_of(self.interfaces@[i as int].generics@),
                ) + " as InterfaceApi>::"@ + spec_accessor_name(msg_ty) + ")"@);
            }
            cases.push(s);
            i = i + 1;
        }
        cases
    }

    /// The response-schema lookups of the attachments for one kind, in
    /// attachment order, each on the interface's api path with the supplied
    /// generic arguments; the query glue merges these with the contract's own.
    pub fn emit_response_schemas_calls(&self, msg_ty: OpKind) -> (r: Vec<String>)
        ensures
            r@.len() == self.interfaces@.len(),
            forall|k: int| 0 <= k < r@.len() ==> (#[trigger] r@[k])@
                == "<"@ + self.interfaces@[k].module@ + "::sv::Api"@ + spec_brackets(
                views_of(self.interfaces@[k].generics@),
            ) + " as InterfaceApi>::"@ + spec_accessor_name(msg_ty)
                + "::response_schemas_impl()"@,
    {
        let mut calls: Vec<String> = Vec::new();
        let mut i: usize = 0;
        while i < self.interfaces.len()
            invariant
                i <= self.interfaces@.len(),
                calls@.len() == i,
                forall|k: int| 0 <= k < i ==> (#[trigger] calls@[k])@
                    == "<"@ + self.interfaces@[k].module@ + "::sv::Api"@ + spec_brackets(
                    views_of(self.interfaces@[k].generics@),
                ) + " as InterfaceApi>::"@ + spec_accessor_name(msg_ty)
                    + "::response_schemas_impl()"@,
            decreases self.interfaces@.len() - i,
        {
            let mut s = String::new();
            s.append("<");
            s.append(self.interfaces[i].module.as_str());
            s.append("::sv::Api");
            let brackets = bracket_names(&self.interfaces[i].generics);
            s.append(brackets.as_str());
            s.append(" as InterfaceApi>::");
            s.append(msg_ty.accessor_name());
            s.append("::response_schemas_impl()");
            proof {
                assert(s@ =~= "<"@ + self.interfaces@[i as int].module@ + "::sv::Api"@
                    + spec_brackets(views_of(self.interfaces@[i as int].generics@))
                    + " as InterfaceApi>::"@ + spec_accessor_name(msg_ty)
                    + "::response_schemas_impl()"@);
            }
            calls.push(s);
            i = i + 1;
        }
        calls
    }

    /// The single attachment, when exactly one is declared. With none, there
    /// is nothing to return; with more than one, every redefinition is
    /// reported against the first declaration.
    pub fn get_only_interface(&self) -> (r: (Option<&ContractMessageAttr>, Vec<Diagnostic>))
        ensures
            match r.0 {
                Some(a) => self.interfaces@.len() == 1 && a == &self.interfaces[0]
                    && r.1@.len() == 0,
                None => {
                    &&& (self.interfaces@.len() == 0 ==> r.1@.len() == 0)
                    &&& (self.interfaces@.len() > 1 ==> {
                        &&& r.1@.len() == self.interfaces@.len() - 1
                        &&& forall|k: int| 0 <= k < r.1@.len() ==> {
                            &&& (#[trigger] r.1@[k]).message@
                                == "The attribute `sv::messages` is redefined"@
                            &&& r.1@[k].origin@ == self.interfaces@[k + 1].module@
                            &&& r.1@[k].note matches Some(n) && n@ == self.interfaces@[0].module@
                        }
                    })
                },
            },
            r.0 is Some <==> self.interfaces@.len() == 1,
    {
        if self.interfaces.len() == 0 {
            return (None, Vec::new());
        }
        if self.interfaces.len() == 1 {
            return (Some(&self.interfaces[0]), Vec::new());
        }
        let first = &self.interfaces[0];
        let mut diags: Vec<Diagnostic> = Vec::new();
        let mut i: usize = 1;
        while i < self.interfaces.len()
            invariant
                1 <= i <= self.interfaces@.len(),
                first == &self.interfaces@[0],
                diags@.len() == i - 1,
                forall|k: int| 0 <= k < diags@.len() ==> {
                    &&& (#[trigger] diags@[k]).message@
                        == "The attribute `sv::messages` is redefined"@
                    &&& diags@[k].origin@ == self.interfaces@[k + 1].module@
                    &&& diags@[k].note matches Some(n) && n@ == self.interfaces@[0].module@
                },
            decreases self.interfaces@.len() - i,
        {
            diags.push(
                Diagnostic::with_note(
                    "The attribute `sv::messages` is redefined",
                    &self.interfaces[i].module,
                    &first.module,
                ),
            );
            i = i + 1;
        }
        (None, diags)
    }
}

proof fn lemma_generic_args_prefix(ifaces: Seq<ContractMessageAttr>, i: int)
    requires
        0 <= i <= ifaces.len(),
    ensures
        i == 0 ==> spec_generic_args(ifaces.subrange(0, i)) == Seq::<String>::empty(),
{
    if i == 0 {
        assert(ifaces.subrange(0, 0) =~= Seq::<ContractMessageAttr>::empty());
    }
}

/// One attachment's arguments extend the flattened prefix.
proof fn lemma_generic_args_step(ifaces: Seq<ContractMessageAttr>, i: int)
    requires
        0 <= i < ifaces.len(),
    ensures
        spec_generic_args(ifaces.subrange(0, i + 1)) == spec_generic_args(ifaces.subrange(0, i))
            + ifaces[i].generics@,
    decreases i,
{
    if i == 0 {
        let one = ifaces.subrange(0, 1);
        assert(one.skip(1) =~= Seq::<ContractMessageAttr>::empty());
        assert(spec_generic_args(one.skip(1)) =~= Seq::<String>::empty());
        assert(spec_generic_args(one) =~= one[0].generics@);
        assert(ifaces.subrange(0, 0) =~= Seq::<ContractMessageAttr>::empty());
        assert(spec_generic_args(ifaces.subrange(0, 0)) + ifaces[0].generics@
            =~= ifaces[0].generics@);
    } else {
        lemma_generic_args_step(ifaces.skip(1), i - 1);
        let a = ifaces.subrange(0, i + 1);
        let b = ifaces.subrange(0, i);
        assert(a.skip(1) =~= ifaces.skip(1).subrange(0, i));
        assert(b.skip(1) =~= ifaces.skip(1).subrange(0, i - 1));
        assert(a[0] == ifaces[0] && b[0] == ifaces[0]);
        assert(ifaces.skip(1)[i - 1] == ifaces[i]);
        assert(spec_generic_args(a) == ifaces[0].generics@ + spec_generic_args(
            ifaces.skip(1).subrange(0, i),
        ));
        assert(spec_generic_args(b) == ifaces[0].generics@ + spec_generic_args(
            ifaces.skip(1).subrange(0, i - 1),
        ));
        assert(spec_generic_args(a) =~= spec_generic_args(b) + ifaces[i].generics@);
    }
}

} // verus!

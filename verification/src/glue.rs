//! The glue message: the outer, per-operation-kind enum merging the variant
//! sets of every attached interface with the contract's own. The wire form is
//! untagged — an incoming payload is routed purely by which single top-level
//! key it carries — so the pairwise disjointness of all the merged name
//! tables is load-bearing and is checked exhaustively before any dispatch.

use vstd::prelude::*;
use vstd::relations::sorted_by;
use crate::OpKind;
use crate::diag::Diagnostic;
use crate::dispatch::{
    decode_variant, dispatch_variant, spec_decode, unique_names, DecodeError, SpecDecoded,
    VariantMsg,
};
use crate::interfaces::ContractMessageAttr;
use crate::text::{join_names, lex_leq_fn, sort_names, spec_join, u64_to_dec, views_of, spec_dec};
use crate::value::{body_views, value_views, TopEntry, Value, ValueView};
use crate::variants::{snake_names, MsgVariants};

verus! {

/// One attached interface's contribution to the glue: its attachment record
/// and its variant set for the glue's operation kind.
#[derive(Debug)]
pub struct InterfaceMsgs {
    pub attr: ContractMessageAttr,
    pub variants: MsgVariants,
}

/// The glue message for one operation kind.
#[derive(Debug)]
pub struct GlueMessage {
    /// The contract's name; the outer enum wraps the contract's own message
    /// under a variant of this name.
    pub contract_name: String,
    /// The operation kind.
    pub msg_ty: OpKind,
    /// The attached interfaces, in attachment order.
    pub interfaces: Vec<InterfaceMsgs>,
    /// The contract's own variant set.
    pub contract_variants: MsgVariants,
}

/// Where a routed payload lands: one of the attached interfaces, or the
/// contract's own message.
#[derive(Clone, Copy, Debug, PartialEq, Eq, Structural)]
pub enum GlueTarget {
    Attached(usize),
    Contract,
}

/// A fully decoded glue message: the owner of the key, and the inner message
/// decoded against that owner's variant set.
#[derive(Debug)]
pub struct GlueMsg {
    pub target: GlueTarget,
    pub msg: VariantMsg,
}

/// The call a decoded glue message dispatches to, with the context and
/// response conversions its owner's attachment flags require.
#[derive(Debug)]
pub struct GlueCall {
    pub target: GlueTarget,
    /// The method to invoke.
    pub function_name: String,
    /// The arguments, in declared field order.
    pub args: Vec<Value>,
    /// The context must be narrowed to the default query type first.
    pub narrow_ctx: bool,
    /// The response must be widened into the contract's response type.
    pub widen_response: bool,
}

/// Why an incoming payload failed to decode against the glue.
#[derive(Debug)]
pub enum GlueDecodeError {
    /// The top-level object did not hold exactly one key.
    NotSingleMessage { received: u64 },
    /// The single key matches no known name; `supported` lists every name
    /// known to the glue, sorted.
    UnknownMessage { received: String, supported: Vec<String> },
    /// The key's owner was found, but a declared field is missing.
    MissingField { field: String },
}

/// The wire names one target owns.
pub open spec fn names_of_target(g: GlueMessage, t: GlueTarget) -> Seq<Seq<char>> {
    match t {
        GlueTarget::Attached(i) => snake_names(g.interfaces@[i as int].variants.variants@),
        GlueTarget::Contract => snake_names(g.contract_variants.variants@),
    }
}

/// The variant set one target owns.
pub open spec fn set_of_target(g: GlueMessage, t: GlueTarget) -> Seq<crate::variant::MsgVariant> {
    match t {
        GlueTarget::Attached(i) => g.interfaces@[i as int].variants.variants@,
        GlueTarget::Contract => g.contract_variants.variants@,
    }
}

/// The merged name tables: one list per attachment, in attachment order, and
/// the contract's own list last.
pub open spec fn name_lists(g: GlueMessage) -> Seq<Seq<Seq<char>>> {
    Seq::new(
        g.interfaces@.len() + 1,
        |i: int|
            if i < g.interfaces@.len() {
                snake_names(g.interfaces@[i].variants.variants@)
            } else {
                snake_names(g.contract_variants.variants@)
            },
    )
}

/// No name occurs in both lists.
pub open spec fn lists_disjoint(a: Seq<Seq<char>>, b: Seq<Seq<char>>) -> bool {
    forall|i: int, j: int| 0 <= i < a.len() && 0 <= j < b.len() ==> a[i] != b[j]
}

/// Every pair of merged name tables is disjoint — every pair, not only
/// adjacent ones.
pub open spec fn glue_disjoint(g: GlueMessage) -> bool {
    forall|p: int, q: int| 0 <= p < q < name_lists(g).len() ==> lists_disjoint(
        #[trigger] name_lists(g)[p],
        #[trigger] name_lists(g)[q],
    )
}

/// How many entries of table `a` also stand somewhere in table `b`.
pub open spec fn clash_count(a: Seq<Seq<char>>, b: Seq<Seq<char>>) -> int
    decreases a.len(),
{
    if a.len() == 0 {
        0
    } else {
        clash_count(a.drop_last(), b) + if b.contains(a.last()) {
            1int
        } else {
            0
        }
    }
}

/// The clashes of table `p` against the tables strictly between `p` and `q`.
pub open spec fn row_clashes(g: GlueMessage, p: int, q: int) -> int
    decreases q - p,
{
    if q <= p + 1 {
        0
    } else {
        row_clashes(g, p, q - 1) + clash_count(name_lists(g)[p], name_lists(g)[q - 1])
    }
}

/// The clashes of every pair of merged tables whose first table lies below
/// `p`, each held against every later table.
pub open spec fn total_clashes(g: GlueMessage, p: int) -> int
    decreases p,
{
    if p <= 0 {
        0
    } else {
        total_clashes(g, p - 1) + row_clashes(g, p - 1, name_lists(g).len() as int)
    }
}

/// The name stands in two distinct merged tables.
pub open spec fn name_clashes(g: GlueMessage, n: Seq<char>) -> bool {
    exists|p: int, q: int|
        #![trigger name_lists(g)[p], name_lists(g)[q]]
        0 <= p < q < name_lists(g).len() && name_lists(g)[p].contains(n)
            && name_lists(g)[q].contains(n)
}

/// The first `p` name tables are disjoint from every later one.
pub open spec fn prefix_disjoint(g: GlueMessage, p: int) -> bool {
    forall|a: int, b: int| 0 <= a < b < name_lists(g).len() && a < p ==> lists_disjoint(
        #[trigger] name_lists(g)[a],
        #[trigger] name_lists(g)[b],
    )
}

/// Table `p` is disjoint from the tables strictly between `p` and `q`.
pub open spec fn row_disjoint(g: GlueMessage, p: int, q: int) -> bool {
    forall|b: int| p < b < q ==> lists_disjoint(
        name_lists(g)[p],
        #[trigger] name_lists(g)[b],
    )
}

/// The owner of a key: the first attachment, in attachment order, whose name
/// table holds it, then the contract's own table.
pub open spec fn spec_route_from(g: GlueMessage, key: Seq<char>, i: int) -> Option<GlueTarget>
    decreases g.interfaces@.len() - i,
{
    if i < 0 || i >= g.interfaces@.len() {
        if snake_names(g.contract_variants.variants@).contains(key) {
            Some(GlueTarget::Contract)
        } else {
            None
        }
    } else if snake_names(g.interfaces@[i].variants.variants@).contains(key) {
        Some(GlueTarget::Attached(i as usize))
    } else {
        spec_route_from(g, key, i + 1)
    }
}

/// The owner of a key.
pub open spec fn spec_route(g: GlueMessage, key: Seq<char>) -> Option<GlueTarget> {
    spec_route_from(g, key, 0)
}

/// What decoding one tagged payload against the glue yields.
pub enum SpecGlueDecoded {
    /// The key's owner, the variant hit there, and the bound values.
    Hit { target: GlueTarget, idx: int, values: Seq<ValueView> },
    /// No table knows the key.
    Unknown,
    /// The owner was found but this declared field is missing.
    NoField { field: Seq<char> },
}

/// The decoding of one tagged payload against the glue: route by the key,
/// then decode against the owner's variant set.
pub open spec fn spec_glue_decode(
    g: GlueMessage,
    key: Seq<char>,
    fields: Seq<(Seq<char>, ValueView)>,
) -> SpecGlueDecoded {
    match spec_route(g, key) {
        None => SpecGlueDecoded::Unknown,
        Some(t) => match spec_decode(set_of_target(g, t), key, fields) {
            SpecDecoded::Hit { idx, values } => SpecGlueDecoded::Hit { target: t, idx, values },
            SpecDecoded::NoField { field } => SpecGlueDecoded::NoField { field },
            SpecDecoded::NoVariant => SpecGlueDecoded::Unknown,
        },
    }
}

/// Whether the set owns the wire name `key`.
fn set_has_name(vs: &MsgVariants, key: &String) -> (r: bool)
    ensures
        r == snake_names(vs.variants@).contains(key@),
{
    let mut i: usize = 0;
    while i < vs.variants.len()
        invariant
            i <= vs.variants@.len(),
            forall|k: int| 0 <= k < i ==> (#[trigger] vs.variants@[k]).snake_name@ != key@,
        decreases vs.variants@.len() - i,
    {
        if vs.variants[i].snake_name.eq(key) {
            assert(snake_names(vs.variants@)[i as int] == key@);
            return true;
        }
        i = i + 1;
    }
    proof {
        assert forall|k: int| 0 <= k < snake_names(vs.variants@).len() implies #[trigger]
        snake_names(vs.variants@)[k] != key@ by {
            assert(vs.variants@[k].snake_name@ != key@);
        }
    }
    false
}

impl GlueMessage {
    /// Routes a key to its owner: each attachment's name table is scanned in
    /// attachment order, the contract's own last, and the first table holding
    /// the key wins. Under the checked disjointness, at most one table can
    /// hold it, so the scan order cannot change the outcome.
    pub fn route(&self, key: &String) -> (r: Option<GlueTarget>)
        ensures
            r == spec_route(*self, key@),
            r matches Some(GlueTarget::Attached(i)) ==> i < self.interfaces@.len(),
    {
        let mut i: usize = 0;
        while i < self.interfaces.len()
            invariant
                i <= self.interfaces@.len(),
                spec_route(*self, key@) == spec_route_from(*self, key@, i as int),
            decreases self.interfaces@.len() - i,
        {
            if set_has_name(&self.interfaces[i].variants, key) {
                return Some(GlueTarget::Attached(i));
            }
            i = i + 1;
        }
        if set_has_name(&self.contract_variants, key) {
            Some(GlueTarget::Contract)
        } else {
            None
        }
    }

    /// Every wire name the glue knows, table by table, in routing order.
    pub fn all_names(&self) -> (r: Vec<String>)
        ensures
            views_of(r@) == name_lists(*self).flatten(),
    {
        let mut names: Vec<String> = Vec::new();
        let ghost lists = name_lists(*self);
        let mut i: usize = 0;
        proof {
            assert(lists.subrange(0, 0).flatten() =~= Seq::<Seq<char>>::empty());
            assert(views_of(names@) =~= lists.subrange(0, 0).flatten());
        }
        while i < self.interfaces.len()
            invariant
                i <= self.interfaces@.len(),
                lists == name_lists(*self),
                views_of(names@) == lists.subrange(0, i as int).flatten(),
            decreases self.interfaces@.len() - i,
        {
            let mut table = self.interfaces[i].variants.as_names_snake_cased();
            let ghost old_names = names@;
            names.append(&mut table);
            proof {
                assert(views_of(names@) =~= views_of(old_names) + lists[i as int]);
                lemma_flatten_snoc(lists, i as int);
            }
            i = i + 1;
        }
        let mut own = self.contract_variants.as_names_snake_cased();
        let ghost old_names = names@;
        names.append(&mut own);
        proof {
            assert(views_of(names@) =~= views_of(old_names) + lists[lists.len() - 1]);
            lemma_flatten_snoc(lists, lists.len() - 1);
            assert(lists.subrange(0, lists.len() as int) =~= lists);
        }
        names
    }

    /// The sorted listing of every known wire name, as the unknown-message
    /// report enumerates it.
    pub fn supported_names(&self) -> (r: Vec<String>)
        ensures
            views_of(r@) == name_lists(*self).flatten().sort_by(lex_leq_fn()),
            sorted_by(views_of(r@), lex_leq_fn()),
    {
        let names = self.all_names();
        sort_names(&names)
    }

    /// Checks, pair by pair, that no wire name is claimed by two of the merged
    /// tables; every clash is reported with the claimed name.
    pub fn check_no_intersection(&self) -> (r: Result<(), Vec<Diagnostic>>)
        ensures
            r is Ok <==> glue_disjoint(*self),
            r matches Err(ds) ==> {
                &&& ds@.len() > 0
                &&& ds@.len() == total_clashes(*self, self.interfaces@.len() as int)
                &&& forall|k: int| 0 <= k < ds@.len() ==> {
                    &&& (#[trigger] ds@[k]).message@
                        == "Message name collides across interfaces"@
                    &&& name_clashes(*self, ds@[k].origin@)
                }
            },
    {
        let n = self.interfaces.len();
        let mut diags: Vec<Diagnostic> = Vec::new();
        let mut p: usize = 0;
        while p < n
            invariant
                n == self.interfaces@.len(),
                p <= n,
                diags@.len() == 0 ==> prefix_disjoint(*self, p as int),
                diags@.len() > 0 ==> !glue_disjoint(*self),
                diags@.len() == total_clashes(*self, p as int),
                forall|k: int| 0 <= k < diags@.len() ==> {
                    &&& (#[trigger] diags@[k]).message@
                        == "Message name collides across interfaces"@
                    &&& name_clashes(*self, diags@[k].origin@)
                },
            decreases n - p,
        {
            let table = self.interfaces[p].variants.as_names_snake_cased();
            let ghost list_p = name_lists(*self)[p as int];
            assert(views_of(table@) == list_p);
            assert(list_p.len() == table@.len());
            assert(row_clashes(*self, p as int, p + 1) == 0);
            let mut q: usize = p + 1;
            while q < n
                invariant
                    n == self.interfaces@.len(),
                    p < n,
                    p < q <= n,
                    list_p == name_lists(*self)[p as int],
                    views_of(table@) == list_p,
                    list_p.len() == table@.len(),
                    diags@.len() == 0 ==> prefix_disjoint(*self, p as int),
                    diags@.len() == 0 ==> row_disjoint(*self, p as int, q as int),
                    diags@.len() > 0 ==> !glue_disjoint(*self),
                    diags@.len() == total_clashes(*self, p as int) + row_clashes(
                        *self,
                        p as int,
                        q as int,
                    ),
                    forall|k: int| 0 <= k < diags@.len() ==> {
                        &&& (#[trigger] diags@[k]).message@
                            == "Message name collides across interfaces"@
                        &&& name_clashes(*self, diags@[k].origin@)
                    },
                decreases n - q,
            {
                let ghost list_q = name_lists(*self)[q as int];
                proof {
                    assert(list_p.subrange(0, 0) =~= Seq::<Seq<char>>::empty());
                    assert(clash_count(list_p.subrange(0, 0), list_q) == 0);
                }
                let mut t: usize = 0;
                while t < table.len()
                    invariant
                        n == self.interfaces@.len(),
                        p < q < n,
                        t <= table@.len(),
                        list_p == name_lists(*self)[p as int],
                        list_q == name_lists(*self)[q as int],
                        views_of(table@) == list_p,
                        list_p.len() == table@.len(),
                        diags@.len() == 0 ==> prefix_disjoint(*self, p as int),
                        diags@.len() == 0 ==> row_disjoint(*self, p as int, q as int),
                        diags@.len() == 0 ==> forall|a: int| 0 <= a < t ==> !list_q.contains(
                            #[trigger] list_p[a],
                        ),
                        diags@.len() > 0 ==> !glue_disjoint(*self),
                        diags@.len() == total_clashes(*self, p as int) + row_clashes(
                            *self,
                            p as int,
                            q as int,
                        ) + clash_count(list_p.subrange(0, t as int), list_q),
                        forall|k: int| 0 <= k < diags@.len() ==> {
                            &&& (#[trigger] diags@[k]).message@
                                == "Message name collides across interfaces"@
                            &&& name_clashes(*self, diags@[k].origin@)
                        },
                    decreases table@.len() - t,
                {
                    if set_has_name(&self.interfaces[q].variants, &table[t]) {
                        proof {
                            assert(list_q.contains(list_p[t as int]));
                            let w = choose|j: int|
                                0 <= j < list_q.len() && list_q[j] == list_p[t as int];
                            assert(list_p[t as int] == list_q[w]);
                            assert(!lists_disjoint(list_p, list_q));
                            assert(!glue_disjoint(*self));
                            assert(list_p.contains(list_p[t as int]));
                            assert(name_clashes(*self, list_p[t as int]));
                        }
                        diags.push(
                            Diagnostic::new("Message name collides across interfaces", &table[t]),
                        );
                    }
                    proof {
                        let pre = list_p.subrange(0, t as int);
                        let next = list_p.subrange(0, t + 1);
                        assert(next.drop_last() =~= pre);
                        assert(next.last() == list_p[t as int]);
                        assert(clash_count(next, list_q) == clash_count(pre, list_q)
                            + if list_q.contains(list_p[t as int]) { 1int } else { 0 });
                    }
                    t = t + 1;
                }
                proof {
                    if diags@.len() == 0 {
                        assert forall|a: int, b: int|
                            0 <= a < list_p.len() && 0 <= b < list_q.len() implies list_p[a]
                            != list_q[b] by {
                            assert(!list_q.contains(list_p[a]));
                        }
                        assert(lists_disjoint(list_p, list_q));
                        assert forall|b: int| p < b < q + 1 implies lists_disjoint(
                            name_lists(*self)[p as int],
                            #[trigger] name_lists(*self)[b],
                        ) by {
                            if b == q {
                                assert(name_lists(*self)[b] == list_q);
                            } else {
                                assert(lists_disjoint(
                                    name_lists(*self)[p as int],
                                    name_lists(*self)[b],
                                ));
                            }
                        }
                        assert(row_disjoint(*self, p as int, q + 1));
                    }
                    assert(list_p.subrange(0, table@.len() as int) =~= list_p);
                    assert(row_clashes(*self, p as int, q + 1) == row_clashes(
                        *self,
                        p as int,
                        q as int,
                    ) + clash_count(list_p, list_q));
                }
                q = q + 1;
            }
            // the contract's own table, held against attachment p
            let ghost list_c = name_lists(*self)[name_lists(*self).len() - 1];
            proof {
                assert(list_p.subrange(0, 0) =~= Seq::<Seq<char>>::empty());
                assert(clash_count(list_p.subrange(0, 0), list_c) == 0);
            }
            let mut t: usize = 0;
            while t < table.len()
                invariant
                    n == self.interfaces@.len(),
                    p < n,
                    t <= table@.len(),
                    list_p == name_lists(*self)[p as int],
                    list_c == name_lists(*self)[name_lists(*self).len() - 1],
                    views_of(table@) == list_p,
                    list_p.len() == table@.len(),
                    diags@.len() == 0 ==> prefix_disjoint(*self, p as int),
                    diags@.len() == 0 ==> row_disjoint(*self, p as int, n as int),
                    diags@.len() == 0 ==> forall|a: int| 0 <= a < t ==> !list_c.contains(
                        #[trigger] list_p[a],
                    ),
                    diags@.len() > 0 ==> !glue_disjoint(*self),
                    diags@.len() == total_clashes(*self, p as int) + row_clashes(
                        *self,
                        p as int,
                        n as int,
                    ) + clash_count(list_p.subrange(0, t as int), list_c),
                    forall|k: int| 0 <= k < diags@.len() ==> {
                        &&& (#[trigger] diags@[k]).message@
                            == "Message name collides across interfaces"@
                        &&& name_clashes(*self, diags@[k].origin@)
                    },
                decreases table@.len() - t,
            {
                if set_has_name(&self.contract_variants, &table[t]) {
                    proof {
                        assert(list_c.contains(list_p[t as int]));
                        let w = choose|j: int|
                            0 <= j < list_c.len() && list_c[j] == list_p[t as int];
                        assert(list_p[t as int] == list_c[w]);
                        assert(!lists_disjoint(list_p, list_c));
                        assert(p < name_lists(*self).len() - 1);
                        assert(!glue_disjoint(*self));
                        assert(list_p.contains(list_p[t as int]));
                        assert(name_clashes(*self, list_p[t as int]));
                    }
                    diags.push(
                        Diagnostic::new("Message name collides across interfaces", &table[t]),
                    );
                }
                proof {
                    let pre = list_p.subrange(0, t as int);
                    let next = list_p.subrange(0, t + 1);
                    assert(next.drop_last() =~= pre);
                    assert(next.last() == list_p[t as int]);
                    assert(clash_count(next, list_c) == clash_count(pre, list_c)
                        + if list_c.contains(list_p[t as int]) { 1int } else { 0 });
                }
                t = t + 1;
            }
            proof {
                if diags@.len() == 0 {
                    assert forall|a: int, b: int|
                        0 <= a < list_p.len() && 0 <= b < list_c.len() implies list_p[a]
                        != list_c[b] by {
                        assert(!list_c.contains(list_p[a]));
                    }
                    assert(lists_disjoint(list_p, list_c));
                    assert forall|a: int, b: int|
                        0 <= a < b < name_lists(*self).len() && a < p + 1 implies lists_disjoint(
                        #[trigger] name_lists(*self)[a],
                        #[trigger] name_lists(*self)[b],
                    ) by {
                        if a == p {
                            assert(name_lists(*self)[a] == list_p);
                            if b == name_lists(*self).len() - 1 {
                                assert(name_lists(*self)[b] == list_c);
                                assert(lists_disjoint(list_p, list_c));
                            } else {
                                assert(p < b < n);
                                assert(lists_disjoint(
                                    name_lists(*self)[p as int],
                                    name_lists(*self)[b],
                                ));
                            }
                        }
                    }
                    assert(prefix_disjoint(*self, p + 1));
                }
                assert(list_p.subrange(0, table@.len() as int) =~= list_p);
                assert(name_lists(*self)[n as int] == list_c);
                assert(row_clashes(*self, p as int, n + 1) == row_clashes(*self, p as int, n as int)
                    + clash_count(list_p, list_c));
                assert(total_clashes(*self, p + 1) == total_clashes(*self, p as int)
                    + row_clashes(*self, p as int, name_lists(*self).len() as int));
                assert(name_lists(*self).len() == n + 1);
            }
            p = p + 1;
        }
        if diags.len() == 0 {
            proof {
                assert forall|a: int, b: int|
                    0 <= a < b < name_lists(*self).len() implies lists_disjoint(
                    #[trigger] name_lists(*self)[a],
                    #[trigger] name_lists(*self)[b],
                ) by {
                    assert(a < name_lists(*self).len() - 1);
                    assert(a < n);
                }
            }
            Ok(())
        } else {
            Err(diags)
        }
    }

    /// Decodes an incoming top-level object: it must hold exactly one key;
    /// the key is routed to the single table that owns it and the body is
    /// decoded against that owner's variant set; an unowned key is reported
    /// together with every name the glue knows, sorted.
    pub fn decode(&self, payload: &Vec<TopEntry>) -> (r: Result<GlueMsg, GlueDecodeError>)
        ensures
            payload@.len() != 1 <==> (r matches Err(
                GlueDecodeError::NotSingleMessage { received },
            ) && received == payload@.len()),
            payload@.len() == 1 ==> match r {
                Ok(gm) => {
                    &&& spec_glue_decode(
                        *self,
                        payload@[0].key@,
                        body_views(payload@[0].body@),
                    ) == (SpecGlueDecoded::Hit {
                        target: gm.target,
                        idx: gm.msg.idx as int,
                        values: value_views(gm.msg.values@),
                    })
                    &&& gm.msg.idx < set_of_target(*self, gm.target).len()
                    &&& gm.target matches GlueTarget::Attached(i) ==> i < self.interfaces@.len()
                },
                Err(GlueDecodeError::UnknownMessage { received, supported }) => {
                    &&& spec_glue_decode(*self, payload@[0].key@, body_views(payload@[0].body@))
                        is Unknown
                    &&& received@ == payload@[0].key@
                    &&& views_of(supported@) == name_lists(*self).flatten().sort_by(lex_leq_fn())
                },
                Err(GlueDecodeError::MissingField { field }) => spec_glue_decode(
                    *self,
                    payload@[0].key@,
                    body_views(payload@[0].body@),
                ) == (SpecGlueDecoded::NoField { field: field@ }),
                Err(GlueDecodeError::NotSingleMessage { .. }) => false,
            },
    {
        if payload.len() != 1 {
            return Err(GlueDecodeError::NotSingleMessage { received: payload.len() as u64 });
        }
        let key = &payload[0].key;
        let body = &payload[0].body;
        match self.route(key) {
            None => Err(
                GlueDecodeError::UnknownMessage {
                    received: key.clone(),
                    supported: self.supported_names(),
                },
            ),
            Some(GlueTarget::Attached(i)) => {
                proof {
                    assert(self.interfaces.len() as int == self.interfaces@.len());
                    lemma_route_member(*self, key@, GlueTarget::Attached(i));
                    let vsq = self.interfaces@[i as int].variants.variants@;
                    let j = choose|j: int|
                        0 <= j < snake_names(vsq).len() && snake_names(vsq)[j] == key@;
                    assert(j < vsq.len() ==> vsq[j].snake_name@ == key@);
                    crate::dispatch::lemma_find_variant_first(vsq, key@);
                }
                match decode_variant(&self.interfaces[i].variants, key, body) {
                    Ok(m) => Ok(GlueMsg { target: GlueTarget::Attached(i), msg: m }),
                    Err(DecodeError::MissingField { field }) => Err(
                        GlueDecodeError::MissingField { field },
                    ),
                    Err(DecodeError::UnknownVariant { .. }) => {
                        proof {
                            assert(false);
                        }
                        Err(GlueDecodeError::NotSingleMessage { received: 1 })
                    },
                }
            },
            Some(GlueTarget::Contract) => {
                proof {
                    assert(self.interfaces.len() as int == self.interfaces@.len());
                    lemma_route_member(*self, key@, GlueTarget::Contract);
                    let vsq = self.contract_variants.variants@;
                    let j = choose|j: int|
                        0 <= j < snake_names(vsq).len() && snake_names(vsq)[j] == key@;
                    assert(j < vsq.len() ==> vsq[j].snake_name@ == key@);
                    crate::dispatch::lemma_find_variant_first(vsq, key@);
                }
                match decode_variant(&self.contract_variants, key, body) {
                    Ok(m) => Ok(GlueMsg { target: GlueTarget::Contract, msg: m }),
                    Err(DecodeError::MissingField { field }) => Err(
                        GlueDecodeError::MissingField { field },
                    ),
                    Err(DecodeError::UnknownVariant { .. }) => {
                        proof {
                            assert(false);
                        }
                        Err(GlueDecodeError::NotSingleMessage { received: 1 })
                    },
                }
            },
        }
    }

    /// Translates a decoded glue message into the call it dispatches to: the
    /// owning set's method with the bound values, the context narrowed and the
    /// response widened exactly as the owner's attachment flags and the
    /// operation kind require; the contract's own messages convert nothing.
    pub fn dispatch(&self, gm: GlueMsg) -> (r: GlueCall)
        requires
            gm.target matches GlueTarget::Attached(i) ==> i < self.interfaces@.len(),
            gm.msg.idx < set_of_target(*self, gm.target).len(),
        ensures
            r.target == gm.target,
            r.function_name@ == set_of_target(*self, gm.target)[gm.msg.idx as int].function_name@,
            r.args == gm.msg.values,
            r.narrow_ctx == (match gm.target {
                GlueTarget::Attached(i) => crate::ops::spec_needs_ctx_narrowing(
                    self.msg_ty,
                    self.interfaces@[i as int].attr.custom_query,
                ),
                GlueTarget::Contract => false,
            }),
            r.widen_response == (match gm.target {
                GlueTarget::Attached(i) => crate::ops::spec_needs_response_widening(
                    self.msg_ty,
                    self.interfaces@[i as int].attr.custom_msg,
                ),
                GlueTarget::Contract => false,
            }),
    {
        match gm.target {
            GlueTarget::Attached(i) => {
                let call = dispatch_variant(&self.interfaces[i].variants, gm.msg);
                GlueCall {
                    target: gm.target,
                    function_name: call.function_name,
                    args: call.args,
                    narrow_ctx: self.msg_ty.needs_ctx_narrowing(
                        self.interfaces[i].attr.custom_query,
                    ),
                    widen_response: self.msg_ty.needs_response_widening(
                        self.interfaces[i].attr.custom_msg,
                    ),
                }
            },
            GlueTarget::Contract => {
                let call = dispatch_variant(&self.contract_variants, gm.msg);
                GlueCall {
                    target: gm.target,
                    function_name: call.function_name,
                    args: call.args,
                    narrow_ctx: false,
                    widen_response: false,
                }
            },
        }
    }
}

impl GlueMessage {
    /// The whole receive path of one entry point: decode the incoming
    /// payload against the glue and translate the hit into the owning
    /// method's call, conversions included.
    pub fn handle(&self, payload: &Vec<TopEntry>) -> (r: Result<GlueCall, GlueDecodeError>)
        ensures
            payload@.len() != 1 <==> (r matches Err(
                GlueDecodeError::NotSingleMessage { received },
            ) && received == payload@.len()),
            payload@.len() == 1 ==> match r {
                Ok(call) => (spec_glue_decode(
                    *self,
                    payload@[0].key@,
                    body_views(payload@[0].body@),
                ) matches SpecGlueDecoded::Hit { target, idx, values } && {
                    &&& call.target == target
                    &&& call.function_name@ == set_of_target(*self, target)[idx].function_name@
                    &&& value_views(call.args@) == values
                    &&& call.narrow_ctx == (match target {
                        GlueTarget::Attached(i) => crate::ops::spec_needs_ctx_narrowing(
                            self.msg_ty,
                            self.interfaces@[i as int].attr.custom_query,
                        ),
                        GlueTarget::Contract => false,
                    })
                    &&& call.widen_response == (match target {
                        GlueTarget::Attached(i) => crate::ops::spec_needs_response_widening(
                            self.msg_ty,
                            self.interfaces@[i as int].attr.custom_msg,
                        ),
                        GlueTarget::Contract => false,
                    })
                }),
                Err(GlueDecodeError::UnknownMessage { received, supported }) => {
                    &&& spec_glue_decode(*self, payload@[0].key@, body_views(payload@[0].body@))
                        is Unknown
                    &&& received@ == payload@[0].key@
                    &&& views_of(supported@) == name_lists(*self).flatten().sort_by(lex_leq_fn())
                },
                Err(GlueDecodeError::MissingField { field }) => spec_glue_decode(
                    *self,
                    payload@[0].key@,
                    body_views(payload@[0].body@),
                ) == (SpecGlueDecoded::NoField { field: field@ }),
                Err(GlueDecodeError::NotSingleMessage { .. }) => false,
            },
    {
        match self.decode(payload) {
            Ok(gm) => Ok(self.dispatch(gm)),
            Err(e) => Err(e),
        }
    }
}

impl GlueDecodeError {
    /// The report the generated code hands back: the unknown-message report
    /// enumerates every known name, sorted, comma-joined, with no trailing
    /// separator.
    pub fn message(&self) -> (r: String)
        ensures
            match self {
                GlueDecodeError::NotSingleMessage { received } => r@
                    == "Expected exactly one message. Received "@ + spec_dec(*received as int),
                GlueDecodeError::UnknownMessage { received, supported } => r@
                    == "Unsupported message received: "@ + received@
                    + ". Messages supported by this contract: "@ + spec_join(
                    views_of(supported@),
                    ", "@,
                ),
                GlueDecodeError::MissingField { field } => r@ == "missing field `"@ + field@
                    + "`"@,
            },
    {
        match self {
            GlueDecodeError::NotSingleMessage { received } => {
                let mut s = String::new();
                s.append("Expected exactly one message. Received ");
                let n = u64_to_dec(*received);
                s.append(n.as_str());
                proof {
                    assert(s@ =~= "Expected exactly one message. Received "@ + spec_dec(
                        *received as int,
                    ));
                }
                s
            },
            GlueDecodeError::UnknownMessage { received, supported } => {
                let mut s = String::new();
                s.append("Unsupported message received: ");
                s.append(received.as_str());
                s.append(". Messages supported by this contract: ");
                let listing = join_names(supported, ", ");
                s.append(listing.as_str());
                proof {
                    assert(s@ =~= "Unsupported message received: "@ + received@
                        + ". Messages supported by this contract: "@ + spec_join(
                        views_of(supported@),
                        ", "@,
                    ));
                }
                s
            },
            GlueDecodeError::MissingField { field } => {
                let mut s = String::new();
                s.append("missing field `");
                s.append(field.as_str());
                s.append("`");
                proof {
                    assert(s@ =~= "missing field `"@ + field@ + "`"@);
                }
                s
            },
        }
    }
}

/// The glue messages of every operation kind a contract merges with its
/// attachments. An unknown-message report enumerates the names known to the
/// whole contract, across these kinds.
#[derive(Debug)]
pub struct ContractDispatch {
    pub execute: GlueMessage,
    pub query: GlueMessage,
    pub sudo: GlueMessage,
}

/// Every wire name known to the contract, kind by kind.
pub open spec fn contract_known_names(c: ContractDispatch) -> Seq<Seq<char>> {
    name_lists(c.execute).flatten() + name_lists(c.query).flatten() + name_lists(
        c.sudo,
    ).flatten()
}

impl ContractDispatch {
    /// The glue of one of the merged kinds.
    pub open spec fn glue_of(self, msg_ty: OpKind) -> GlueMessage {
        if msg_ty == OpKind::Exec {
            self.execute
        } else if msg_ty == OpKind::Query {
            self.query
        } else {
            self.sudo
        }
    }

    /// Every wire name the contract knows, across its merged kinds, sorted as
    /// the unknown-message report enumerates it.
    pub fn known_names_sorted(&self) -> (r: Vec<String>)
        ensures
            views_of(r@) == contract_known_names(*self).sort_by(lex_leq_fn()),
    {
        let mut names = self.execute.all_names();
        let mut qn = self.query.all_names();
        let mut sn = self.sudo.all_names();
        let ghost en_v = views_of(names@);
        names.append(&mut qn);
        let ghost eq_v = views_of(names@);
        names.append(&mut sn);
        proof {
            assert(eq_v =~= en_v + name_lists(self.query).flatten());
            assert(views_of(names@) =~= eq_v + name_lists(self.sudo).flatten());
            assert(views_of(names@) =~= contract_known_names(*self));
        }
        sort_names(&names)
    }

    /// Decodes an incoming payload of one of the merged kinds against that
    /// kind's glue; an unowned key is reported together with every name known
    /// to the whole contract, across kinds, sorted.
    pub fn decode(&self, msg_ty: OpKind, payload: &Vec<TopEntry>) -> (r: Result<
        GlueMsg,
        GlueDecodeError,
    >)
        requires
            msg_ty == OpKind::Exec || msg_ty == OpKind::Query || msg_ty == OpKind::Sudo,
        ensures
            payload@.len() != 1 <==> (r matches Err(
                GlueDecodeError::NotSingleMessage { received },
            ) && received == payload@.len()),
            payload@.len() == 1 ==> match r {
                Ok(gm) => {
                    &&& spec_glue_decode(
                        self.glue_of(msg_ty),
                        payload@[0].key@,
                        body_views(payload@[0].body@),
                    ) == (SpecGlueDecoded::Hit {
                        target: gm.target,
                        idx: gm.msg.idx as int,
                        values: value_views(gm.msg.values@),
                    })
                    &&& gm.msg.idx < set_of_target(self.glue_of(msg_ty), gm.target).len()
                    &&& gm.target matches GlueTarget::Attached(i) ==> i < self.glue_of(
                        msg_ty,
                    ).interfaces@.len()
                },
                Err(GlueDecodeError::UnknownMessage { received, supported }) => {
                    &&& spec_glue_decode(
                        self.glue_of(msg_ty),
                        payload@[0].key@,
                        body_views(payload@[0].body@),
                    ) is Unknown
                    &&& received@ == payload@[0].key@
                    &&& views_of(supported@) == contract_known_names(*self).sort_by(lex_leq_fn())
                },
                Err(GlueDecodeError::MissingField { field }) => spec_glue_decode(
                    self.glue_of(msg_ty),
                    payload@[0].key@,
                    body_views(payload@[0].body@),
                ) == (SpecGlueDecoded::NoField { field: field@ }),
                Err(GlueDecodeError::NotSingleMessage { .. }) => false,
            },
    {
        let glue = if matches!(msg_ty, OpKind::Exec) {
            &self.execute
        } else if matches!(msg_ty, OpKind::Query) {
            &self.query
        } else {
            &self.sudo
        };
        match glue.decode(payload) {
            Ok(gm) => Ok(gm),
            Err(GlueDecodeError::UnknownMessage { received, supported: _ }) => Err(
                GlueDecodeError::UnknownMessage {
                    received,
                    supported: self.known_names_sorted(),
                },
            ),
            Err(e) => Err(e),
        }
    }
}

/// The combined size of a family of name tables.
pub open spec fn total_len(lists: Seq<Seq<Seq<char>>>) -> int
    decreases lists.len(),
{
    if lists.len() == 0 {
        0
    } else {
        lists[0].len() + total_len(lists.skip(1))
    }
}

/// Every name of a flattened family comes from one of its tables.
proof fn lemma_flatten_elem(lists: Seq<Seq<Seq<char>>>, j: int)
    requires
        0 <= j < lists.flatten().len(),
    ensures
        exists|p: int, i: int|
            0 <= p < lists.len() && 0 <= i < lists[p].len() && lists.flatten()[j] == #[trigger] (
            lists[p][i]),
    decreases lists.len(),
{
    assert(lists.len() > 0);
    let head = lists.first();
    let rest = lists.drop_first();
    assert(lists.flatten() == head + rest.flatten());
    if j < head.len() {
        assert(lists.flatten()[j] == lists[0][j]);
    } else {
        lemma_flatten_elem(rest, j - head.len());
        let (p, i) = choose|p: int, i: int|
            0 <= p < rest.len() && 0 <= i < rest[p].len() && rest.flatten()[j - head.len()]
                == #[trigger] (rest[p][i]);
        assert(rest[p] == lists[p + 1]);
        assert(lists.flatten()[j] == rest.flatten()[j - head.len()]);
        assert(lists.flatten()[j] == lists[p + 1][i]);
    }
}

proof fn lemma_flatten_disjoint_unique(lists: Seq<Seq<Seq<char>>>)
    requires
        forall|p: int| 0 <= p < lists.len() ==> unique_names(#[trigger] lists[p]),
        forall|p: int, q: int| 0 <= p < q < lists.len() ==> lists_disjoint(
            #[trigger] lists[p],
            #[trigger] lists[q],
        ),
    ensures
        lists.flatten().len() == total_len(lists),
        unique_names(lists.flatten()),
    decreases lists.len(),
{
    if lists.len() == 0 {
        assert(lists.flatten() =~= Seq::<Seq<char>>::empty());
    } else {
        let head = lists.first();
        let rest = lists.drop_first();
        assert(forall|p: int| 0 <= p < rest.len() ==> rest[p] == #[trigger] lists[p + 1]);
        lemma_flatten_disjoint_unique(rest);
        let flat = lists.flatten();
        assert(flat == head + rest.flatten());
        assert(rest.skip(1) =~= lists.skip(1).drop_first());
        assert(lists.skip(1) =~= rest);
        assert(flat.len() == head.len() + total_len(rest));
        assert forall|a: int, b: int| 0 <= a < b < flat.len() implies flat[a] != flat[b] by {
            if b < head.len() {
                assert(flat[a] == lists[0][a] && flat[b] == lists[0][b]);
            } else if a >= head.len() {
                assert(flat[a] == rest.flatten()[a - head.len()]);
                assert(flat[b] == rest.flatten()[b - head.len()]);
            } else {
                assert(flat[a] == lists[0][a]);
                assert(flat[b] == rest.flatten()[b - head.len()]);
                lemma_flatten_elem(rest, b - head.len());
                let (p, i) = choose|p: int, i: int|
                    0 <= p < rest.len() && 0 <= i < rest[p].len() && rest.flatten()[b - head.len()]
                        == #[trigger] (rest[p][i]);
                assert(rest[p] == lists[p + 1]);
                assert(lists_disjoint(lists[0], lists[p + 1]));
            }
        }
    }
}

/// Disjointness is what makes the merged surface exactly the sum of its
/// parts: when every merged table holds pairwise-distinct names and every
/// pair of tables is disjoint, the union of the per-kind name tables holds
/// exactly the sum of the attachments' and the contract's own variant counts,
/// with no duplicate anywhere.
pub proof fn lemma_disjoint_union_count(g: GlueMessage)
    requires
        glue_disjoint(g),
        forall|p: int| 0 <= p < name_lists(g).len() ==> unique_names(#[trigger] name_lists(g)[p]),
    ensures
        name_lists(g).flatten().len() == total_len(name_lists(g)),
        unique_names(name_lists(g).flatten()),
{
    lemma_flatten_disjoint_unique(name_lists(g));
}

/// With disjoint tables the untagged wire form is unambiguous: a key owned by
/// any one of the merged tables is routed to that table and no other, whatever
/// the scan order — so the first match the dispatcher takes is the only match.
pub proof fn lemma_route_unambiguous(g: GlueMessage, key: Seq<char>, t: GlueTarget)
    requires
        glue_disjoint(g),
        g.interfaces@.len() <= usize::MAX,
        t matches GlueTarget::Attached(i) ==> i < g.interfaces@.len(),
        names_of_target(g, t).contains(key),
    ensures
        spec_route(g, key) == Some(t),
{
    let lists = name_lists(g);
    let own = match t {
        GlueTarget::Attached(i) => i as int,
        GlueTarget::Contract => lists.len() - 1,
    };
    assert(lists[own] == names_of_target(g, t));
    assert forall|b: int| 0 <= b < lists.len() && b != own implies !(#[trigger] lists[b]).contains(
        key,
    ) by {
        let i = choose|i: int| 0 <= i < lists[own].len() && lists[own][i] == key;
        if lists[b].contains(key) {
            let j = choose|j: int| 0 <= j < lists[b].len() && lists[b][j] == key;
            if b < own {
                assert(lists_disjoint(lists[b], lists[own]));
            } else {
                assert(lists_disjoint(lists[own], lists[b]));
            }
        }
    }
    lemma_route_from_unambiguous(g, key, 0, own);
}

proof fn lemma_route_from_unambiguous(g: GlueMessage, key: Seq<char>, i: int, own: int)
    requires
        0 <= i <= g.interfaces@.len() <= usize::MAX,
        i <= own < name_lists(g).len(),
        name_lists(g)[own].contains(key),
        forall|b: int| 0 <= b < name_lists(g).len() && b != own ==> !(
        #[trigger] name_lists(g)[b]).contains(key),
    ensures
        spec_route_from(g, key, i) == (if own < g.interfaces@.len() {
            Some(GlueTarget::Attached(own as usize))
        } else {
            Some(GlueTarget::Contract)
        }),
    decreases g.interfaces@.len() - i,
{
    let lists = name_lists(g);
    if i < g.interfaces@.len() {
        assert(lists[i] == snake_names(g.interfaces@[i].variants.variants@));
        if i == own {
        } else {
            assert(!lists[i].contains(key));
            lemma_route_from_unambiguous(g, key, i + 1, own);
        }
    } else {
        assert(own == lists.len() - 1);
        assert(lists[own] == snake_names(g.contract_variants.variants@));
    }
}

/// Round-trip correctness through the whole two-level dispatch: under the
/// checked disjointness, encoding a message constructed for any variant of
/// any merged set and decoding the wire form back through the glue reaches
/// the same owner, the same variant, and the same field values.
pub proof fn lemma_glue_round_trip(g: GlueMessage, t: GlueTarget, idx: int, values: Seq<Value>)
    requires
        glue_disjoint(g),
        g.interfaces@.len() <= usize::MAX,
        t matches GlueTarget::Attached(i) ==> i < g.interfaces@.len(),
        0 <= idx < set_of_target(g, t).len(),
        values.len() == set_of_target(g, t)[idx].fields@.len(),
        unique_names(names_of_target(g, t)),
        unique_names(crate::dispatch::field_names(set_of_target(g, t)[idx])),
    ensures
        spec_glue_decode(
            g,
            set_of_target(g, t)[idx].snake_name@,
            crate::dispatch::spec_encode_body(set_of_target(g, t)[idx], values),
        ) == (SpecGlueDecoded::Hit { target: t, idx, values: value_views(values) }),
{
    let vs = set_of_target(g, t);
    let key = vs[idx].snake_name@;
    assert(names_of_target(g, t) == snake_names(vs));
    assert(snake_names(vs)[idx] == key);
    assert(names_of_target(g, t).contains(key));
    lemma_route_unambiguous(g, key, t);
    crate::dispatch::lemma_round_trip(vs, idx, values);
}

/// A routed key is a member of its owner's table.
proof fn lemma_route_member(g: GlueMessage, key: Seq<char>, t: GlueTarget)
    requires
        g.interfaces@.len() <= usize::MAX,
        spec_route(g, key) == Some(t),
    ensures
        names_of_target(g, t).contains(key),
        t matches GlueTarget::Attached(i) ==> i < g.interfaces@.len(),
{
    lemma_route_from_member(g, key, 0, t);
}

proof fn lemma_route_from_member(g: GlueMessage, key: Seq<char>, i: int, t: GlueTarget)
    requires
        0 <= i,
        g.interfaces@.len() <= usize::MAX,
        spec_route_from(g, key, i) == Some(t),
    ensures
        names_of_target(g, t).contains(key),
        t matches GlueTarget::Attached(j) ==> i <= j < g.interfaces@.len(),
    decreases g.interfaces@.len() - i,
{
    if i < g.interfaces@.len() && !snake_names(g.interfaces@[i].variants.variants@).contains(key) {
        lemma_route_from_member(g, key, i + 1, t);
    }
}

/// Flattening one more list appends its names.
proof fn lemma_flatten_snoc(lists: Seq<Seq<Seq<char>>>, i: int)
    requires
        0 <= i < lists.len(),
    ensures
        lists.subrange(0, i + 1).flatten() == lists.subrange(0, i).flatten() + lists[i],
{
    let a = lists.subrange(0, i + 1);
    let b = lists.subrange(0, i);
    assert(a =~= b.push(lists[i]));
    b.lemma_flatten_and_flatten_alt_are_equivalent();
    a.lemma_flatten_and_flatten_alt_are_equivalent();
    assert(a.flatten_alt() == a.drop_last().flatten_alt() + a.last());
    assert(a.drop_last() =~= b);
}

} // verus!

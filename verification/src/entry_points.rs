//! The entry-point emitter's decisions: which runtime-visible entry points a
//! contract gets. A kind with no variants gets none — the absence is
//! load-bearing — and a hand-written override suppresses the generated one.

use vstd::prelude::*;
use crate::OpKind;
use crate::variant::MethodDesc;
use crate::variants::methods_of_kind;

verus! {

/// The hand-written entry points declared on the contract; each suppresses
/// the generated one of its kind.
#[derive(Debug)]
pub struct OverrideEntryPoints {
    pub kinds: Vec<OpKind>,
}

/// Which entry points are generated, and which method handles a reply.
#[derive(Debug)]
pub struct EntryPointsPlan {
    pub instantiate: bool,
    pub execute: bool,
    pub query: bool,
    pub migrate: bool,
    pub sudo: bool,
    /// The reply handler's method name, when a reply entry point is generated.
    pub reply: Option<String>,
}

/// Whether an override for the kind was declared.
pub open spec fn spec_overridden(ov: Seq<OpKind>, kind: OpKind) -> bool {
    exists|i: int| 0 <= i < ov.len() && ov[i] == kind
}

/// Whether the entry point of a kind is generated: never when overridden, and
/// never without a variant; a migrate entry point asks for exactly one
/// variant, since several migrate handlers are not meaningful.
pub open spec fn spec_ep_generated(ms: Seq<MethodDesc>, ov: Seq<OpKind>, kind: OpKind) -> bool {
    &&& !spec_overridden(ov, kind)
    &&& if kind == OpKind::Migrate {
        methods_of_kind(ms, kind).len() == 1
    } else {
        methods_of_kind(ms, kind).len() > 0
    }
}

/// A kind nobody declared a variant for gets no entry point, whatever the
/// overrides say: the absence of the entry point is itself the generated
/// behaviour.
pub proof fn lemma_no_entry_point_for_empty_kind(ms: Seq<MethodDesc>, ov: Seq<OpKind>, kind: OpKind)
    requires
        methods_of_kind(ms, kind).len() == 0,
    ensures
        !spec_ep_generated(ms, ov, kind),
{
}

fn kind_overridden(ov: &OverrideEntryPoints, kind: OpKind) -> (r: bool)
    ensures
        r == spec_overridden(ov.kinds@, kind),
{
    let mut i: usize = 0;
    while i < ov.kinds.len()
        invariant
            i <= ov.kinds@.len(),
            forall|k: int| 0 <= k < i ==> ov.kinds@[k] != kind,
        decreases ov.kinds@.len() - i,
    {
        if ov.kinds[i] == kind {
            return true;
        }
        i = i + 1;
    }
    false
}

/// Counts the methods annotated with the kind, stopping once two are seen:
/// the plan only ever asks "none", "exactly one" or "at least one".
fn count_of_kind(methods: &Vec<MethodDesc>, kind: OpKind) -> (r: u64)
    ensures
        r as int == (if methods_of_kind(methods@, kind).len() < 2 {
            methods_of_kind(methods@, kind).len() as int
        } else {
            2int
        }),
{
    let ghost keep = |m: MethodDesc| m.kind == kind;
    let mut count: u64 = 0;
    let mut i: usize = 0;
    proof {
        assert(methods@.subrange(0, 0).filter(keep) =~= Seq::<MethodDesc>::empty());
    }
    while i < methods.len()
        invariant
            i <= methods@.len(),
            keep == (|m: MethodDesc| m.kind == kind),
            count as int == (if methods@.subrange(0, i as int).filter(keep).len() < 2 {
                methods@.subrange(0, i as int).filter(keep).len() as int
            } else {
                2int
            }),
        decreases methods@.len() - i,
    {
        let ghost prefix = methods@.subrange(0, i as int);
        if methods[i].kind == kind && count < 2 {
            count = count + 1;
        }
        proof {
            let next = methods@.subrange(0, i + 1);
            assert(next.drop_last() =~= prefix);
            assert(next.last() == methods@[i as int]);
            reveal_with_fuel(Seq::filter, 2);
            if keep(methods@[i as int]) {
                assert(next.filter(keep) =~= prefix.filter(keep).push(methods@[i as int]));
            } else {
                assert(next.filter(keep) =~= prefix.filter(keep));
            }
        }
        i = i + 1;
    }
    proof {
        assert(methods@.subrange(0, methods@.len() as int) =~= methods@);
    }
    count
}

/// The first method annotated with the kind.
fn first_of_kind<'a>(methods: &'a Vec<MethodDesc>, kind: OpKind) -> (r: Option<&'a MethodDesc>)
    ensures
        match r {
            Some(m) => methods_of_kind(methods@, kind).len() > 0 && m.name@ == methods_of_kind(
                methods@,
                kind,
            )[0].name@,
            None => methods_of_kind(methods@, kind).len() == 0,
        },
{
    let ghost keep = |m: MethodDesc| m.kind == kind;
    let mut i: usize = 0;
    proof {
        assert(methods@.subrange(0, 0).filter(keep) =~= Seq::<MethodDesc>::empty());
    }
    while i < methods.len()
        invariant
            i <= methods@.len(),
            keep == (|m: MethodDesc| m.kind == kind),
            methods@.subrange(0, i as int).filter(keep) =~= Seq::<MethodDesc>::empty(),
        decreases methods@.len() - i,
    {
        let ghost prefix = methods@.subrange(0, i as int);
        if methods[i].kind == kind {
            proof {
                let next = methods@.subrange(0, i + 1);
                assert(next.drop_last() =~= prefix);
                assert(next.last() == methods@[i as int]);
                reveal_with_fuel(Seq::filter, 2);
                assert(next.filter(keep) =~= prefix.filter(keep).push(methods@[i as int]));
                lemma_filter_first(methods@, keep, i as int);
            }
            return Some(&methods[i]);
        }
        proof {
            let next = methods@.subrange(0, i + 1);
            assert(next.drop_last() =~= prefix);
            assert(next.last() == methods@[i as int]);
            reveal_with_fuel(Seq::filter, 2);
            assert(next.filter(keep) =~= prefix.filter(keep));
        }
        i = i + 1;
    }
    proof {
        assert(methods@.subrange(0, methods@.len() as int) =~= methods@);
    }
    None
}

/// When nothing before `i` satisfies the predicate and `ms[i]` does, `ms[i]`
/// heads the filtered sequence.
pub proof fn lemma_filter_first(ms: Seq<MethodDesc>, keep: spec_fn(MethodDesc) -> bool, i: int)
    requires
        0 <= i < ms.len(),
        ms.subrange(0, i).filter(keep) =~= Seq::<MethodDesc>::empty(),
        keep(ms[i]),
    ensures
        ms.filter(keep).len() > 0,
        ms.filter(keep)[0] == ms[i],
    decreases ms.len(),
{
    reveal_with_fuel(Seq::filter, 2);
    if i == ms.len() - 1 {
        assert(ms.drop_last() =~= ms.subrange(0, i));
        assert(ms.filter(keep) =~= ms.subrange(0, i).filter(keep).push(ms[i]));
    } else {
        assert(ms.drop_last().subrange(0, i) =~= ms.subrange(0, i));
        assert(ms.drop_last()[i] == ms[i]);
        lemma_filter_first(ms.drop_last(), keep, i);
        if keep(ms.last()) {
            assert(ms.filter(keep) =~= ms.drop_last().filter(keep).push(ms.last()));
        } else {
            assert(ms.filter(keep) =~= ms.drop_last().filter(keep));
        }
    }
}

/// The entry-point emitter of one contract: its name, the error type every
/// entry point's failure converts into, and the declared overrides.
#[derive(Debug)]
pub struct EntryPoints {
    /// The contract's name.
    pub name: String,
    /// The contract's error type, or the runtime's standard error.
    pub error: String,
    /// The hand-written entry points that suppress generated ones.
    pub overrides: OverrideEntryPoints,
}

impl EntryPoints {
    /// Records the contract's entry-point surface; an undeclared error type
    /// falls back to the runtime's standard error.
    pub fn new(name: &String, error: &Option<String>, overrides: OverrideEntryPoints) -> (r:
        EntryPoints)
        ensures
            r.name@ == name@,
            (match error {
                Some(e) => r.error@ == e@,
                None => r.error@ == "StdError"@,
            }),
            r.overrides == overrides,
    {
        EntryPoints {
            name: name.clone(),
            error: crate::api::resolve_error_type(error),
            overrides,
        }
    }

    /// The entry points the contract gets.
    pub fn emit(&self, methods: &Vec<MethodDesc>) -> (r: EntryPointsPlan)
        ensures
            r.instantiate == spec_ep_generated(methods@, self.overrides.kinds@, OpKind::Instantiate),
            r.execute == spec_ep_generated(methods@, self.overrides.kinds@, OpKind::Exec),
            r.query == spec_ep_generated(methods@, self.overrides.kinds@, OpKind::Query),
            r.migrate == spec_ep_generated(methods@, self.overrides.kinds@, OpKind::Migrate),
            r.sudo == spec_ep_generated(methods@, self.overrides.kinds@, OpKind::Sudo),
            match r.reply {
                Some(name) => {
                    &&& spec_ep_generated(methods@, self.overrides.kinds@, OpKind::Reply)
                    &&& name@ == methods_of_kind(methods@, OpKind::Reply)[0].name@
                },
                None => !spec_ep_generated(methods@, self.overrides.kinds@, OpKind::Reply),
            },
    {
        plan_entry_points(methods, &self.overrides)
    }
}

/// Decides which entry points the contract gets: one per kind with a variant
/// (for migrate, exactly one variant), unless a hand-written override
/// suppresses it; the reply entry point binds the first reply-tagged method.
pub fn plan_entry_points(methods: &Vec<MethodDesc>, overrides: &OverrideEntryPoints) -> (r:
    EntryPointsPlan)
    ensures
        r.instantiate == spec_ep_generated(methods@, overrides.kinds@, OpKind::Instantiate),
        r.execute == spec_ep_generated(methods@, overrides.kinds@, OpKind::Exec),
        r.query == spec_ep_generated(methods@, overrides.kinds@, OpKind::Query),
        r.migrate == spec_ep_generated(methods@, overrides.kinds@, OpKind::Migrate),
        r.sudo == spec_ep_generated(methods@, overrides.kinds@, OpKind::Sudo),
        match r.reply {
            Some(name) => {
                &&& spec_ep_generated(methods@, overrides.kinds@, OpKind::Reply)
                &&& name@ == methods_of_kind(methods@, OpKind::Reply)[0].name@
            },
            None => !spec_ep_generated(methods@, overrides.kinds@, OpKind::Reply),
        },
{
    let instantiate = !kind_overridden(overrides, OpKind::Instantiate) && count_of_kind(
        methods,
        OpKind::Instantiate,
    ) > 0;
    let execute = !kind_overridden(overrides, OpKind::Exec) && count_of_kind(
        methods,
        OpKind::Exec,
    ) > 0;
    let query = !kind_overridden(overrides, OpKind::Query) && count_of_kind(
        methods,
        OpKind::Query,
    ) > 0;
    let migrate = !kind_overridden(overrides, OpKind::Migrate) && count_of_kind(
        methods,
        OpKind::Migrate,
    ) == 1;
    let sudo = !kind_overridden(overrides, OpKind::Sudo) && count_of_kind(methods, OpKind::Sudo)
        > 0;
    let reply: Option<String> = if kind_overridden(overrides, OpKind::Reply) {
        None
    } else {
        match first_of_kind(methods, OpKind::Reply) {
            Some(m) => Some(m.name.clone()),
            None => None,
        }
    };
    EntryPointsPlan { instantiate, execute, query, migrate, sudo, reply }
}

} // verus!

//! The querier and test-proxy generator: client-side method stubs derived
//! mechanically from the same variant sets as the server-side enum, so that
//! argument name, type and order parity is a structural guarantee.

use vstd::prelude::*;
use crate::OpKind;
use crate::variant::{MsgField, MsgVariant};
use crate::variants::MsgVariants;

verus! {

/// One generated client method: its name is the variant's wire name, and its
/// parameters are the variant's fields, name for name, type for type, in the
/// same order.
#[derive(Debug)]
pub struct ClientMethod {
    pub name: String,
    pub params: Vec<MsgField>,
    /// A query stub returns the variant's response type.
    pub return_type: Option<String>,
}

/// How a test-proxy stub performs its call.
#[derive(Clone, Copy, Debug, PartialEq, Eq, Structural)]
pub enum ProxyCall {
    /// Builds the message by its variant constructor and wraps it for a
    /// tracked execution.
    Execute,
    /// Builds the message by the struct constructor and wraps it for a
    /// tracked migration.
    Migrate,
    /// Performs a smart query against the simulated environment.
    SmartQuery,
}

/// One generated test-proxy method.
#[derive(Debug)]
pub struct ProxyMethod {
    pub name: String,
    pub params: Vec<MsgField>,
    pub call: ProxyCall,
}

/// The params list mirrors the variant's fields exactly.
pub open spec fn params_match_fields(params: Seq<MsgField>, fields: Seq<MsgField>) -> bool {
    &&& params.len() == fields.len()
    &&& forall|i: int| 0 <= i < params.len() ==> {
        &&& (#[trigger] params[i]).name@ == fields[i].name@
        &&& params[i].ty@ == fields[i].ty@
    }
}

fn copy_fields(fields: &Vec<MsgField>) -> (r: Vec<MsgField>)
    ensures
        params_match_fields(r@, fields@),
{
    let mut params: Vec<MsgField> = Vec::new();
    let mut i: usize = 0;
    while i < fields.len()
        invariant
            i <= fields@.len(),
            params@.len() == i,
            forall|k: int| 0 <= k < i ==> {
                &&& (#[trigger] params@[k]).name@ == fields@[k].name@
                &&& params@[k].ty@ == fields@[k].ty@
            },
        decreases fields@.len() - i,
    {
        let f = MsgField {
            name: fields[i].name.clone(),
            ty: fields[i].ty.clone(),
            mentions: fields[i].mentions.clone(),
        };
        params.push(f);
        i = i + 1;
    }
    params
}

/// Derives the client querier method of one variant: named by the wire name,
/// one parameter per field in declared order, returning the variant's
/// response type.
pub fn emit_querier_method(v: &MsgVariant) -> (r: ClientMethod)
    ensures
        r.name@ == v.snake_name@,
        params_match_fields(r.params@, v.fields@),
        match v.return_type {
            Some(t) => r.return_type matches Some(rt) && rt@ == t@,
            None => r.return_type is None,
        },
{
    let return_type = match &v.return_type {
        Some(t) => Some(t.clone()),
        None => None,
    };
    ClientMethod { name: v.snake_name.clone(), params: copy_fields(&v.fields), return_type }
}

/// Derives the test-proxy method of one variant, for the kinds a proxy
/// carries: a tracked execution, a tracked migration, or a smart query.
/// Other kinds get no proxy method.
pub fn emit_proxy_method(v: &MsgVariant) -> (r: Option<ProxyMethod>)
    ensures
        match r {
            Some(m) => {
                &&& m.name@ == v.snake_name@
                &&& params_match_fields(m.params@, v.fields@)
                &&& m.call == (match v.msg_type {
                    OpKind::Exec => ProxyCall::Execute,
                    OpKind::Migrate => ProxyCall::Migrate,
                    _ => ProxyCall::SmartQuery,
                })
                &&& (v.msg_type == OpKind::Exec || v.msg_type == OpKind::Migrate || v.msg_type
                    == OpKind::Query)
            },
            None => v.msg_type != OpKind::Exec && v.msg_type != OpKind::Migrate && v.msg_type
                != OpKind::Query,
        },
{
    let call = match v.msg_type {
        OpKind::Exec => ProxyCall::Execute,
        OpKind::Migrate => ProxyCall::Migrate,
        OpKind::Query => ProxyCall::SmartQuery,
        _ => {
            return None;
        },
    };
    Some(ProxyMethod { name: v.snake_name.clone(), params: copy_fields(&v.fields), call })
}

impl MsgVariants {
    /// One client method per variant, in declaration order.
    pub fn emit_querier_methods(&self) -> (r: Vec<ClientMethod>)
        ensures
            r@.len() == self.variants@.len(),
            forall|i: int| 0 <= i < r@.len() ==> {
                &&& (#[trigger] r@[i]).name@ == self.variants@[i].snake_name@
                &&& params_match_fields(r@[i].params@, self.variants@[i].fields@)
            },
    {
        let mut methods: Vec<ClientMethod> = Vec::new();
        let mut i: usize = 0;
        while i < self.variants.len()
            invariant
                i <= self.variants@.len(),
                methods@.len() == i,
                forall|k: int| 0 <= k < i ==> {
                    &&& (#[trigger] methods@[k]).name@ == self.variants@[k].snake_name@
                    &&& params_match_fields(methods@[k].params@, self.variants@[k].fields@)
                },
            decreases self.variants@.len() - i,
        {
            methods.push(emit_querier_method(&self.variants[i]));
            i = i + 1;
        }
        methods
    }

    /// One test-proxy method per variant, in declaration order, when the
    /// set's kind is proxied; the other kinds get none.
    pub fn emit_proxy_methods(&self) -> (r: Vec<ProxyMethod>)
        requires
            forall|i: int| 0 <= i < self.variants@.len() ==> (
            #[trigger] self.variants@[i]).msg_type == self.msg_ty,
        ensures
            self.msg_ty == OpKind::Exec || self.msg_ty == OpKind::Migrate || self.msg_ty
                == OpKind::Query ==> {
                &&& r@.len() == self.variants@.len()
                &&& forall|i: int| 0 <= i < r@.len() ==> {
                    &&& (#[trigger] r@[i]).name@ == self.variants@[i].snake_name@
                    &&& params_match_fields(r@[i].params@, self.variants@[i].fields@)
                }
            },
            !(self.msg_ty == OpKind::Exec || self.msg_ty == OpKind::Migrate || self.msg_ty
                == OpKind::Query) ==> r@.len() == 0,
    {
        let mut methods: Vec<ProxyMethod> = Vec::new();
        let mut i: usize = 0;
        if !(matches!(self.msg_ty, OpKind::Exec) || matches!(self.msg_ty, OpKind::Migrate)
            || matches!(self.msg_ty, OpKind::Query)) {
            return methods;
        }
        while i < self.variants.len()
            invariant
                i <= self.variants@.len(),
                methods@.len() == i,
                forall|k: int| 0 <= k < self.variants@.len() ==> (
                #[trigger] self.variants@[k]).msg_type == self.msg_ty,
                self.msg_ty == OpKind::Exec || self.msg_ty == OpKind::Migrate || self.msg_ty
                    == OpKind::Query,
                forall|k: int| 0 <= k < i ==> {
                    &&& (#[trigger] methods@[k]).name@ == self.variants@[k].snake_name@
                    &&& params_match_fields(methods@[k].params@, self.variants@[k].fields@)
                },
            decreases self.variants@.len() - i,
        {
            match emit_proxy_method(&self.variants[i]) {
                Some(m) => {
                    methods.push(m);
                },
                None => {
                    proof {
                        assert(false);
                    }
                },
            }
            i = i + 1;
        }
        methods
    }
}

} // verus!

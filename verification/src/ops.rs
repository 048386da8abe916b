//! Per-operation-kind shapes: the context tuple a dispatched method receives,
//! the result a dispatch returns, the runtime entry-point names, and the names
//! of the generated message types.

use vstd::prelude::*;
use crate::OpKind;

verus! {

/// The shape of the context tuple handed to a method of a given kind.
#[derive(Clone, Copy, Debug, PartialEq, Eq, Structural)]
pub enum CtxShape {
    /// Mutable storage handle, environment, and message info.
    MutableWithInfo,
    /// Mutable storage handle and environment.
    Mutable,
    /// Read-only storage handle and environment.
    ReadOnly,
}

/// The shape of the value a dispatch of a given kind returns on success.
#[derive(Clone, Copy, Debug, PartialEq, Eq, Structural)]
pub enum ResultShape {
    /// A runtime response value.
    Response,
    /// An encoded query answer.
    Binary,
}

impl OpKind {
    /// Exec and Instantiate methods receive message info beside the mutable
    /// handle; queries only borrow the storage read-only.
    pub fn ctx_shape(self) -> (r: CtxShape)
        ensures
            r == (match self {
                OpKind::Exec | OpKind::Instantiate => CtxShape::MutableWithInfo,
                OpKind::Migrate | OpKind::Reply | OpKind::Sudo => CtxShape::Mutable,
                OpKind::Query => CtxShape::ReadOnly,
            }),
    {
        match self {
            OpKind::Exec | OpKind::Instantiate => CtxShape::MutableWithInfo,
            OpKind::Migrate | OpKind::Reply | OpKind::Sudo => CtxShape::Mutable,
            OpKind::Query => CtxShape::ReadOnly,
        }
    }

    /// How many runtime values make up the context tuple.
    pub fn ctx_arity(self) -> (r: u64)
        ensures
            r == (if self == OpKind::Exec || self == OpKind::Instantiate { 3int } else { 2int }),
    {
        match self {
            OpKind::Exec | OpKind::Instantiate => 3,
            _ => 2,
        }
    }

    /// A query dispatch returns an encoded answer; every other kind returns a
    /// runtime response.
    pub fn result_shape(self) -> (r: ResultShape)
        ensures
            r == (if self == OpKind::Query { ResultShape::Binary } else { ResultShape::Response }),
    {
        match self {
            OpKind::Query => ResultShape::Binary,
            _ => ResultShape::Response,
        }
    }

    /// The runtime-visible entry-point name for this kind.
    pub fn ep_name(self) -> (r: &'static str)
        ensures
            r@ == spec_ep_name(self),
    {
        match self {
            OpKind::Instantiate => "instantiate",
            OpKind::Exec => "execute",
            OpKind::Query => "query",
            OpKind::Migrate => "migrate",
            OpKind::Sudo => "sudo",
            OpKind::Reply => "reply",
        }
    }

    /// The name of the generated per-kind message enum.
    pub fn msg_name(self) -> (r: &'static str)
        ensures
            r@ == spec_msg_name(self),
    {
        match self {
            OpKind::Instantiate => "InstantiateMsg",
            OpKind::Exec => "ExecMsg",
            OpKind::Query => "QueryMsg",
            OpKind::Migrate => "MigrateMsg",
            OpKind::Sudo => "SudoMsg",
            OpKind::Reply => "ReplyMsg",
        }
    }

    /// The name of the outer glue enum wrapping the contract's own message
    /// and every attached interface's; only Exec, Query and Sudo have one.
    pub fn wrapper_msg_name(self) -> (r: &'static str)
        ensures
            r@ == spec_wrapper_msg_name(self),
    {
        match self {
            OpKind::Exec => "ContractExecMsg",
            OpKind::Query => "ContractQueryMsg",
            OpKind::Sudo => "ContractSudoMsg",
            _ => self.msg_name(),
        }
    }

    /// The associated-type accessor under which the per-kind message type is
    /// exposed on a generated api.
    pub fn accessor_name(self) -> (r: &'static str)
        ensures
            r@ == spec_accessor_name(self),
    {
        match self {
            OpKind::Instantiate => "Instantiate",
            OpKind::Exec => "Exec",
            OpKind::Query => "Query",
            OpKind::Migrate => "Migrate",
            OpKind::Sudo => "Sudo",
            OpKind::Reply => "Reply",
        }
    }

    /// The associated-type accessor of the outer glue message.
    pub fn wrapper_accessor_name(self) -> (r: &'static str)
        ensures
            r@ == spec_wrapper_accessor_name(self),
    {
        match self {
            OpKind::Exec => "ContractExec",
            OpKind::Query => "ContractQuery",
            OpKind::Sudo => "ContractSudo",
            _ => self.accessor_name(),
        }
    }

    /// The name of the generated name-table function for this kind.
    pub fn messages_fn_name(self) -> (r: String)
        ensures
            r@ == spec_ep_name(self) + "_messages"@,
    {
        let mut s = String::new();
        s.append(self.ep_name());
        s.append("_messages");
        assert(s@ =~= spec_ep_name(self) + "_messages"@);
        s
    }

    /// Instantiate, Migrate, Sudo and Reply methods may only be declared
    /// directly on a contract, never inside an interface trait.
    pub fn contract_only(self) -> (r: bool)
        ensures
            r == spec_contract_only(self),
    {
        match self {
            OpKind::Exec | OpKind::Query => false,
            _ => true,
        }
    }

    /// Whether the generated enum of this kind carries the schema helper that
    /// maps each query to its response type: queries alone do.
    pub fn derives_query_responses(self) -> (r: bool)
        ensures
            r == (self == OpKind::Query),
    {
        matches!(self, OpKind::Query)
    }

    /// The phantom variant of a generated enum: absent without used generic
    /// parameters; on a query enum it carries a response annotation.
    pub fn phantom_variant_shape(self, used_generics_len: usize) -> (r: Option<bool>)
        ensures
            match r {
                Some(with_response_note) => used_generics_len > 0 && with_response_note == (self
                    == OpKind::Query),
                None => used_generics_len == 0,
            },
    {
        if used_generics_len == 0 {
            None
        } else {
            Some(matches!(self, OpKind::Query))
        }
    }

    /// Whether a dispatch must first narrow the context's storage handle to
    /// the default query type ("into empty"): required when the attachment
    /// declares that the interface keeps the default query type while the
    /// contract fixes a custom one.
    pub fn needs_ctx_narrowing(self, attachment_custom_query: bool) -> (r: bool)
        ensures
            r == spec_needs_ctx_narrowing(self, attachment_custom_query),
    {
        attachment_custom_query && match self {
            OpKind::Exec | OpKind::Query | OpKind::Sudo => true,
            _ => false,
        }
    }

    /// Whether the response an interface method returns must be widened into
    /// the contract's response type: required when the attachment declares
    /// that the interface keeps the default message type while the contract
    /// fixes a custom one.
    pub fn needs_response_widening(self, attachment_custom_msg: bool) -> (r: bool)
        ensures
            r == spec_needs_response_widening(self, attachment_custom_msg),
    {
        attachment_custom_msg && match self {
            OpKind::Exec | OpKind::Sudo => true,
            _ => false,
        }
    }
}

/// The entry-point name of each kind.
pub open spec fn spec_ep_name(kind: OpKind) -> Seq<char> {
    match kind {
        OpKind::Instantiate => "instantiate"@,
        OpKind::Exec => "execute"@,
        OpKind::Query => "query"@,
        OpKind::Migrate => "migrate"@,
        OpKind::Sudo => "sudo"@,
        OpKind::Reply => "reply"@,
    }
}

/// The per-kind message enum's name.
pub open spec fn spec_msg_name(kind: OpKind) -> Seq<char> {
    match kind {
        OpKind::Instantiate => "InstantiateMsg"@,
        OpKind::Exec => "ExecMsg"@,
        OpKind::Query => "QueryMsg"@,
        OpKind::Migrate => "MigrateMsg"@,
        OpKind::Sudo => "SudoMsg"@,
        OpKind::Reply => "ReplyMsg"@,
    }
}

/// The outer glue enum's name.
pub open spec fn spec_wrapper_msg_name(kind: OpKind) -> Seq<char> {
    match kind {
        OpKind::Exec => "ContractExecMsg"@,
        OpKind::Query => "ContractQueryMsg"@,
        OpKind::Sudo => "ContractSudoMsg"@,
        _ => spec_msg_name(kind),
    }
}

/// The per-kind accessor's name.
pub open spec fn spec_accessor_name(kind: OpKind) -> Seq<char> {
    match kind {
        OpKind::Instantiate => "Instantiate"@,
        OpKind::Exec => "Exec"@,
        OpKind::Query => "Query"@,
        OpKind::Migrate => "Migrate"@,
        OpKind::Sudo => "Sudo"@,
        OpKind::Reply => "Reply"@,
    }
}

/// The glue accessor's name.
pub open spec fn spec_wrapper_accessor_name(kind: OpKind) -> Seq<char> {
    match kind {
        OpKind::Exec => "ContractExec"@,
        OpKind::Query => "ContractQuery"@,
        OpKind::Sudo => "ContractSudo"@,
        _ => spec_accessor_name(kind),
    }
}

/// Whether the context must be narrowed to the default query type.
pub open spec fn spec_needs_ctx_narrowing(kind: OpKind, attachment_custom_query: bool) -> bool {
    attachment_custom_query && (kind == OpKind::Exec || kind == OpKind::Query || kind
        == OpKind::Sudo)
}

/// Whether the response must be widened into the contract's response type.
pub open spec fn spec_needs_response_widening(kind: OpKind, attachment_custom_msg: bool) -> bool {
    attachment_custom_msg && (kind == OpKind::Exec || kind == OpKind::Sudo)
}

/// The kinds an interface trait may not declare.
pub open spec fn spec_contract_only(kind: OpKind) -> bool {
    kind != OpKind::Exec && kind != OpKind::Query
}

} // verus!

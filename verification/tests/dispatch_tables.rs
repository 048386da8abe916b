//! Scenario tests for the interface composer and the two-level dispatcher.

use sylvia::glue::{
    ContractDispatch, GlueDecodeError, GlueMessage, GlueTarget, InterfaceMsgs,
};
use sylvia::interfaces::ContractMessageAttr;
use sylvia::value::{PayloadField, TopEntry, Value};
use sylvia::variant::{ArgPattern, MethodArg, MethodDesc, MsgVariant};
use sylvia::variants::MsgVariants;
use sylvia::OpKind;

fn ctx_arg() -> MethodArg {
    MethodArg {
        pat: ArgPattern::Ident("ctx".to_string()),
        ty: "ExecCtx".to_string(),
        mentions: vec![],
    }
}

fn named_arg(name: &str, ty: &str) -> MethodArg {
    MethodArg {
        pat: ArgPattern::Ident(name.to_string()),
        ty: ty.to_string(),
        mentions: vec![],
    }
}

fn method(name: &str, kind: OpKind, args: Vec<MethodArg>, ret: &str) -> MethodDesc {
    let mut all = vec![ctx_arg()];
    all.extend(args);
    MethodDesc {
        name: name.to_string(),
        kind,
        args: all,
        ret_ty: ret.to_string(),
        ret_mentions: vec![],
        resp_ty: None,
        resp_mentions: vec![],
    }
}

fn build_set(methods: &Vec<MethodDesc>, kind: OpKind) -> MsgVariants {
    let (set, diags) = MsgVariants::build(methods, kind, &vec![], &vec![]);
    assert!(diags.is_empty());
    set
}

fn cw1_attr() -> ContractMessageAttr {
    ContractMessageAttr {
        module: "cw1".to_string(),
        variant: "Cw1".to_string(),
        generics: vec![],
        custom_msg: false,
        custom_query: false,
    }
}

/// The contract of the concrete dispatch scenario: it attaches an interface
/// contributing exec variant `execute` and query variant `can_execute`, and
/// declares its own exec variant `transfer`.
fn scenario() -> ContractDispatch {
    let iface_methods = vec![
        method("execute", OpKind::Exec, vec![named_arg("msgs", "Vec<CosmosMsg>")], "Response"),
        method(
            "can_execute",
            OpKind::Query,
            vec![named_arg("sender", "String"), named_arg("msg", "CosmosMsg")],
            "CanExecuteResp",
        ),
    ];
    let contract_methods = vec![
        method(
            "transfer",
            OpKind::Exec,
            vec![named_arg("recipient", "String"), named_arg("amount", "String")],
            "Response",
        ),
    ];
    let execute = GlueMessage {
        contract_name: "Cw1Contract".to_string(),
        msg_ty: OpKind::Exec,
        interfaces: vec![InterfaceMsgs {
            attr: cw1_attr(),
            variants: build_set(&iface_methods, OpKind::Exec),
        }],
        contract_variants: build_set(&contract_methods, OpKind::Exec),
    };
    let query = GlueMessage {
        contract_name: "Cw1Contract".to_string(),
        msg_ty: OpKind::Query,
        interfaces: vec![InterfaceMsgs {
            attr: cw1_attr(),
            variants: build_set(&iface_methods, OpKind::Query),
        }],
        contract_variants: build_set(&contract_methods, OpKind::Query),
    };
    let sudo = GlueMessage {
        contract_name: "Cw1Contract".to_string(),
        msg_ty: OpKind::Sudo,
        interfaces: vec![],
        contract_variants: build_set(&contract_methods, OpKind::Sudo),
    };
    ContractDispatch { execute, query, sudo }
}

fn entry(key: &str, body: Vec<(&str, Value)>) -> TopEntry {
    TopEntry {
        key: key.to_string(),
        body: body
            .into_iter()
            .map(|(name, value)| PayloadField { name: name.to_string(), value })
            .collect(),
    }
}

#[test]
fn own_message_dispatches_to_contract() {
    let c = scenario();
    let payload = vec![entry(
        "transfer",
        vec![
            ("recipient", Value::Str("addr".to_string())),
            ("amount", Value::Str("100".to_string())),
        ],
    )];
    let decoded = c.decode(OpKind::Exec, &payload).unwrap();
    assert_eq!(decoded.target, GlueTarget::Contract);
    let call = c.execute.dispatch(decoded);
    assert_eq!(call.function_name, "transfer");
    assert_eq!(
        call.args,
        vec![Value::Str("addr".to_string()), Value::Str("100".to_string())]
    );
    assert!(!call.narrow_ctx);
    assert!(!call.widen_response);
}

#[test]
fn interface_message_dispatches_to_attachment() {
    let c = scenario();
    let payload = vec![entry("execute", vec![("msgs", Value::List(vec![]))])];
    let decoded = c.decode(OpKind::Exec, &payload).unwrap();
    assert_eq!(decoded.target, GlueTarget::Attached(0));
    let call = c.execute.dispatch(decoded);
    assert_eq!(call.function_name, "execute");
    assert_eq!(call.args, vec![Value::List(vec![])]);
}

#[test]
fn unknown_message_lists_all_names_sorted() {
    let c = scenario();
    let payload = vec![entry("unknown", vec![])];
    let err = c.decode(OpKind::Exec, &payload).unwrap_err();
    match &err {
        GlueDecodeError::UnknownMessage { received, supported } => {
            assert_eq!(received, "unknown");
            assert_eq!(
                supported,
                &vec![
                    "can_execute".to_string(),
                    "execute".to_string(),
                    "transfer".to_string()
                ]
            );
        }
        other => panic!("wrong error: {:?}", other),
    }
    assert_eq!(
        err.message(),
        "Unsupported message received: unknown. Messages supported by this contract: \
         can_execute, execute, transfer"
    );
}

#[test]
fn several_top_level_keys_are_refused() {
    let c = scenario();
    let payload = vec![entry("transfer", vec![]), entry("execute", vec![])];
    let err = c.decode(OpKind::Exec, &payload).unwrap_err();
    match &err {
        GlueDecodeError::NotSingleMessage { received } => assert_eq!(*received, 2),
        other => panic!("wrong error: {:?}", other),
    }
    assert_eq!(err.message(), "Expected exactly one message. Received 2");
}

#[test]
fn missing_field_is_reported() {
    let c = scenario();
    let payload = vec![entry(
        "transfer",
        vec![("recipient", Value::Str("addr".to_string()))],
    )];
    let err = c.decode(OpKind::Exec, &payload).unwrap_err();
    match &err {
        GlueDecodeError::MissingField { field } => assert_eq!(field, "amount"),
        other => panic!("wrong error: {:?}", other),
    }
    assert_eq!(err.message(), "missing field `amount`");
}

#[test]
fn extra_fields_are_ignored() {
    let c = scenario();
    let payload = vec![entry(
        "transfer",
        vec![
            ("memo", Value::Null),
            ("recipient", Value::Str("addr".to_string())),
            ("amount", Value::Str("100".to_string())),
        ],
    )];
    let decoded = c.decode(OpKind::Exec, &payload).unwrap();
    let call = c.execute.dispatch(decoded);
    assert_eq!(
        call.args,
        vec![Value::Str("addr".to_string()), Value::Str("100".to_string())]
    );
}

#[test]
fn disjoint_tables_pass_the_collision_check() {
    let c = scenario();
    assert!(c.execute.check_no_intersection().is_ok());
    assert!(c.query.check_no_intersection().is_ok());
}

#[test]
fn union_size_is_the_sum_of_the_parts() {
    let c = scenario();
    // exec glue: `execute` from the attachment, `transfer` from the contract.
    assert_eq!(c.execute.all_names().len(), 2);
    // query glue: `can_execute` from the attachment alone.
    assert_eq!(c.query.all_names().len(), 1);
    let mut names = c.execute.all_names();
    names.sort();
    names.dedup();
    assert_eq!(names.len(), 2);
}

/// Two interfaces both contributing an exec variant `foo` can never compose:
/// the collision check refuses the glue.
#[test]
fn colliding_interfaces_are_refused() {
    let foo = vec![method("foo", OpKind::Exec, vec![], "Response")];
    let mk_attr = |module: &str, variant: &str| ContractMessageAttr {
        module: module.to_string(),
        variant: variant.to_string(),
        generics: vec![],
        custom_msg: false,
        custom_query: false,
    };
    let glue = GlueMessage {
        contract_name: "Contract".to_string(),
        msg_ty: OpKind::Exec,
        interfaces: vec![
            InterfaceMsgs { attr: mk_attr("alpha", "Alpha"), variants: build_set(&foo, OpKind::Exec) },
            InterfaceMsgs { attr: mk_attr("beta", "Beta"), variants: build_set(&foo, OpKind::Exec) },
        ],
        contract_variants: build_set(&vec![], OpKind::Exec),
    };
    let diags = glue.check_no_intersection().unwrap_err();
    assert!(!diags.is_empty());
    assert_eq!(diags[0].message, "Message name collides across interfaces");
    assert_eq!(diags[0].origin, "foo");
}

/// Every clashing name yields one report per clashing pair, carrying that name.
#[test]
fn every_collision_is_counted_and_named() {
    let foobar = vec![
        method("foo", OpKind::Exec, vec![], "Response"),
        method("bar", OpKind::Exec, vec![], "Response"),
    ];
    let mk_attr = |module: &str, variant: &str| ContractMessageAttr {
        module: module.to_string(),
        variant: variant.to_string(),
        generics: vec![],
        custom_msg: false,
        custom_query: false,
    };
    let glue = GlueMessage {
        contract_name: "Contract".to_string(),
        msg_ty: OpKind::Exec,
        interfaces: vec![
            InterfaceMsgs {
                attr: mk_attr("alpha", "Alpha"),
                variants: build_set(&foobar, OpKind::Exec),
            },
            InterfaceMsgs {
                attr: mk_attr("beta", "Beta"),
                variants: build_set(&foobar, OpKind::Exec),
            },
        ],
        contract_variants: build_set(&vec![], OpKind::Exec),
    };
    let diags = glue.check_no_intersection().unwrap_err();
    // `foo` and `bar` each clash once between the two attachments.
    assert_eq!(diags.len(), 2);
    let mut origins: Vec<String> = diags.iter().map(|d| d.origin.clone()).collect();
    origins.sort();
    assert_eq!(origins, vec!["bar".to_string(), "foo".to_string()]);
    for d in &diags {
        assert_eq!(d.message, "Message name collides across interfaces");
    }
}

/// A name shared between an interface and the contract's own set collides too.
#[test]
fn contract_and_interface_collision_is_refused() {
    let foo = vec![method("foo", OpKind::Exec, vec![], "Response")];
    let glue = GlueMessage {
        contract_name: "Contract".to_string(),
        msg_ty: OpKind::Exec,
        interfaces: vec![InterfaceMsgs { attr: cw1_attr(), variants: build_set(&foo, OpKind::Exec) }],
        contract_variants: build_set(&foo, OpKind::Exec),
    };
    assert!(glue.check_no_intersection().is_err());
}

/// The round trip of the concrete scenario: encode a constructed message,
/// decode it back, and land on the same method with the same values.
#[test]
fn encode_decode_round_trip() {
    let c = scenario();
    let values = vec![Value::Str("addr".to_string()), Value::Str("100".to_string())];
    let msg = sylvia::dispatch::construct_named(
        &c.execute.contract_variants,
        &"transfer".to_string(),
        values,
    )
    .unwrap();
    let wire = sylvia::dispatch::encode(&c.execute.contract_variants, msg);
    assert_eq!(wire.key, "transfer");
    let decoded = c.decode(OpKind::Exec, &vec![wire]).unwrap();
    assert_eq!(decoded.target, GlueTarget::Contract);
    let call = c.execute.dispatch(decoded);
    assert_eq!(call.function_name, "transfer");
    assert_eq!(
        call.args,
        vec![Value::Str("addr".to_string()), Value::Str("100".to_string())]
    );
}

#[test]
fn empty_payload_is_refused() {
    let c = scenario();
    let err = c.decode(OpKind::Exec, &vec![]).unwrap_err();
    match &err {
        GlueDecodeError::NotSingleMessage { received } => assert_eq!(*received, 0),
        other => panic!("wrong error: {:?}", other),
    }
    assert_eq!(err.message(), "Expected exactly one message. Received 0");
}

#[test]
fn glue_without_attachments_routes_to_the_contract() {
    let contract_methods = vec![method("ping", OpKind::Exec, vec![], "Response")];
    let glue = GlueMessage {
        contract_name: "Lonely".to_string(),
        msg_ty: OpKind::Exec,
        interfaces: vec![],
        contract_variants: build_set(&contract_methods, OpKind::Exec),
    };
    assert!(glue.check_no_intersection().is_ok());
    let call = glue.handle(&vec![entry("ping", vec![])]).unwrap();
    assert_eq!(call.target, GlueTarget::Contract);
    assert_eq!(call.function_name, "ping");
}

#[test]
fn routing_scans_attachments_before_the_contract() {
    // with disjoint tables the scan order cannot matter; this pins the
    // documented order itself: attachments first, in attachment order.
    let foo = vec![method("foo", OpKind::Exec, vec![], "Response")];
    let bar = vec![method("bar", OpKind::Exec, vec![], "Response")];
    let glue = GlueMessage {
        contract_name: "Contract".to_string(),
        msg_ty: OpKind::Exec,
        interfaces: vec![InterfaceMsgs { attr: cw1_attr(), variants: build_set(&foo, OpKind::Exec) }],
        contract_variants: build_set(&bar, OpKind::Exec),
    };
    assert_eq!(glue.route(&"foo".to_string()), Some(GlueTarget::Attached(0)));
    assert_eq!(glue.route(&"bar".to_string()), Some(GlueTarget::Contract));
    assert_eq!(glue.route(&"baz".to_string()), None);
}

/// The model of a contract with a custom query type attaching one interface
/// that shares it: neither dispatch direction narrows or widens anything.
#[test]
fn test_custom() {
    let iface_methods = vec![
        method("interface_query", OpKind::Query, vec![], "SomeResponse"),
        method("interface_exec", OpKind::Exec, vec![], "Response"),
    ];
    let contract_methods = vec![
        method("instantiate", OpKind::Instantiate, vec![], "Response"),
        method("some_exec", OpKind::Exec, vec![], "Response"),
        method("some_query", OpKind::Query, vec![], "SomeResponse"),
        method("some_migrate", OpKind::Migrate, vec![], "Response"),
    ];
    // `MyContract` fixes the custom query `MyQuery`; the interface is declared
    // with the same custom query, so no attachment flag is set.
    let attr = || ContractMessageAttr {
        module: "some_interface".to_string(),
        variant: "SomeInterface".to_string(),
        generics: vec![],
        custom_msg: false,
        custom_query: false,
    };
    let execute = GlueMessage {
        contract_name: "MyContract".to_string(),
        msg_ty: OpKind::Exec,
        interfaces: vec![InterfaceMsgs {
            attr: attr(),
            variants: build_set(&iface_methods, OpKind::Exec),
        }],
        contract_variants: build_set(&contract_methods, OpKind::Exec),
    };
    let query = GlueMessage {
        contract_name: "MyContract".to_string(),
        msg_ty: OpKind::Query,
        interfaces: vec![InterfaceMsgs {
            attr: attr(),
            variants: build_set(&iface_methods, OpKind::Query),
        }],
        contract_variants: build_set(&contract_methods, OpKind::Query),
    };
    assert!(execute.check_no_intersection().is_ok());
    assert!(query.check_no_intersection().is_ok());

    let exec_call = {
        let decoded = execute.decode(&vec![entry("some_exec", vec![])]).unwrap();
        execute.dispatch(decoded)
    };
    assert_eq!(exec_call.function_name, "some_exec");
    assert!(!exec_call.narrow_ctx && !exec_call.widen_response);

    let q_call = {
        let decoded = query.decode(&vec![entry("interface_query", vec![])]).unwrap();
        query.dispatch(decoded)
    };
    assert_eq!(q_call.target, GlueTarget::Attached(0));
    assert_eq!(q_call.function_name, "interface_query");
    assert!(!q_call.narrow_ctx && !q_call.widen_response);
}

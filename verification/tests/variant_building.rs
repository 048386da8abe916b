//! Tests for the signature extractor, the variant set builder, the generics
//! split, and the entry-point plan.

use sylvia::api::{
    resolve_custom_type, unique_enum_name, ContractEnumMessage, Custom, EnumMessage,
    StructMessage,
};
use sylvia::attrs::parse_msg_type;
use sylvia::dispatch::{
    construct_named, decode_variant, dispatch_variant, emit_phantom_match_arm, encode,
    interface_dispatch_legs, DecodeError,
};
use sylvia::entry_points::{plan_entry_points, EntryPoints, OverrideEntryPoints};
use sylvia::querier::emit_querier_method;
use sylvia::value::Value;
use sylvia::variant::{extract_variant, ArgPattern, MethodArg, MethodDesc};
use sylvia::variants::{MsgVariants, WherePredicate};
use sylvia::OpKind;

fn arg(name: &str, ty: &str, mentions: Vec<&str>) -> MethodArg {
    MethodArg {
        pat: ArgPattern::Ident(name.to_string()),
        ty: ty.to_string(),
        mentions: mentions.into_iter().map(|m| m.to_string()).collect(),
    }
}

fn method(name: &str, kind: OpKind, args: Vec<MethodArg>, ret: &str) -> MethodDesc {
    let mut all = vec![arg("ctx", "Ctx", vec![])];
    all.extend(args);
    MethodDesc {
        name: name.to_string(),
        kind,
        args: all,
        ret_ty: ret.to_string(),
        ret_mentions: vec![],
        resp_ty: None,
        resp_mentions: vec![],
    }
}

#[test]
fn extractor_derives_names_and_fields() {
    let m = method(
        "send_funds",
        OpKind::Exec,
        vec![arg("recipient", "String", vec![]), arg("amount", "u128", vec![])],
        "Response",
    );
    let (v, diags) = extract_variant(&m);
    assert!(diags.is_empty());
    assert_eq!(v.name, "SendFunds");
    assert_eq!(v.snake_name, "send_funds");
    assert_eq!(v.function_name, "send_funds");
    assert_eq!(v.fields.len(), 2);
    assert_eq!(v.fields[0].name, "recipient");
    assert_eq!(v.fields[0].ty, "String");
    assert_eq!(v.fields[1].name, "amount");
    assert!(v.return_type.is_none());
}

#[test]
fn query_takes_response_type_from_return() {
    let m = method("balance", OpKind::Query, vec![arg("owner", "String", vec![])], "BalanceResp");
    let (v, _) = extract_variant(&m);
    assert_eq!(v.return_type.as_deref(), Some("BalanceResp"));

    let mut with_override = method("balance", OpKind::Query, vec![], "BalanceResp");
    with_override.resp_ty = Some("OtherResp".to_string());
    let (v2, _) = extract_variant(&with_override);
    assert_eq!(v2.return_type.as_deref(), Some("OtherResp"));
}

#[test]
fn destructured_argument_is_reported_and_skipped() {
    let mut m = method("store", OpKind::Exec, vec![arg("key", "String", vec![])], "Response");
    m.args.push(MethodArg {
        pat: ArgPattern::Pattern,
        ty: "SomeData".to_string(),
        mentions: vec![],
    });
    let (v, diags) = extract_variant(&m);
    assert_eq!(v.fields.len(), 1);
    assert_eq!(diags.len(), 1);
    assert_eq!(diags[0].message, "Expected argument name, pattern occurred");
    assert_eq!(diags[0].origin, "store");
}

#[test]
fn builder_keeps_only_the_matching_kind_in_order() {
    let methods = vec![
        method("mint", OpKind::Exec, vec![], "Response"),
        method("balance", OpKind::Query, vec![], "BalanceResp"),
        method("burn", OpKind::Exec, vec![], "Response"),
    ];
    let (set, diags) = MsgVariants::build(&methods, OpKind::Exec, &vec![], &vec![]);
    assert!(diags.is_empty());
    assert_eq!(set.variants.len(), 2);
    assert_eq!(set.variants[0].function_name, "mint");
    assert_eq!(set.variants[1].function_name, "burn");
    let table = set.name_table();
    assert_eq!(table, vec!["burn".to_string(), "mint".to_string()]);
}

#[test]
fn generics_split_preserves_declaration_order() {
    let generics: Vec<String> = vec!["T".to_string(), "Q".to_string(), "R".to_string()];
    let methods = vec![
        method("set", OpKind::Exec, vec![arg("value", "R", vec!["R"])], "Response"),
        method("put", OpKind::Exec, vec![arg("item", "Boxed<T>", vec!["T"])], "Response"),
    ];
    let (set, _) = MsgVariants::build(&methods, OpKind::Exec, &generics, &vec![]);
    assert_eq!(set.used_generics, vec!["T".to_string(), "R".to_string()]);
    assert_eq!(set.unused_generics, vec!["Q".to_string()]);
    assert!(set.has_phantom());
    assert_eq!(
        emit_phantom_match_arm(&set).as_deref(),
        Some("Phantom message should not be constructed.")
    );

    let (empty, _) = MsgVariants::build(&methods, OpKind::Query, &generics, &vec![]);
    assert!(empty.used_generics.is_empty());
    assert!(!empty.has_phantom());
    assert!(emit_phantom_match_arm(&empty).is_none());
}

#[test]
fn contract_only_kinds_are_refused_on_traits() {
    let methods = vec![method("setup", OpKind::Instantiate, vec![], "Response")];
    let (set, _) = MsgVariants::build(&methods, OpKind::Instantiate, &vec![], &vec![]);
    let diags = interface_dispatch_legs(&set).unwrap_err();
    assert_eq!(diags.len(), 1);
    assert_eq!(
        diags[0].message,
        "Instantiation, Reply, Migrate and Sudo messages not supported on traits, \
         they should be defined on contracts directly"
    );
    let (exec_set, _) = MsgVariants::build(&vec![], OpKind::Exec, &vec![], &vec![]);
    assert!(interface_dispatch_legs(&exec_set).is_ok());
}

#[test]
fn variant_round_trip_binds_same_values() {
    let methods = vec![method(
        "transfer",
        OpKind::Exec,
        vec![arg("recipient", "String", vec![]), arg("amount", "Uint128", vec![])],
        "Response",
    )];
    let (set, _) = MsgVariants::build(&methods, OpKind::Exec, &vec![], &vec![]);
    let values = vec![Value::Str("addr".to_string()), Value::Uint(100)];
    let msg = construct_named(&set, &"transfer".to_string(), values).unwrap();
    let wire = encode(&set, msg);
    assert_eq!(wire.key, "transfer");
    let back = decode_variant(&set, &wire.key, &wire.body).unwrap();
    let call = dispatch_variant(&set, back);
    assert_eq!(call.function_name, "transfer");
    assert_eq!(call.args, vec![Value::Str("addr".to_string()), Value::Uint(100)]);
}

#[test]
fn unknown_key_and_wrong_arity_fail() {
    let methods = vec![method("mint", OpKind::Exec, vec![arg("to", "String", vec![])], "Response")];
    let (set, _) = MsgVariants::build(&methods, OpKind::Exec, &vec![], &vec![]);
    assert!(construct_named(&set, &"unknown".to_string(), vec![]).is_none());
    assert!(construct_named(&set, &"mint".to_string(), vec![]).is_none());
    match decode_variant(&set, &"unknown".to_string(), &vec![]) {
        Err(DecodeError::UnknownVariant { key }) => assert_eq!(key, "unknown"),
        other => panic!("wrong outcome: {:?}", other),
    }
}

#[test]
fn querier_method_mirrors_the_variant() {
    let m = method(
        "allowance",
        OpKind::Query,
        vec![arg("owner", "String", vec![]), arg("spender", "String", vec![])],
        "AllowanceResp",
    );
    let (v, _) = extract_variant(&m);
    let client = emit_querier_method(&v);
    assert_eq!(client.name, "allowance");
    assert_eq!(client.params.len(), v.fields.len());
    for (p, f) in client.params.iter().zip(v.fields.iter()) {
        assert_eq!(p.name, f.name);
        assert_eq!(p.ty, f.ty);
    }
    assert_eq!(client.return_type.as_deref(), Some("AllowanceResp"));
}

#[test]
fn entry_points_follow_the_declared_variants() {
    let methods = vec![
        method("instantiate", OpKind::Instantiate, vec![], "Response"),
        method("mint", OpKind::Exec, vec![], "Response"),
        method("balance", OpKind::Query, vec![], "BalanceResp"),
    ];
    let plan = plan_entry_points(&methods, &OverrideEntryPoints { kinds: vec![] });
    assert!(plan.instantiate && plan.execute && plan.query);
    // no migrate variant, no sudo variant, no reply handler: no entry point.
    assert!(!plan.migrate && !plan.sudo && plan.reply.is_none());
}

#[test]
fn migrate_needs_exactly_one_variant() {
    let one = vec![method("migrate", OpKind::Migrate, vec![], "Response")];
    let plan = plan_entry_points(&one, &OverrideEntryPoints { kinds: vec![] });
    assert!(plan.migrate);

    let two = vec![
        method("migrate_a", OpKind::Migrate, vec![], "Response"),
        method("migrate_b", OpKind::Migrate, vec![], "Response"),
    ];
    let plan2 = plan_entry_points(&two, &OverrideEntryPoints { kinds: vec![] });
    assert!(!plan2.migrate);
}

#[test]
fn overrides_suppress_generated_entry_points() {
    let methods = vec![
        method("instantiate", OpKind::Instantiate, vec![], "Response"),
        method("mint", OpKind::Exec, vec![], "Response"),
    ];
    let plan = plan_entry_points(
        &methods,
        &OverrideEntryPoints { kinds: vec![OpKind::Exec] },
    );
    assert!(plan.instantiate);
    assert!(!plan.execute);
}

#[test]
fn first_reply_handler_wins() {
    let methods = vec![
        method("mint", OpKind::Exec, vec![], "Response"),
        method("on_instantiated", OpKind::Reply, vec![], "Response"),
        method("second_handler", OpKind::Reply, vec![], "Response"),
    ];
    let plan = plan_entry_points(&methods, &OverrideEntryPoints { kinds: vec![] });
    assert_eq!(plan.reply.as_deref(), Some("on_instantiated"));
}

#[test]
fn struct_message_takes_the_first_matching_method() {
    let methods = vec![
        method(
            "instantiate",
            OpKind::Instantiate,
            vec![arg("admin", "String", vec![])],
            "Response",
        ),
        method("mint", OpKind::Exec, vec![], "Response"),
    ];
    let (r, diags) = StructMessage::build(&methods, OpKind::Instantiate, &vec![], &vec![]);
    assert!(diags.is_empty());
    let m = r.unwrap().unwrap();
    assert_eq!(m.function_name, "instantiate");
    assert_eq!(m.fields.len(), 1);
    assert_eq!(m.fields[0].name, "admin");
    assert_eq!(m.return_type, "Response");

    let (none, _) = StructMessage::build(&methods, OpKind::Migrate, &vec![], &vec![]);
    assert!(none.unwrap().is_none());
    let (err, _) = StructMessage::build(&methods, OpKind::Exec, &vec![], &vec![]);
    assert_eq!(err.unwrap_err().message, "Invalid message type");
}

#[test]
fn struct_message_captures_the_generics_split() {
    let generics: Vec<String> = vec!["T".to_string(), "Q".to_string()];
    let wheres = vec![
        WherePredicate { param: "T".to_string(), bound: "CustomMsg".to_string() },
        WherePredicate { param: "Q".to_string(), bound: "CustomQuery".to_string() },
    ];
    let methods = vec![method(
        "instantiate",
        OpKind::Instantiate,
        vec![arg("seed", "Boxed<T>", vec!["T"])],
        "Result<Response<T>, ContractError>",
    )];
    let (r, _) = StructMessage::build(&methods, OpKind::Instantiate, &generics, &wheres);
    let m = r.unwrap().unwrap();
    assert_eq!(m.used_generics, vec!["T".to_string()]);
    assert_eq!(m.unused_generics, vec!["Q".to_string()]);
    assert_eq!(m.where_predicates.len(), 1);
    assert_eq!(m.where_predicates[0].param, "T");
    assert_eq!(m.where_predicates[0].bound, "CustomMsg");
    assert_eq!(m.return_type, "Result<Response<T>, ContractError>");
}

#[test]
fn kind_words_parse_exactly() {
    assert_eq!(parse_msg_type(&"exec".to_string()).unwrap(), OpKind::Exec);
    assert_eq!(parse_msg_type(&"query".to_string()).unwrap(), OpKind::Query);
    assert_eq!(parse_msg_type(&"instantiate".to_string()).unwrap(), OpKind::Instantiate);
    assert_eq!(parse_msg_type(&"migrate".to_string()).unwrap(), OpKind::Migrate);
    assert_eq!(parse_msg_type(&"reply".to_string()).unwrap(), OpKind::Reply);
    assert_eq!(parse_msg_type(&"sudo".to_string()).unwrap(), OpKind::Sudo);
    let err = parse_msg_type(&"other".to_string()).unwrap_err();
    assert_eq!(
        err.message,
        "Invalid message type, expected one of: `exec`, `query`, `instantiate`, \
         `migrate`, `reply` or `sudo`."
    );
}

#[test]
fn trait_enum_resolves_name_and_custom_slots() {
    let methods = vec![method("do_it", OpKind::Exec, vec![], "Response")];
    let (set, _) = MsgVariants::build(&methods, OpKind::Exec, &vec![], &vec![]);
    let custom = Custom { msg: None, query: None };
    let em = EnumMessage::new(
        &"SomeInterface".to_string(),
        &custom,
        &Some("AssocExec".to_string()),
        &None,
        set,
    );
    assert_eq!(em.enum_name, "SomeInterfaceExecMsg");
    assert_eq!(em.resp_type, "AssocExec");
    assert_eq!(em.query_type, "Empty");
}

#[test]
fn contract_enum_takes_declared_error_or_default() {
    let methods = vec![method("mint", OpKind::Exec, vec![], "Response")];
    let (cem, diags) = ContractEnumMessage::new(
        &methods,
        OpKind::Exec,
        &vec![],
        &vec![],
        &Some("ContractError".to_string()),
        Custom { msg: None, query: None },
    );
    assert!(diags.is_empty());
    assert_eq!(cem.error, "ContractError");
    assert_eq!(cem.variants.variants.len(), 1);

    let (cem2, _) = ContractEnumMessage::new(
        &methods,
        OpKind::Exec,
        &vec![],
        &vec![],
        &None,
        Custom { msg: None, query: None },
    );
    assert_eq!(cem2.error, "StdError");
}

#[test]
fn entry_point_emitter_carries_name_and_error() {
    let ep = EntryPoints::new(
        &"Cw1Contract".to_string(),
        &None,
        OverrideEntryPoints { kinds: vec![] },
    );
    assert_eq!(ep.name, "Cw1Contract");
    assert_eq!(ep.error, "StdError");
    let methods = vec![method("instantiate", OpKind::Instantiate, vec![], "Response")];
    let plan = ep.emit(&methods);
    assert!(plan.instantiate && !plan.execute);
}

#[test]
fn names_and_defaults_resolve() {
    assert_eq!(unique_enum_name(&"SomeInterface".to_string(), OpKind::Exec), "SomeInterfaceExecMsg");
    assert_eq!(unique_enum_name(&"Cw1".to_string(), OpKind::Query), "Cw1QueryMsg");
    let custom = Custom { msg: None, query: Some("MyQuery".to_string()) };
    assert_eq!(custom.msg_or_default(), "Empty");
    assert_eq!(custom.query_or_default(), "MyQuery");
    assert_eq!(
        resolve_custom_type(&None, &Some("AssocExec".to_string())),
        "AssocExec"
    );
    assert_eq!(resolve_custom_type(&None, &None), "Empty");
    assert_eq!(
        resolve_custom_type(&Some("Declared".to_string()), &Some("Assoc".to_string())),
        "Declared"
    );
    assert_eq!(OpKind::Exec.messages_fn_name(), "execute_messages");
    assert_eq!(OpKind::Query.ep_name(), "query");
    assert_eq!(OpKind::Exec.wrapper_msg_name(), "ContractExecMsg");
    assert_eq!(OpKind::Migrate.wrapper_msg_name(), "MigrateMsg");
}

//! Tests for the name utilities: lexicographic comparison, sorting, joining,
//! decimal rendering, generic filtering and threading.

use sylvia::api::{filter_generics, merge_generics};
use sylvia::interfaces::{ContractMessageAttr, Interfaces};
use sylvia::remote::Remote;
use sylvia::text::{join_names, sort_names, str_lex_leq, u64_to_dec};
use sylvia::OpKind;

#[test]
fn lexicographic_comparison() {
    let s = |x: &str| x.to_string();
    assert!(str_lex_leq(&s("abc"), &s("abd")));
    assert!(!str_lex_leq(&s("abd"), &s("abc")));
    assert!(str_lex_leq(&s("abc"), &s("abc")));
    assert!(str_lex_leq(&s("ab"), &s("abc")));
    assert!(!str_lex_leq(&s("abc"), &s("ab")));
    assert!(str_lex_leq(&s(""), &s("a")));
    assert!(str_lex_leq(&s("Zeta"), &s("alpha")));
}

#[test]
fn sorting_is_stable_and_lexicographic() {
    let names: Vec<String> = vec![
        "transfer".to_string(),
        "can_execute".to_string(),
        "execute".to_string(),
    ];
    let sorted = sort_names(&names);
    assert_eq!(
        sorted,
        vec![
            "can_execute".to_string(),
            "execute".to_string(),
            "transfer".to_string()
        ]
    );
    assert_eq!(sort_names(&vec![]), Vec::<String>::new());
}

#[test]
fn joining_leaves_no_trailing_separator() {
    let names: Vec<String> = vec!["a".to_string(), "b".to_string(), "c".to_string()];
    assert_eq!(join_names(&names, ", "), "a, b, c");
    assert_eq!(join_names(&vec!["only".to_string()], ", "), "only");
    assert_eq!(join_names(&vec![], ", "), "");
}

#[test]
fn decimal_rendering() {
    assert_eq!(u64_to_dec(0), "0");
    assert_eq!(u64_to_dec(7), "7");
    assert_eq!(u64_to_dec(42), "42");
    assert_eq!(u64_to_dec(1009), "1009");
    assert_eq!(u64_to_dec(u64::MAX), "18446744073709551615");
}

#[test]
fn generic_filtering_and_threading() {
    let generics: Vec<String> = vec!["T".to_string(), "Q".to_string(), "R".to_string()];
    let args: Vec<String> = vec!["R".to_string(), "T".to_string()];
    // declaration order survives the filter, whatever the argument order.
    assert_eq!(filter_generics(&generics, &args), vec!["T".to_string(), "R".to_string()]);
    // threading keeps the first occurrence of each parameter only.
    assert_eq!(
        merge_generics(
            &vec!["T".to_string(), "Q".to_string()],
            &vec!["Q".to_string(), "R".to_string()]
        ),
        vec!["T".to_string(), "Q".to_string(), "R".to_string()]
    );
    assert_eq!(merge_generics(&vec![], &vec![]), Vec::<String>::new());
}

fn attr(module: &str) -> ContractMessageAttr {
    ContractMessageAttr {
        module: module.to_string(),
        variant: module.to_string(),
        generics: vec!["T".to_string()],
        custom_msg: false,
        custom_query: false,
    }
}

#[test]
fn attachments_and_their_calls() {
    let ifaces = Interfaces::new(vec![attr("cw1"), attr("cw4")]);
    assert_eq!(
        ifaces.as_generic_args(),
        vec!["T".to_string(), "T".to_string()]
    );
    assert_eq!(
        ifaces.emit_messages_call(OpKind::Exec),
        vec![
            "cw1::sv::execute_messages".to_string(),
            "cw4::sv::execute_messages".to_string()
        ]
    );
    let (only, diags) = ifaces.get_only_interface();
    assert!(only.is_none());
    assert_eq!(diags.len(), 1);
    assert_eq!(diags[0].message, "The attribute `sv::messages` is redefined");
    assert_eq!(diags[0].origin, "cw4");
    assert_eq!(diags[0].note.as_deref(), Some("cw1"));

    let single = Interfaces::new(vec![attr("cw1")]);
    let (only, diags) = single.get_only_interface();
    assert_eq!(only.unwrap().module, "cw1");
    assert!(diags.is_empty());
}

#[test]
fn glue_cases_carry_the_supplied_generics() {
    let plain = ContractMessageAttr {
        module: "cw1".to_string(),
        variant: "Cw1".to_string(),
        generics: vec![],
        custom_msg: false,
        custom_query: false,
    };
    let generic = ContractMessageAttr {
        module: "generic".to_string(),
        variant: "Generic".to_string(),
        generics: vec!["SvCustomMsg".to_string(), "SvCustomQuery".to_string()],
        custom_msg: false,
        custom_query: false,
    };
    let ifaces = Interfaces::new(vec![plain, generic]);
    assert_eq!(
        ifaces.emit_glue_message_variants(OpKind::Exec),
        vec![
            "Cw1(<cw1::sv::Api as InterfaceApi>::Exec)".to_string(),
            "Generic(<generic::sv::Api<SvCustomMsg, SvCustomQuery> as InterfaceApi>::Exec)"
                .to_string(),
        ]
    );
    assert_eq!(
        ifaces.emit_response_schemas_calls(OpKind::Query),
        vec![
            "<cw1::sv::Api as InterfaceApi>::Query::response_schemas_impl()".to_string(),
            "<generic::sv::Api<SvCustomMsg, SvCustomQuery> as InterfaceApi>::Query"
                .to_string()
                + "::response_schemas_impl()",
        ]
    );
}

#[test]
fn repeated_attachment_of_one_interface_is_reported() {
    let (kept, diags) =
        sylvia::interfaces::dedup_attachments(vec![attr("cw1"), attr("cw4"), attr("cw1")]);
    assert_eq!(kept.len(), 2);
    assert_eq!(kept[0].module, "cw1");
    assert_eq!(kept[1].module, "cw4");
    assert_eq!(diags.len(), 1);
    assert_eq!(
        diags[0].message,
        "The interface is attached to the contract more than once"
    );
    assert_eq!(diags[0].origin, "cw1");
    assert_eq!(diags[0].note.as_deref(), Some("cw1"));

    let (all, none) = sylvia::interfaces::dedup_attachments(vec![attr("cw1"), attr("cw4")]);
    assert_eq!(all.len(), 2);
    assert!(none.is_empty());
}

#[test]
fn remote_conversions_follow_attachments() {
    let remote = Remote::for_contract(vec![attr("cw1"), attr("cw4")]);
    assert_eq!(remote.emit(), vec!["cw1".to_string(), "cw4".to_string()]);
    let iface_remote = Remote::for_interface();
    assert!(iface_remote.emit().is_empty());
}

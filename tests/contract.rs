use starknet_contract::ast::{
    Diagnostic, EventLowering, FunctionDecl, FunctionItem, GenericParams, ImplItem, Item,
    ModuleAst, Modifier, NamedItem, Param, UseItem,
};
use starknet_contract::contract::{
    contract_has_event, extra_uses_text, handle_contract_by_storage, handle_module,
    qualified_name, PluginResult, StorageExpansion,
};
use starknet_contract::entry_point::{
    abi_function_row, validate_l1_handler_first_parameter, EntryPointKind,
};
use starknet_contract::uses::{collect_uses, UseSet};

const SEED_USES: &str = "\n        use starknet::class_hash::ClassHashSerde;\n        use starknet::contract_address::ContractAddressSerde;\n        use starknet::storage_access::StorageAddressSerde;\n        use option::OptionTrait;\n        use option::OptionTraitImpl;";

fn strings(v: &[&str]) -> Vec<String> {
    v.iter().map(|s| s.to_string()).collect()
}

fn param(ptr: u64, modifier: Modifier, name: &str, ty: &str) -> Param {
    Param { ptr, modifier, name: name.to_string(), ty: ty.to_string() }
}

fn self_param() -> Param {
    param(1, Modifier::Ref, "self", "ContractState")
}

fn function(
    ptr: u64,
    attrs: &[&str],
    name: &str,
    params: Vec<Param>,
    wrapper: Result<String, Vec<Diagnostic>>,
) -> FunctionItem {
    FunctionItem {
        ptr,
        attrs: strings(attrs),
        decl: FunctionDecl {
            name: name.to_string(),
            generic_params: None,
            params,
            params_ptr: ptr + 1000,
            ret: String::new(),
        },
        wrapper,
        event: EventLowering { code: None, diagnostics: vec![] },
    }
}

fn named(ptr: u64, name: &str, attrs: &[&str]) -> NamedItem {
    NamedItem { ptr, name: name.to_string(), attrs: strings(attrs) }
}

fn storage_struct() -> Item {
    Item::Struct(named(50, "Storage", &["starknet::storage"]))
}

fn contract_module(items: Vec<Item>) -> ModuleAst {
    ModuleAst {
        ptr: 7,
        name: "c".to_string(),
        attrs: strings(&["contract"]),
        body: Some(items),
        body_ptr: 8,
    }
}

fn no_storage_code() -> StorageExpansion {
    StorageExpansion { code: String::new(), diagnostics: vec![] }
}

fn messages(r: &PluginResult) -> Vec<(String, u64)> {
    r.diagnostics.iter().map(|d| (d.message.clone(), d.ptr)).collect()
}

fn expected_code(
    hash: &str,
    storage: &str,
    events: &str,
    abi: &str,
    abi_events: &str,
    uses: &str,
    ext: &str,
    l1: &str,
    ctor: &str,
) -> String {
    format!(
        "use starknet::SyscallResultTrait;\nuse starknet::SyscallResultTraitImpl;\n\nconst TEST_CLASS_HASH: felt252 = {hash};\n{storage}\n\n{events}\n\ntrait __abi<Storage> {{\n    {abi}\n    {abi_events}\n}}\n\nmod __external {{{uses}\n\n    {ext}\n}}\n\nmod __l1_handler {{{uses}\n\n    {l1}\n}}\n\nmod __constructor {{{uses}\n\n    {ctor}\n}}\n"
    )
}

fn expand(m: &ModuleAst, storage: &StorageExpansion) -> PluginResult {
    handle_contract_by_storage(Some(m), storage, "0x1234").unwrap()
}

#[test]
fn module_without_contract_attribute_gives_nothing() {
    let mut m = contract_module(vec![]);
    m.attrs = strings(&["other"]);
    let r = handle_module(&m);
    assert!(r.code.is_none());
    assert!(r.diagnostics.is_empty());
    assert!(!r.remove_original_item);
    assert!(handle_contract_by_storage(Some(&m), &no_storage_code(), "0x1").is_none());
}

#[test]
fn contract_without_body_is_reported() {
    let mut m = contract_module(vec![]);
    m.body = None;
    let r = handle_module(&m);
    assert!(r.code.is_none());
    assert_eq!(messages(&r), vec![("Contracts without body are not supported.".to_string(), 7)]);
    let r = handle_contract_by_storage(Some(&m), &no_storage_code(), "0x1").unwrap();
    assert!(r.code.is_none());
    assert!(!r.remove_original_item);
    assert_eq!(messages(&r), vec![("Contracts without body are not supported.".to_string(), 8)]);
}

#[test]
fn contract_without_storage_is_reported() {
    let m = contract_module(vec![Item::Struct(named(3, "Other", &["starknet::storage"]))]);
    let r = handle_module(&m);
    assert!(r.code.is_none());
    assert_eq!(messages(&r), vec![("Contracts must define a 'Storage' struct.".to_string(), 7)]);
}

#[test]
fn storage_without_attribute_is_reported() {
    let m = contract_module(vec![Item::Struct(named(3, "Storage", &[]))]);
    let r = handle_module(&m);
    assert!(r.code.is_none());
    assert_eq!(
        messages(&r),
        vec![("'Storage' struct must be annotated with #[starknet::storage].".to_string(), 7)]
    );
}

#[test]
fn sound_contract_module_gives_nothing_from_the_module() {
    let r = handle_module(&contract_module(vec![storage_struct()]));
    assert!(r.code.is_none());
    assert!(r.diagnostics.is_empty());
}

#[test]
fn struct_outside_a_module_gives_nothing() {
    assert!(handle_contract_by_storage(None, &no_storage_code(), "0x1").is_none());
}

#[test]
fn minimal_contract() {
    let m = contract_module(vec![storage_struct()]);
    let storage = StorageExpansion { code: "struct Storage {}".to_string(), diagnostics: vec![] };
    let r = expand(&m, &storage);
    assert!(r.diagnostics.is_empty());
    assert!(r.remove_original_item);
    let file = r.code.unwrap();
    assert_eq!(file.name, "contract");
    assert_eq!(file.contracts, vec!["c".to_string()]);
    assert_eq!(
        file.content,
        expected_code("0x1234", "struct Storage {}", "", "", "", SEED_USES, "", "", "")
    );
}

#[test]
fn external_function() {
    let foo = function(
        10,
        &["external"],
        "foo",
        vec![self_param(), param(2, Modifier::Plain, "x", "felt252")],
        Ok("fn foo_wrapper() {}".to_string()),
    );
    let m = contract_module(vec![storage_struct(), Item::FreeFunction(foo)]);
    let r = expand(&m, &no_storage_code());
    assert!(r.diagnostics.is_empty());
    let abi = "#[external]\n        fn foo(ref self: ContractState, x: felt252);\n        ";
    let ext = "fn foo_wrapper() {}\n        ";
    let file = r.code.unwrap();
    assert_eq!(file.content, expected_code("0x1234", "", "", abi, "", SEED_USES, ext, "", ""));
    assert_eq!(file.patches.len(), 1);
    let p = &file.patches[0];
    assert_eq!(p.origin, 10);
    assert_eq!(&file.content[p.start..p.end], "fn foo_wrapper() {}");
    assert_eq!(p.start, file.content.find("fn foo_wrapper").unwrap());
}

#[test]
fn abi_row_drops_mut() {
    let f = function(
        10,
        &["constructor"],
        "init",
        vec![self_param(), param(2, Modifier::Mut, "x", "u32"), param(3, Modifier::Mut, "y", "u8")],
        Ok(String::new()),
    );
    let mut decl = f.decl;
    decl.ret = " -> felt252".to_string();
    assert_eq!(
        abi_function_row(EntryPointKind::Constructor, &decl),
        "#[constructor]\n        fn init(ref self: ContractState, x: u32, y: u8) -> felt252;\n        "
    );
}

#[test]
fn malformed_l1_handler() {
    let h = function(
        10,
        &["l1_handler"],
        "h",
        vec![self_param(), param(2, Modifier::Plain, "x", "u32")],
        Ok("fn h_wrapper() {}".to_string()),
    );
    let m = contract_module(vec![storage_struct(), Item::FreeFunction(h)]);
    let r = expand(&m, &no_storage_code());
    assert_eq!(
        messages(&r),
        vec![
            ("The second parameter of an L1 handler must be of type `felt252`.".to_string(), 2),
            ("The second parameter of an L1 handler must be named 'from_address'.".to_string(), 2),
        ]
    );
    let abi = "#[l1_handler]\n        fn h(ref self: ContractState, x: u32);\n        ";
    let l1 = "fn h_wrapper() {}\n        ";
    assert_eq!(
        r.code.unwrap().content,
        expected_code("0x1234", "", "", abi, "", SEED_USES, "", l1, "")
    );
}

#[test]
fn l1_handler_without_second_parameter() {
    let mut diags = vec![];
    validate_l1_handler_first_parameter(&vec![self_param()], 99, &mut diags);
    assert_eq!(diags.len(), 1);
    assert_eq!(diags[0].message, "An L1 handler must have the 'from_address' as its second parameter.");
    assert_eq!(diags[0].ptr, 99);
}

#[test]
fn l1_handler_accepts_from_address_with_underscore() {
    let mut diags = vec![];
    let ps = vec![self_param(), param(2, Modifier::Plain, "_from_address", "felt252")];
    validate_l1_handler_first_parameter(&ps, 99, &mut diags);
    assert!(diags.is_empty());
    let ps = vec![self_param(), param(2, Modifier::Plain, "from_address", "felt252")];
    validate_l1_handler_first_parameter(&ps, 99, &mut diags);
    assert!(diags.is_empty());
    let ps = vec![self_param(), param(2, Modifier::Plain, "__from_address", "felt252")];
    validate_l1_handler_first_parameter(&ps, 99, &mut diags);
    assert_eq!(diags.len(), 1);
    assert_eq!(diags[0].message, "The second parameter of an L1 handler must be named 'from_address'.");
}

#[test]
fn generic_entry_point() {
    let mut g = function(10, &["external"], "g", vec![self_param()], Ok("fn g_wrapper() {}".to_string()));
    g.decl.generic_params = Some(GenericParams { ptr: 42, text: "<T>".to_string() });
    let m = contract_module(vec![storage_struct(), Item::FreeFunction(g)]);
    let r = expand(&m, &no_storage_code());
    assert_eq!(
        messages(&r),
        vec![("Contract entry points cannot have generic arguments".to_string(), 42)]
    );
    let abi = "#[external]\n        fn g<T>(ref self: ContractState);\n        ";
    let ext = "fn g_wrapper() {}\n        ";
    assert_eq!(
        r.code.unwrap().content,
        expected_code("0x1234", "", "", abi, "", SEED_USES, ext, "", "")
    );
}

#[test]
fn use_of_event_is_reexported() {
    let items = vec![
        storage_struct(),
        Item::Use(UseItem { ptr: 5, leaves: strings(&["Event"]) }),
    ];
    assert!(contract_has_event(&items));
    let expected = format!("\n        use super::Event;{SEED_USES}");
    assert_eq!(extra_uses_text(&items), expected);
}

#[test]
fn event_enum_sets_the_flag_and_plain_items_do_not() {
    let items = vec![storage_struct(), Item::Enum(named(5, "Event", &[]))];
    assert!(contract_has_event(&items));
    let items = vec![storage_struct(), Item::Enum(named(5, "Events", &[]))];
    assert!(!contract_has_event(&items));
}

#[test]
fn use_set_lists_names_in_order_and_skips_functions() {
    let items = vec![
        Item::Constant(named(1, "K", &[])),
        storage_struct(),
        Item::Use(UseItem { ptr: 2, leaves: strings(&["a", "b"]) }),
        Item::FreeFunction(function(3, &[], "f", vec![], Ok(String::new()))),
        Item::Trait(4),
        Item::Module(named(5, "m", &[])),
        Item::Use(UseItem { ptr: 6, leaves: strings(&["K"]) }),
    ];
    let expected = format!(
        "\n        use super::K;\n        use super::a;\n        use super::b;\n        use super::m;{SEED_USES}"
    );
    assert_eq!(extra_uses_text(&items), expected);
}

#[test]
fn seed_does_not_override_module_names() {
    let items = vec![Item::Struct(named(1, "OptionTrait", &[]))];
    let u = collect_uses(&items);
    let paths = u.paths();
    assert_eq!(paths.len(), 5);
    assert_eq!(paths[0], "super::OptionTrait");
    assert!(!u.to_text().contains("use option::OptionTrait;"));
    assert!(u.to_text().contains("use option::OptionTraitImpl;"));
}

#[test]
fn use_set_first_insertion_wins() {
    let mut u = UseSet::new();
    u.insert("a".to_string(), "x::a".to_string());
    u.insert("a".to_string(), "y::a".to_string());
    assert_eq!(u.paths(), vec!["x::a".to_string()]);
    assert_eq!(u.to_text(), "\n        use x::a;");
}

#[test]
fn entry_points_keep_source_order_per_kind() {
    let w = |s: &str| Ok(s.to_string());
    let items = vec![
        Item::FreeFunction(function(10, &["external"], "a", vec![], w("A"))),
        Item::FreeFunction(function(20, &["constructor"], "c", vec![], w("C"))),
        storage_struct(),
        Item::FreeFunction(function(30, &["external"], "b", vec![], w("B"))),
        Item::FreeFunction(function(40, &[], "plain", vec![], w("P"))),
    ];
    let m = contract_module(items);
    let r = expand(&m, &no_storage_code());
    let abi = "#[external]\n        fn a();\n        #[constructor]\n        fn c();\n        #[external]\n        fn b();\n        ";
    let sep = "\n        ";
    let file = r.code.unwrap();
    let spans: Vec<(&str, u64)> =
        file.patches.iter().map(|p| (&file.content[p.start..p.end], p.origin)).collect();
    assert_eq!(spans, vec![("A", 10), ("B", 30), ("C", 20)]);
    assert_eq!(
        file.content,
        expected_code(
            "0x1234",
            "",
            "",
            abi,
            "",
            SEED_USES,
            &format!("A{sep}B{sep}"),
            "",
            &format!("C{sep}")
        )
    );
}

#[test]
fn external_impl_functions_are_externals() {
    let f1 = function(10, &[], "f1", vec![], Ok("W1".to_string()));
    let f2 = function(20, &[], "f2", vec![], Ok("W2".to_string()));
    let imp = ImplItem {
        ptr: 5,
        name: "MyImpl".to_string(),
        attrs: strings(&["external"]),
        body: Some(vec![f1, f2]),
    };
    let quiet = ImplItem {
        ptr: 6,
        name: "Other".to_string(),
        attrs: vec![],
        body: Some(vec![function(30, &[], "f3", vec![], Ok("W3".to_string()))]),
    };
    let m = contract_module(vec![storage_struct(), Item::Impl(imp), Item::Impl(quiet)]);
    let r = expand(&m, &no_storage_code());
    let abi = "#[external]\n        fn f1();\n        #[external]\n        fn f2();\n        ";
    let uses = format!("\n        use super::MyImpl;\n        use super::Other;{SEED_USES}");
    assert_eq!(
        r.code.unwrap().content,
        expected_code("0x1234", "", "", abi, "", &uses, "W1\n        W2\n        ", "", "")
    );
    assert_eq!(qualified_name(&"MyImpl".to_string(), &"f1".to_string()), "MyImpl::f1");
}

#[test]
fn failed_wrapper_gives_its_diagnostics_and_no_code() {
    let d = Diagnostic { message: "bad".to_string(), ptr: 77 };
    let f = function(10, &["external"], "f", vec![], Err(vec![d]));
    let m = contract_module(vec![storage_struct(), Item::FreeFunction(f)]);
    let r = expand(&m, &no_storage_code());
    assert_eq!(messages(&r), vec![("bad".to_string(), 77)]);
    let abi = "#[external]\n        fn f();\n        ";
    assert_eq!(
        r.code.unwrap().content,
        expected_code("0x1234", "", "", abi, "", SEED_USES, "", "", "")
    );
}

#[test]
fn event_functions_and_storage_diagnostics() {
    let mut e = function(10, &["event"], "Transfer", vec![], Ok(String::new()));
    e.event = EventLowering {
        code: Some(("fn Transfer() {}".to_string(), "#[event] fn Transfer();".to_string())),
        diagnostics: vec![Diagnostic { message: "event note".to_string(), ptr: 11 }],
    };
    let m = contract_module(vec![Item::FreeFunction(e), storage_struct()]);
    let storage = StorageExpansion {
        code: "S".to_string(),
        diagnostics: vec![Diagnostic { message: "storage note".to_string(), ptr: 51 }],
    };
    let r = expand(&m, &storage);
    assert_eq!(
        messages(&r),
        vec![("event note".to_string(), 11), ("storage note".to_string(), 51)]
    );
    assert_eq!(
        r.code.unwrap().content,
        expected_code(
            "0x1234",
            "S",
            "fn Transfer() {}",
            "",
            "#[event] fn Transfer();",
            SEED_USES,
            "",
            "",
            ""
        )
    );
}

#[test]
fn only_the_first_storage_struct_is_expanded() {
    let m = contract_module(vec![storage_struct(), storage_struct()]);
    let storage = StorageExpansion {
        code: "S".to_string(),
        diagnostics: vec![Diagnostic { message: "once".to_string(), ptr: 51 }],
    };
    let r = expand(&m, &storage);
    assert_eq!(messages(&r), vec![("once".to_string(), 51)]);
}

#[test]
fn unsound_contract_gets_no_replacement() {
    let m = contract_module(vec![Item::Struct(named(3, "Storage", &[]))]);
    assert!(handle_contract_by_storage(Some(&m), &no_storage_code(), "0x1").is_none());
    let m = contract_module(vec![Item::Struct(named(3, "Other", &[]))]);
    assert!(handle_contract_by_storage(Some(&m), &no_storage_code(), "0x1").is_none());
}

#[test]
fn same_module_and_digest_give_the_same_code() {
    let build = || {
        contract_module(vec![
            storage_struct(),
            Item::FreeFunction(function(10, &["external"], "a", vec![self_param()], Ok("A".to_string()))),
        ])
    };
    let r1 = expand(&build(), &no_storage_code()).code.unwrap();
    let r2 = expand(&build(), &no_storage_code()).code.unwrap();
    assert_eq!(r1.content, r2.content);
    assert!(r1.content.contains("const TEST_CLASS_HASH: felt252 = 0x1234;\n"));
}

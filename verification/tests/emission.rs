use bpf_helper_gen::ast::{FnSig, ForeignDecl, Item, Param, StaticTy};
use bpf_helper_gen::emit::{codegen_artifacts, emit_primary, emit_secondary};
use bpf_helper_gen::extract::{extract_helpers, ExtractError};

fn param(name: &str, ty: &str) -> Param {
    Param { name: name.to_string(), ty: ty.to_string() }
}

fn sig(quals: &str, params: Vec<Param>, ret: &str) -> FnSig {
    FnSig { quals: quals.to_string(), params, ret: ret.to_string() }
}

fn decl(name: &str, ty: StaticTy) -> ForeignDecl {
    ForeignDecl { name: name.to_string(), ty }
}

fn scenario_tree() -> Vec<Item> {
    vec![
        Item::Plain("pub const BPF_SOME_CONST : u32 = 1 ;".to_string()),
        Item::ForeignBlock(vec![
            decl(
                "bpf_map_lookup_elem",
                StaticTy::OptionFn(sig(
                    "unsafe",
                    vec![param("arg0", "*mut u8"), param("arg1", "*mut u8")],
                    "*mut u8",
                )),
            ),
            decl("ineligible_symbol", StaticTy::Other),
        ]),
    ]
}

#[test]
fn artifacts_of_scenario() {
    let a = codegen_artifacts(scenario_tree()).unwrap();
    assert_eq!(a.primary, "pub const BPF_SOME_CONST : u32 = 1 ;\n");
    assert_eq!(
        a.secondary,
        "use crate::bpf::generated::bindings::*;\n\
         #[inline(always)] pub unsafe fn bpf_map_lookup_elem(arg0: *mut u8, arg1: *mut u8) \
         -> *mut u8 { let f: unsafe fn(arg0: *mut u8, arg1: *mut u8) -> *mut u8 = \
         ::core::mem::transmute(1usize); f(arg0, arg1) }\n"
    );
}

#[test]
fn dropped_declarations_reach_neither_artifact() {
    let a = codegen_artifacts(scenario_tree()).unwrap();
    assert!(!a.primary.contains("ineligible_symbol"));
    assert!(!a.secondary.contains("ineligible_symbol"));
    assert!(!a.secondary.contains("BPF_SOME_CONST"));
    assert!(a.primary.contains("BPF_SOME_CONST"));
}

#[test]
fn extraction_is_idempotent_on_identical_input() {
    let first = codegen_artifacts(scenario_tree()).unwrap();
    let second = codegen_artifacts(scenario_tree()).unwrap();
    assert_eq!(first.primary, second.primary);
    assert_eq!(first.secondary, second.secondary);
}

#[test]
fn fatal_declaration_aborts_whole_run() {
    let tree = vec![
        Item::Plain("pub type T = u8 ;".to_string()),
        Item::ForeignBlock(vec![decl("bpf_broken", StaticTy::OptionNotFn)]),
    ];
    match codegen_artifacts(tree) {
        Err(e) => assert_eq!(e, ExtractError::NotAFunctionType),
        Ok(_) => panic!("ill-shaped declaration was accepted"),
    }
}

#[test]
fn secondary_of_empty_extraction_is_only_the_import_line() {
    let tree = vec![Item::Plain("pub type T = u8 ;".to_string())];
    let a = codegen_artifacts(tree).unwrap();
    assert_eq!(a.primary, "pub type T = u8 ;\n");
    assert_eq!(a.secondary, "use crate::bpf::generated::bindings::*;\n");
}

#[test]
fn suppressed_wrapper_is_inert_in_secondary() {
    let tree = vec![Item::ForeignBlock(vec![decl(
        "bpf_trace_printk",
        StaticTy::OptionFn(sig("unsafe", vec![param("fmt", "*const u8")], "i64")),
    )])];
    let a = codegen_artifacts(tree).unwrap();
    let body = a.secondary.strip_prefix("use crate::bpf::generated::bindings::*;\n").unwrap();
    assert!(body.starts_with("/* "));
    assert!(body.ends_with(" */\n"));
    // the wrapper is present as text but not as live code
    assert!(body.contains("bpf_trace_printk"));
}

#[test]
fn emit_functions_match_extraction_output() {
    let ex = extract_helpers(scenario_tree()).unwrap();
    let primary = emit_primary(&ex.items);
    let secondary = emit_secondary(&ex.helpers);
    let a = codegen_artifacts(scenario_tree()).unwrap();
    assert_eq!(primary, a.primary);
    assert_eq!(secondary, a.secondary);
}

#[test]
fn plain_items_keep_their_order() {
    let tree = vec![
        Item::Plain("pub type A = u8 ;".to_string()),
        Item::ForeignBlock(vec![decl("bpf_x", StaticTy::OptionFn(sig("unsafe", vec![], "")))]),
        Item::Plain("pub type B = u16 ;".to_string()),
        Item::Plain("pub type C = u32 ;".to_string()),
    ];
    let a = codegen_artifacts(tree).unwrap();
    assert_eq!(a.primary, "pub type A = u8 ;\npub type B = u16 ;\npub type C = u32 ;\n");
}

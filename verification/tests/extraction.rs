use bpf_helper_gen::ast::{FnSig, ForeignDecl, Helper, Item, Param, StaticTy};
use bpf_helper_gen::extract::{extract_helpers, ExtractError};

fn param(name: &str, ty: &str) -> Param {
    Param { name: name.to_string(), ty: ty.to_string() }
}

fn sig(quals: &str, params: Vec<Param>, ret: &str) -> FnSig {
    FnSig { quals: quals.to_string(), params, ret: ret.to_string() }
}

fn decl(name: &str, ty: StaticTy) -> ForeignDecl {
    ForeignDecl { name: name.to_string(), ty }
}

fn lookup_sig() -> FnSig {
    sig(
        "unsafe",
        vec![param("arg0", "*mut u8"), param("arg1", "*mut u8")],
        "*mut u8",
    )
}

#[test]
fn scenario_eligible_and_constant() {
    let tree = vec![
        Item::Plain("pub const BPF_SOME_CONST : u32 = 1 ;".to_string()),
        Item::ForeignBlock(vec![decl("bpf_map_lookup_elem", StaticTy::OptionFn(lookup_sig()))]),
    ];
    let ex = extract_helpers(tree).unwrap();
    assert_eq!(ex.items.len(), 1);
    match &ex.items[0] {
        Item::Plain(t) => assert_eq!(t, "pub const BPF_SOME_CONST : u32 = 1 ;"),
        Item::ForeignBlock(_) => panic!("foreign block survived"),
    }
    assert_eq!(ex.helpers.len(), 1);
    let h: &Helper = &ex.helpers[0];
    assert_eq!(h.name, "bpf_map_lookup_elem");
    assert_eq!(h.call_index, 1);
    assert!(!h.suppressed);
    assert_eq!(
        h.text,
        "#[inline(always)] pub unsafe fn bpf_map_lookup_elem(arg0: *mut u8, arg1: *mut u8) \
         -> *mut u8 { let f: unsafe fn(arg0: *mut u8, arg1: *mut u8) -> *mut u8 = \
         ::core::mem::transmute(1usize); f(arg0, arg1) }"
    );
}

#[test]
fn scenario_interleaved_indices() {
    let tree = vec![Item::ForeignBlock(vec![
        decl("bpf_first", StaticTy::OptionFn(sig("unsafe", vec![param("a", "u64")], "i64"))),
        decl("not_a_helper", StaticTy::Other),
        decl("bpf_second", StaticTy::OptionFn(sig("unsafe", vec![], ""))),
    ])];
    let ex = extract_helpers(tree).unwrap();
    assert_eq!(ex.helpers.len(), 2);
    assert_eq!(ex.helpers[0].name, "bpf_first");
    assert_eq!(ex.helpers[0].call_index, 1);
    assert_eq!(ex.helpers[1].name, "bpf_second");
    assert_eq!(ex.helpers[1].call_index, 2);
}

#[test]
fn indices_count_across_blocks() {
    let tree = vec![
        Item::ForeignBlock(vec![decl(
            "bpf_one",
            StaticTy::OptionFn(sig("unsafe", vec![], "")),
        )]),
        Item::Plain("pub type X = u32 ;".to_string()),
        Item::ForeignBlock(vec![
            decl("BPF_NOT_LOWER", StaticTy::Other),
            decl("bpf_two", StaticTy::OptionFn(sig("unsafe", vec![], ""))),
            decl("bpf_three", StaticTy::OptionFn(sig("unsafe", vec![], ""))),
        ]),
    ];
    let ex = extract_helpers(tree).unwrap();
    let idx: Vec<usize> = ex.helpers.iter().map(|h| h.call_index).collect();
    assert_eq!(idx, vec![1, 2, 3]);
    let names: Vec<&str> = ex.helpers.iter().map(|h| h.name.as_str()).collect();
    assert_eq!(names, vec!["bpf_one", "bpf_two", "bpf_three"]);
}

#[test]
fn scenario_suppressed_wrapper() {
    let tree = vec![Item::ForeignBlock(vec![decl(
        "bpf_trace_printk",
        StaticTy::OptionFn(sig("unsafe", vec![param("fmt", "*const u8")], "i64")),
    )])];
    let ex = extract_helpers(tree).unwrap();
    assert_eq!(ex.helpers.len(), 1);
    let h = &ex.helpers[0];
    assert!(h.suppressed);
    assert!(h.text.starts_with("/* "));
    assert!(h.text.ends_with(" */"));
    assert!(h.text.contains("bpf_trace_printk"));
    assert_eq!(h.call_index, 1);
}

#[test]
fn suppression_looks_at_whole_text() {
    // the fragment sits in a parameter type, not in the helper's name
    let tree = vec![Item::ForeignBlock(vec![decl(
        "bpf_log",
        StaticTy::OptionFn(sig("unsafe", vec![param("data", "*mut printk_rec")], "")),
    )])];
    let ex = extract_helpers(tree).unwrap();
    assert!(ex.helpers[0].suppressed);
    assert!(ex.helpers[0].text.starts_with("/* "));
}

#[test]
fn ill_shaped_eligible_declaration_is_fatal() {
    let tree = vec![Item::ForeignBlock(vec![
        decl("bpf_ok", StaticTy::OptionFn(sig("unsafe", vec![], ""))),
        decl("bpf_broken", StaticTy::OptionNotFn),
    ])];
    match extract_helpers(tree) {
        Err(e) => assert_eq!(e, ExtractError::NotAFunctionType),
        Ok(_) => panic!("ill-shaped declaration was accepted"),
    }
}

#[test]
fn unprefixed_option_fn_is_skipped() {
    let tree = vec![Item::ForeignBlock(vec![
        decl("map_lookup", StaticTy::OptionFn(sig("unsafe", vec![], ""))),
        decl("other_thing", StaticTy::OptionNotFn),
    ])];
    let ex = extract_helpers(tree).unwrap();
    assert!(ex.helpers.is_empty());
    assert!(ex.items.is_empty());
}

#[test]
fn empty_and_ineligible_blocks_are_deleted() {
    let tree = vec![
        Item::ForeignBlock(vec![]),
        Item::Plain("pub type A = i32 ;".to_string()),
        Item::ForeignBlock(vec![decl("some_symbol", StaticTy::Other)]),
        Item::Plain("pub type B = i64 ;".to_string()),
    ];
    let ex = extract_helpers(tree).unwrap();
    assert!(ex.helpers.is_empty());
    assert_eq!(ex.items.len(), 2);
    match (&ex.items[0], &ex.items[1]) {
        (Item::Plain(a), Item::Plain(b)) => {
            assert_eq!(a, "pub type A = i32 ;");
            assert_eq!(b, "pub type B = i64 ;");
        },
        _ => panic!("foreign block survived"),
    }
}

#[test]
fn multi_digit_call_index() {
    let mut decls = Vec::new();
    for i in 0..12 {
        decls.push(decl(
            &format!("bpf_helper_{}", i),
            StaticTy::OptionFn(sig("unsafe", vec![], "")),
        ));
    }
    let tree = vec![Item::ForeignBlock(decls)];
    let ex = extract_helpers(tree).unwrap();
    assert_eq!(ex.helpers.len(), 12);
    assert_eq!(ex.helpers[11].call_index, 12);
    assert!(ex.helpers[11].text.contains("::core::mem::transmute(12usize)"));
    assert!(ex.helpers[9].text.contains("::core::mem::transmute(10usize)"));
}

#[test]
fn wrapper_with_no_params_and_no_return() {
    let tree = vec![Item::ForeignBlock(vec![decl(
        "bpf_tail_call",
        StaticTy::OptionFn(sig("", vec![], "")),
    )])];
    let ex = extract_helpers(tree).unwrap();
    assert_eq!(
        ex.helpers[0].text,
        "#[inline(always)] pub fn bpf_tail_call() { let f: fn() = \
         ::core::mem::transmute(1usize); f() }"
    );
}

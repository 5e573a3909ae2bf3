use bpf_helper_gen::config::{
    formatter_program, generator_args, generator_program, primary_artifact_path,
    secondary_artifact_path, CodegenOptions,
};
use bpf_helper_gen::text::{contains_suppressed_fragment, decimal_string};

#[test]
fn generator_argument_list_is_fixed() {
    let opts = CodegenOptions { libbpf_dir: "third-party/libbpf".to_string() };
    let args = generator_args(&opts);
    let expect: Vec<&str> = vec![
        "--no-layout-tests",
        "--use-core",
        "--ctypes-prefix",
        "::aya_bpf_cty",
        "--default-enum-style",
        "consts",
        "--no-prepend-enum-name",
        "bpf/aya-bpf/include/aya_bpf_bindings.h",
        "--whitelist-type",
        "bpf_map_.*",
        "--whitelist-var",
        "BPF_.*",
        "--whitelist-var",
        "bpf_.*",
        "--",
        "-I",
        "third-party/libbpf/src",
    ];
    let got: Vec<&str> = args.iter().map(|s| s.as_str()).collect();
    assert_eq!(got, expect);
}

#[test]
fn program_names_and_artifact_paths() {
    assert_eq!(generator_program(), "bindgen");
    assert_eq!(formatter_program(), "rustfmt");
    assert_eq!(primary_artifact_path(), "bpf/aya-bpf/src/bpf/generated/bindings.rs");
    assert_eq!(secondary_artifact_path(), "bpf/aya-bpf/src/bpf/generated/helpers.rs");
}

#[test]
fn decimal_rendering() {
    assert_eq!(decimal_string(0), "0");
    assert_eq!(decimal_string(7), "7");
    assert_eq!(decimal_string(10), "10");
    assert_eq!(decimal_string(907), "907");
    assert_eq!(decimal_string(18446744073709551615), "18446744073709551615");
}

#[test]
fn suppressed_fragment_search() {
    assert!(contains_suppressed_fragment("bpf_trace_printk"));
    assert!(contains_suppressed_fragment("printk"));
    assert!(contains_suppressed_fragment("xxprintkxx"));
    assert!(!contains_suppressed_fragment(""));
    assert!(!contains_suppressed_fragment("print"));
    assert!(!contains_suppressed_fragment("bpf_map_lookup_elem"));
    assert!(!contains_suppressed_fragment("printX and kprint"));
}

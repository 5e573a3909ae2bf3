//! The fixed configuration of a run: the generator invocation, the
//! artifact locations, and the one user-supplied input.

use vstd::prelude::*;
use vstd::string::StringExecFns;

verus! {

/// The one configurable input of a run: the path of the native
/// library's source directory, which supplies the generator's include
/// flag.
pub struct CodegenOptions {
    pub libbpf_dir: String,
}

/// The argument list of the generator invocation: the fixed flags, the
/// target header, the two type-name and two variable-name allow-list
/// patterns, and the include flag derived from `dir`.
pub open spec fn generator_args_spec(dir: Seq<char>) -> Seq<Seq<char>> {
    seq![
        "--no-layout-tests"@,
        "--use-core"@,
        "--ctypes-prefix"@,
        "::aya_bpf_cty"@,
        "--default-enum-style"@,
        "consts"@,
        "--no-prepend-enum-name"@,
        "bpf/aya-bpf/include/aya_bpf_bindings.h"@,
        "--whitelist-type"@,
        "bpf_map_.*"@,
        "--whitelist-var"@,
        "BPF_.*"@,
        "--whitelist-var"@,
        "bpf_.*"@,
        "--"@,
        "-I"@,
        dir + "/src"@,
    ]
}

/// Builds the generator's argument list for the configured directory.
pub fn generator_args(opts: &CodegenOptions) -> (r: Vec<String>)
    ensures
        r@.map_values(|s: String| s@) == generator_args_spec(opts.libbpf_dir@),
{
    let mut v: Vec<String> = Vec::new();
    v.push(String::from_str("--no-layout-tests"));
    v.push(String::from_str("--use-core"));
    v.push(String::from_str("--ctypes-prefix"));
    v.push(String::from_str("::aya_bpf_cty"));
    v.push(String::from_str("--default-enum-style"));
    v.push(String::from_str("consts"));
    v.push(String::from_str("--no-prepend-enum-name"));
    v.push(String::from_str("bpf/aya-bpf/include/aya_bpf_bindings.h"));
    v.push(String::from_str("--whitelist-type"));
    v.push(String::from_str("bpf_map_.*"));
    v.push(String::from_str("--whitelist-var"));
    v.push(String::from_str("BPF_.*"));
    v.push(String::from_str("--whitelist-var"));
    v.push(String::from_str("bpf_.*"));
    v.push(String::from_str("--"));
    v.push(String::from_str("-I"));
    let mut inc = String::new();
    inc.append(opts.libbpf_dir.as_str());
    inc.append("/src");
    v.push(inc);
    proof {
        assert(v@.map_values(|s: String| s@) =~= generator_args_spec(opts.libbpf_dir@));
    }
    v
}

/// The name of the external binding generator.
pub fn generator_program() -> (r: String)
    ensures
        r@ == "bindgen"@,
{
    String::from_str("bindgen")
}

/// The name of the external source formatter.
pub fn formatter_program() -> (r: String)
    ensures
        r@ == "rustfmt"@,
{
    String::from_str("rustfmt")
}

/// Where the primary artifact (the rewritten bindings) is written.
pub fn primary_artifact_path() -> (r: String)
    ensures
        r@ == "bpf/aya-bpf/src/bpf/generated/bindings.rs"@,
{
    String::from_str("bpf/aya-bpf/src/bpf/generated/bindings.rs")
}

/// Where the secondary artifact (the helper wrappers) is written.
pub fn secondary_artifact_path() -> (r: String)
    ensures
        r@ == "bpf/aya-bpf/src/bpf/generated/helpers.rs"@,
{
    String::from_str("bpf/aya-bpf/src/bpf/generated/helpers.rs")
}

} // verus!

//! Synthesis of one helper wrapper from a declaration's name, its
//! extracted function signature, and its assigned call index.

use vstd::prelude::*;
use vstd::string::StringExecFns;
use crate::ast::{FnSig, FnSigV, Helper, HelperV};
use crate::text::{
    build_wrapper_raw, commented, contains_fragment, contains_suppressed_fragment, wrapper_raw,
    wrapper_text,
};

verus! {

/// The helper descriptor produced for an eligible declaration `name`
/// whose extracted signature is `sig`, at call index `idx`.
pub open spec fn helper_at(name: Seq<char>, sig: FnSigV, idx: int) -> HelperV {
    HelperV {
        name: name,
        call_index: idx,
        suppressed: contains_fragment(wrapper_raw(name, sig, idx as nat)),
        text: wrapper_text(name, sig, idx as nat),
    }
}

/// Synthesizes the wrapper for one eligible declaration: the raw wrapper
/// text is built from the name, signature and call index, and the
/// suppression policy turns it into inert commented-out text when it
/// contains the suppressed-helper name fragment.
pub fn synthesize_wrapper(name: String, sig: &FnSig, call_index: usize) -> (h: Helper)
    ensures
        h@ == helper_at(name@, sig@, call_index as int),
{
    let raw = build_wrapper_raw(name.as_str(), sig, call_index);
    let suppressed = contains_suppressed_fragment(raw.as_str());
    let text = if suppressed {
        let mut c = String::from_str("/* ");
        c.append(raw.as_str());
        c.append(" */");
        proof {
            assert(c@ =~= commented(raw@));
        }
        c
    } else {
        raw
    };
    Helper { name, call_index, suppressed, text }
}

} // verus!

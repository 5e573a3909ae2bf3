//! Text synthesis for helper wrappers: the exact character sequences the
//! library emits, stated as spec functions, and the verified executable
//! builders that produce them.

use vstd::prelude::*;
use vstd::string::StrSliceExecFns;
use vstd::string::StringExecFns;
use crate::ast::{FnSig, FnSigV, Param, ParamV};

verus! {

/// The character standing for decimal digit `d`.
pub open spec fn digit_char(d: nat) -> char {
    if d == 0 {
        '0'
    } else if d == 1 {
        '1'
    } else if d == 2 {
        '2'
    } else if d == 3 {
        '3'
    } else if d == 4 {
        '4'
    } else if d == 5 {
        '5'
    } else if d == 6 {
        '6'
    } else if d == 7 {
        '7'
    } else if d == 8 {
        '8'
    } else {
        '9'
    }
}

/// The decimal digits of `n`, most significant first, with no sign and no
/// leading zeros (a single `'0'` for zero).
pub open spec fn dec_str(n: nat) -> Seq<char>
    decreases n,
{
    if n < 10 {
        seq![digit_char(n)]
    } else {
        dec_str(n / 10).push(digit_char(n % 10))
    }
}

fn digit_str(d: usize) -> (r: &'static str)
    requires
        d < 10,
    ensures
        r@ =~= seq![digit_char(d as nat)],
{
    proof {
        reveal_strlit("0");
        reveal_strlit("1");
        reveal_strlit("2");
        reveal_strlit("3");
        reveal_strlit("4");
        reveal_strlit("5");
        reveal_strlit("6");
        reveal_strlit("7");
        reveal_strlit("8");
        reveal_strlit("9");
    }
    if d == 0 {
        "0"
    } else if d == 1 {
        "1"
    } else if d == 2 {
        "2"
    } else if d == 3 {
        "3"
    } else if d == 4 {
        "4"
    } else if d == 5 {
        "5"
    } else if d == 6 {
        "6"
    } else if d == 7 {
        "7"
    } else if d == 8 {
        "8"
    } else {
        "9"
    }
}

/// Renders `n` in decimal.
pub fn decimal_string(n: usize) -> (r: String)
    ensures
        r@ == dec_str(n as nat),
    decreases n,
{
    if n < 10 {
        let s = String::from_str(digit_str(n));
        proof {
            assert(s@ =~= dec_str(n as nat));
        }
        s
    } else {
        let mut s = decimal_string(n / 10);
        s.append(digit_str(n % 10));
        proof {
            assert(s@ =~= dec_str(n as nat));
        }
        s
    }
}

/// The name fragment that marks a helper whose real signature takes
/// variable arguments; a synthesized wrapper containing it is suppressed.
pub open spec fn suppressed_fragment() -> Seq<char> {
    seq!['p', 'r', 'i', 'n', 't', 'k']
}

/// Whether the suppressed-helper fragment occurs in `s` starting at `i`.
pub open spec fn fragment_at(s: Seq<char>, i: int) -> bool {
    0 <= i && i + 6 <= s.len() && s.subrange(i, i + 6) == suppressed_fragment()
}

/// Whether the suppressed-helper fragment occurs anywhere in `s`.
pub open spec fn contains_fragment(s: Seq<char>) -> bool {
    exists|i: int| fragment_at(s, i)
}

fn fragment_at_exec(s: &str, i: usize, n: usize) -> (r: bool)
    requires
        n == s@.len(),
        i + 6 <= n,
    ensures
        r == fragment_at(s@, i as int),
{
    let r = s.get_char(i) == 'p' && s.get_char(i + 1) == 'r' && s.get_char(i + 2) == 'i'
        && s.get_char(i + 3) == 'n' && s.get_char(i + 4) == 't' && s.get_char(i + 5) == 'k';
    proof {
        if r {
            assert(s@.subrange(i as int, i as int + 6) =~= suppressed_fragment());
        } else {
            if s@.subrange(i as int, i as int + 6) == suppressed_fragment() {
                assert(s@[i as int] == suppressed_fragment()[0]);
                assert(s@[i as int + 1] == suppressed_fragment()[1]);
                assert(s@[i as int + 2] == suppressed_fragment()[2]);
                assert(s@[i as int + 3] == suppressed_fragment()[3]);
                assert(s@[i as int + 4] == suppressed_fragment()[4]);
                assert(s@[i as int + 5] == suppressed_fragment()[5]);
            }
        }
    }
    r
}

/// Whether the suppressed-helper name fragment occurs in `s`.
pub fn contains_suppressed_fragment(s: &str) -> (r: bool)
    ensures
        r == contains_fragment(s@),
{
    let n = s.unicode_len();
    if n < 6 {
        proof {
            if contains_fragment(s@) {
                let j = choose|j: int| fragment_at(s@, j);
                assert(j + 6 <= n);
            }
        }
        return false;
    }
    let mut i: usize = 0;
    while i <= n - 6
        invariant
            n == s@.len(),
            6 <= n,
            i <= n - 5,
            forall|j: int| 0 <= j < i ==> !fragment_at(s@, j),
        decreases n - i,
    {
        if fragment_at_exec(s, i, n) {
            return true;
        }
        i += 1;
    }
    proof {
        if contains_fragment(s@) {
            let j = choose|j: int| fragment_at(s@, j);
            assert(j + 6 <= n);
            assert(j < i);
        }
    }
    false
}

/// `name: ty` for one parameter.
pub open spec fn param_text(p: ParamV) -> Seq<char> {
    p.name + ": "@ + p.ty
}

/// The parameter list, comma-separated, without surrounding parentheses.
pub open spec fn params_text(ps: Seq<ParamV>) -> Seq<char>
    decreases ps.len(),
{
    if ps.len() == 0 {
        Seq::empty()
    } else if ps.len() == 1 {
        param_text(ps[0])
    } else {
        params_text(ps.drop_last()) + ", "@ + param_text(ps.last())
    }
}

/// The parameter names, comma-separated, in declared order.
pub open spec fn args_text(ps: Seq<ParamV>) -> Seq<char>
    decreases ps.len(),
{
    if ps.len() == 0 {
        Seq::empty()
    } else if ps.len() == 1 {
        ps[0].name
    } else {
        args_text(ps.drop_last()) + ", "@ + ps.last().name
    }
}

/// The qualifier tokens followed by one space, or nothing when there are
/// no qualifiers.
pub open spec fn quals_prefix(quals: Seq<char>) -> Seq<char> {
    if quals.len() == 0 {
        Seq::empty()
    } else {
        quals + " "@
    }
}

/// ` -> ret`, or nothing when the function returns nothing.
pub open spec fn ret_suffix(ret: Seq<char>) -> Seq<char> {
    if ret.len() == 0 {
        Seq::empty()
    } else {
        " -> "@ + ret
    }
}

/// The extracted function-pointer type, rendered as tokens.
pub open spec fn fn_ty_text(sig: FnSigV) -> Seq<char> {
    quals_prefix(sig.quals) + "fn("@ + params_text(sig.params) + ")"@ + ret_suffix(sig.ret)
}

/// The synthesized wrapper for helper `name` with signature `sig` and
/// call index `idx`, before the suppression policy is applied: an
/// aggressive-inlining hint, the signature with the helper's name, and a
/// body that reinterprets the call index as the function-pointer type and
/// forwards the parameters positionally.
pub open spec fn wrapper_raw(name: Seq<char>, sig: FnSigV, idx: nat) -> Seq<char> {
    "#[inline(always)] pub "@ + quals_prefix(sig.quals) + "fn "@ + name + "("@ + params_text(
        sig.params,
    ) + ")"@ + ret_suffix(sig.ret) + " { let f: "@ + fn_ty_text(sig)
        + " = ::core::mem::transmute("@ + dec_str(idx) + "usize); f("@ + args_text(sig.params)
        + ") }"@
}

/// `t` wrapped in a block comment.
pub open spec fn commented(t: Seq<char>) -> Seq<char> {
    "/* "@ + t + " */"@
}

/// The wrapper text that is emitted: the raw wrapper, wrapped in a block
/// comment when it contains the suppressed-helper fragment.
pub open spec fn wrapper_text(name: Seq<char>, sig: FnSigV, idx: nat) -> Seq<char> {
    if contains_fragment(wrapper_raw(name, sig, idx)) {
        commented(wrapper_raw(name, sig, idx))
    } else {
        wrapper_raw(name, sig, idx)
    }
}

fn append_params(t: &mut String, ps: &Vec<Param>)
    ensures
        final(t)@ == old(t)@ + params_text(ps@.map_values(|p: Param| p@)),
{
    let ghost base: Seq<char> = t@;
    let ghost psv: Seq<ParamV> = ps@.map_values(|p: Param| p@);
    let mut i: usize = 0;
    while i < ps.len()
        invariant
            i <= ps.len(),
            psv == ps@.map_values(|p: Param| p@),
            t@ == base + params_text(psv.take(i as int)),
        decreases ps.len() - i,
    {
        if i > 0 {
            t.append(", ");
        }
        t.append(ps[i].name.as_str());
        t.append(": ");
        t.append(ps[i].ty.as_str());
        proof {
            assert(psv.take(i + 1).drop_last() =~= psv.take(i as int));
            assert(psv.take(i + 1).last() == psv[i as int]);
            assert(t@ =~= base + params_text(psv.take(i + 1)));
        }
        i += 1;
    }
    proof {
        assert(psv.take(ps@.len() as int) =~= psv);
    }
}

fn append_args(t: &mut String, ps: &Vec<Param>)
    ensures
        final(t)@ == old(t)@ + args_text(ps@.map_values(|p: Param| p@)),
{
    let ghost base: Seq<char> = t@;
    let ghost psv: Seq<ParamV> = ps@.map_values(|p: Param| p@);
    let mut i: usize = 0;
    while i < ps.len()
        invariant
            i <= ps.len(),
            psv == ps@.map_values(|p: Param| p@),
            t@ == base + args_text(psv.take(i as int)),
        decreases ps.len() - i,
    {
        if i > 0 {
            t.append(", ");
        }
        t.append(ps[i].name.as_str());
        proof {
            assert(psv.take(i + 1).drop_last() =~= psv.take(i as int));
            assert(psv.take(i + 1).last() == psv[i as int]);
            assert(t@ =~= base + args_text(psv.take(i + 1)));
        }
        i += 1;
    }
    proof {
        assert(psv.take(ps@.len() as int) =~= psv);
    }
}

fn append_quals_prefix(t: &mut String, sig: &FnSig)
    ensures
        final(t)@ == old(t)@ + quals_prefix(sig@.quals),
{
    if !sig.quals.as_str().is_empty() {
        t.append(sig.quals.as_str());
        t.append(" ");
    }
    proof {
        assert(t@ =~= old(t)@ + quals_prefix(sig@.quals));
    }
}

fn append_ret_suffix(t: &mut String, sig: &FnSig)
    ensures
        final(t)@ == old(t)@ + ret_suffix(sig@.ret),
{
    if !sig.ret.as_str().is_empty() {
        t.append(" -> ");
        t.append(sig.ret.as_str());
    }
    proof {
        assert(t@ =~= old(t)@ + ret_suffix(sig@.ret));
    }
}

fn append_fn_ty(t: &mut String, sig: &FnSig)
    ensures
        final(t)@ == old(t)@ + fn_ty_text(sig@),
{
    append_quals_prefix(t, sig);
    t.append("fn(");
    append_params(t, &sig.params);
    t.append(")");
    append_ret_suffix(t, sig);
    proof {
        assert(t@ =~= old(t)@ + fn_ty_text(sig@));
    }
}

/// Builds the raw wrapper text for helper `name` with signature `sig`
/// and call index `idx`.
pub fn build_wrapper_raw(name: &str, sig: &FnSig, idx: usize) -> (r: String)
    ensures
        r@ == wrapper_raw(name@, sig@, idx as nat),
{
    let mut t = String::from_str("#[inline(always)] pub ");
    append_quals_prefix(&mut t, sig);
    t.append("fn ");
    t.append(name);
    t.append("(");
    append_params(&mut t, &sig.params);
    t.append(")");
    append_ret_suffix(&mut t, sig);
    t.append(" { let f: ");
    append_fn_ty(&mut t, sig);
    t.append(" = ::core::mem::transmute(");
    let d = decimal_string(idx);
    t.append(d.as_str());
    t.append("usize); f(");
    append_args(&mut t, &sig.params);
    t.append(") }");
    proof {
        assert(t@ =~= wrapper_raw(name@, sig@, idx as nat));
    }
    t
}

} // verus!

//! Emission of the two text artifacts: the rewritten tree, and the
//! synthesized helper wrappers behind a fixed import line.

use vstd::prelude::*;
use vstd::string::StringExecFns;
use crate::ast::{helpers_view, items_view, Helper, HelperV, Item, ItemV};
use crate::extract::{
    extract_helpers, helpers_of, kept_items, tree_extracted, tree_fatal, ExtractError,
};

verus! {

/// What one tree item contributes to the primary artifact: its token
/// text and a line break for a plain item, nothing for a foreign-import
/// block.
pub open spec fn item_line(it: ItemV) -> Seq<char> {
    match it {
        ItemV::Plain(t) => t + "\n"@,
        ItemV::ForeignBlock(_) => Seq::empty(),
    }
}

/// The primary artifact's text for a tree: every item that is not a
/// foreign-import block, unchanged and in order, one per line.
pub open spec fn primary_text(items: Seq<ItemV>) -> Seq<char>
    decreases items.len(),
{
    if items.len() == 0 {
        Seq::empty()
    } else {
        primary_text(items.drop_last()) + item_line(items.last())
    }
}

/// The fixed import line that makes the secondary artifact depend on the
/// primary artifact's namespace.
pub open spec fn import_line() -> Seq<char> {
    "use crate::bpf::generated::bindings::*;\n"@
}

/// The wrapper texts in accumulation order, one per line, the suppressed
/// (commented-out) ones included.
pub open spec fn helpers_text(hs: Seq<HelperV>) -> Seq<char>
    decreases hs.len(),
{
    if hs.len() == 0 {
        Seq::empty()
    } else {
        helpers_text(hs.drop_last()) + hs.last().text + "\n"@
    }
}

/// The secondary artifact's text: the import line, then every wrapper.
pub open spec fn secondary_text(hs: Seq<HelperV>) -> Seq<char> {
    import_line() + helpers_text(hs)
}

/// Serializes a rewritten tree as the primary artifact.
pub fn emit_primary(items: &Vec<Item>) -> (r: String)
    ensures
        r@ == primary_text(items_view(items@)),
{
    let ghost iv: Seq<ItemV> = items_view(items@);
    let mut t = String::new();
    proof {
        assert(iv.take(0) =~= Seq::<ItemV>::empty());
    }
    let mut i: usize = 0;
    while i < items.len()
        invariant
            i <= items.len(),
            iv == items_view(items@),
            t@ == primary_text(iv.take(i as int)),
        decreases items.len() - i,
    {
        match &items[i] {
            Item::Plain(s) => {
                t.append(s.as_str());
                t.append("\n");
            },
            Item::ForeignBlock(_) => {},
        }
        proof {
            assert(iv.take(i + 1).drop_last() =~= iv.take(i as int));
            assert(iv.take(i + 1).last() == iv[i as int]);
            assert(iv[i as int] == items@[i as int]@);
            assert(t@ =~= primary_text(iv.take(i + 1)));
        }
        i += 1;
    }
    proof {
        assert(iv.take(items@.len() as int) =~= iv);
    }
    t
}

/// Serializes the accumulated wrappers as the secondary artifact.
pub fn emit_secondary(helpers: &Vec<Helper>) -> (r: String)
    ensures
        r@ == secondary_text(helpers_view(helpers@)),
{
    let ghost hv: Seq<HelperV> = helpers_view(helpers@);
    let mut t = String::from_str("use crate::bpf::generated::bindings::*;\n");
    proof {
        assert(hv.take(0) =~= Seq::<HelperV>::empty());
        assert(t@ =~= import_line() + helpers_text(hv.take(0)));
    }
    let mut i: usize = 0;
    while i < helpers.len()
        invariant
            i <= helpers.len(),
            hv == helpers_view(helpers@),
            t@ == import_line() + helpers_text(hv.take(i as int)),
        decreases helpers.len() - i,
    {
        t.append(helpers[i].text.as_str());
        t.append("\n");
        proof {
            assert(hv.take(i + 1).drop_last() =~= hv.take(i as int));
            assert(hv.take(i + 1).last() == hv[i as int]);
            assert(hv[i as int] == helpers@[i as int]@);
            assert(t@ =~= import_line() + helpers_text(hv.take(i + 1)));
        }
        i += 1;
    }
    proof {
        assert(hv.take(helpers@.len() as int) =~= hv);
    }
    t
}

/// The two text artifacts of one run.
pub struct Artifacts {
    pub primary: String,
    pub secondary: String,
}

/// Splitting a tree splits the primary artifact's text.
pub proof fn lemma_primary_concat(a: Seq<ItemV>, b: Seq<ItemV>)
    ensures
        primary_text(a + b) == primary_text(a) + primary_text(b),
    decreases b.len(),
{
    if b.len() == 0 {
        assert(a + b =~= a);
        assert(primary_text(a) + primary_text(b) =~= primary_text(a));
    } else {
        lemma_primary_concat(a, b.drop_last());
        assert((a + b).drop_last() =~= a + b.drop_last());
        assert((a + b).last() == b.last());
        assert(primary_text(a) + primary_text(b.drop_last()) + item_line(b.last()) =~= primary_text(
            a,
        ) + primary_text(b));
    }
}

/// Deleting the foreign-import blocks does not change the primary
/// artifact: only the surviving items reach it.
pub proof fn lemma_primary_ignores_foreign(items: Seq<ItemV>)
    ensures
        primary_text(kept_items(items)) == primary_text(items),
    decreases items.len(),
{
    if items.len() == 0 {
    } else {
        lemma_primary_ignores_foreign(items.drop_last());
        let tail: Seq<ItemV> = if items.last() is ForeignBlock {
            Seq::empty()
        } else {
            seq![items.last()]
        };
        lemma_primary_concat(kept_items(items.drop_last()), tail);
        if !(items.last() is ForeignBlock) {
            reveal_with_fuel(primary_text, 3);
            assert(seq![items.last()].drop_last() =~= Seq::<ItemV>::empty());
            assert(primary_text(seq![items.last()]) =~= item_line(items.last()));
        }
        assert(primary_text(kept_items(items)) =~= primary_text(items));
    }
}

/// The whole rewriting pass on one declaration tree: extraction, then
/// emission of both artifacts. The primary artifact holds every item
/// that is not a foreign-import block, unchanged and in order; the
/// secondary artifact holds the import line and every synthesized
/// wrapper in call-index order.
pub fn codegen_artifacts(tree: Vec<Item>) -> (r: Result<Artifacts, ExtractError>)
    requires
        tree_extracted(items_view(tree@)).len() < usize::MAX,
    ensures
        match r {
            Ok(a) => {
                &&& !tree_fatal(items_view(tree@))
                &&& a.primary@ == primary_text(items_view(tree@))
                &&& a.secondary@ == secondary_text(helpers_of(items_view(tree@)))
            },
            Err(e) => tree_fatal(items_view(tree@)) && e == ExtractError::NotAFunctionType,
        },
{
    match extract_helpers(tree) {
        Ok(ex) => {
            let primary = emit_primary(&ex.items);
            let secondary = emit_secondary(&ex.helpers);
            proof {
                lemma_primary_ignores_foreign(items_view(tree@));
            }
            Ok(Artifacts { primary, secondary })
        },
        Err(e) => Err(e),
    }
}

} // verus!

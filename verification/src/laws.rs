//! The properties the extraction pass guarantees, stated and proved
//! over the same spec functions its contracts use.

use vstd::prelude::*;
use crate::ast::{FnSigV, ForeignDeclV, ItemV};
use crate::emit::{item_line, lemma_primary_concat, primary_text, secondary_text};
use crate::extract::{
    block_extracted, helpers_of, is_extracted, item_extracted, kept_items, tree_extracted,
};
use crate::synth::helper_at;
use crate::text::{commented, contains_fragment, wrapper_raw, wrapper_text};

verus! {

/// Call indices are 1-based, gap-free and strictly increasing: the
/// helper extracted `i`-th (in order of first appearance in the input)
/// carries call index `i + 1`.
pub proof fn lemma_call_indices(items: Seq<ItemV>)
    ensures
        forall|i: int|
            0 <= i < helpers_of(items).len() ==> (#[trigger] helpers_of(items)[i]).call_index == i
                + 1,
        forall|i: int, j: int|
            0 <= i < j < helpers_of(items).len() ==> helpers_of(items)[i].call_index < helpers_of(
                items,
            )[j].call_index,
{
}

/// Every declaration a block's extraction keeps is eligible and
/// well-shaped.
proof fn lemma_block_extracted_sound(ds: Seq<ForeignDeclV>)
    ensures
        forall|i: int|
            0 <= i < block_extracted(ds).len() ==> is_extracted(#[trigger] block_extracted(ds)[i]),
    decreases ds.len(),
{
    if ds.len() == 0 {
    } else {
        lemma_block_extracted_sound(ds.drop_last());
        let sub = block_extracted(ds.drop_last());
        assert forall|i: int|
            0 <= i < block_extracted(ds).len() implies is_extracted(
            #[trigger] block_extracted(ds)[i],
        ) by {
            if i < sub.len() {
                assert(block_extracted(ds)[i] == sub[i]);
            } else {
                if is_extracted(ds.last()) {
                    assert(block_extracted(ds)[i] == ds.last());
                } else {
                    assert(block_extracted(ds).len() == sub.len());
                }
            }
        }
    }
}

/// A block of only eligible, well-shaped declarations is kept whole.
proof fn lemma_block_extracted_complete(ds: Seq<ForeignDeclV>)
    requires
        forall|i: int| 0 <= i < ds.len() ==> is_extracted(#[trigger] ds[i]),
    ensures
        block_extracted(ds) == ds,
    decreases ds.len(),
{
    if ds.len() == 0 {
        assert(block_extracted(ds) =~= ds);
    } else {
        assert(forall|i: int|
            0 <= i < ds.drop_last().len() ==> is_extracted(#[trigger] ds.drop_last()[i]));
        lemma_block_extracted_complete(ds.drop_last());
        assert(is_extracted(ds.last()));
        assert(block_extracted(ds) =~= ds);
    }
}

/// A tree item with every non-eligible declaration already erased from
/// it.
pub open spec fn prune_item(it: ItemV) -> ItemV {
    match it {
        ItemV::ForeignBlock(ds) => ItemV::ForeignBlock(block_extracted(ds)),
        _ => it,
    }
}

/// The tree with every non-eligible declaration erased from every
/// foreign-import block.
pub open spec fn prune_tree(items: Seq<ItemV>) -> Seq<ItemV> {
    items.map_values(|it: ItemV| prune_item(it))
}

/// Non-eligible declarations inside foreign-import blocks influence
/// neither artifact: erasing them beforehand changes nothing the
/// artifacts are built from — they appear in neither the surviving
/// items, nor the helpers, nor the two texts.
pub proof fn lemma_noneligible_dropped(items: Seq<ItemV>)
    ensures
        tree_extracted(prune_tree(items)) == tree_extracted(items),
        helpers_of(prune_tree(items)) == helpers_of(items),
        kept_items(prune_tree(items)) == kept_items(items),
        primary_text(prune_tree(items)) == primary_text(items),
        secondary_text(helpers_of(prune_tree(items))) == secondary_text(helpers_of(items)),
    decreases items.len(),
{
    if items.len() == 0 {
        assert(prune_tree(items) =~= items);
    } else {
        lemma_noneligible_dropped(items.drop_last());
        assert(prune_tree(items).drop_last() =~= prune_tree(items.drop_last()));
        assert(prune_tree(items).last() == prune_item(items.last()));
        match items.last() {
            ItemV::ForeignBlock(ds) => {
                lemma_block_extracted_sound(ds);
                lemma_block_extracted_complete(block_extracted(ds));
            },
            _ => {},
        }
        assert(item_extracted(prune_item(items.last())) == item_extracted(items.last()));
        assert(item_line(prune_item(items.last())) == item_line(items.last()));
        assert(prune_item(items.last()) is ForeignBlock <==> items.last() is ForeignBlock);
        assert(tree_extracted(prune_tree(items)) =~= tree_extracted(items));
        assert(kept_items(prune_tree(items)) =~= kept_items(items));
        assert(primary_text(prune_tree(items)) =~= primary_text(items));
    }
}

/// A declaration outside any foreign-import block survives extraction
/// unchanged: it stands among the kept items.
pub proof fn lemma_plain_item_kept(items: Seq<ItemV>, i: int)
    requires
        0 <= i < items.len(),
        !(items[i] is ForeignBlock),
    ensures
        kept_items(items).contains(items[i]),
    decreases items.len(),
{
    if i == items.len() - 1 {
        assert(kept_items(items).last() == items[i]);
    } else {
        lemma_plain_item_kept(items.drop_last(), i);
        let j = choose|j: int|
            0 <= j < kept_items(items.drop_last()).len() && kept_items(items.drop_last())[j]
                == items[i];
        assert(kept_items(items)[j] == items[i]);
    }
}

/// No foreign-import block survives extraction, whether it held zero,
/// one or many eligible declarations.
pub proof fn lemma_no_foreign_survives(items: Seq<ItemV>, i: int)
    requires
        0 <= i < kept_items(items).len(),
    ensures
        !(kept_items(items)[i] is ForeignBlock),
    decreases items.len(),
{
    if items.len() == 0 {
    } else {
        if i < kept_items(items.drop_last()).len() {
            lemma_no_foreign_survives(items.drop_last(), i);
        } else {
            assert(!(items.last() is ForeignBlock));
        }
    }
}

/// A declaration outside any foreign-import block appears unchanged in
/// the primary artifact: its line stands verbatim in the artifact's
/// text, right after the lines of the items before it.
pub proof fn lemma_plain_text_in_primary(items: Seq<ItemV>, i: int)
    requires
        0 <= i < items.len(),
        items[i] is Plain,
    ensures
        ({
            let before = primary_text(items.take(i));
            primary_text(items).subrange(
                before.len() as int,
                before.len() + item_line(items[i]).len() as int,
            ) == item_line(items[i])
        }),
{
    assert(items =~= items.take(i) + (seq![items[i]] + items.skip(i + 1)));
    lemma_primary_concat(items.take(i), seq![items[i]] + items.skip(i + 1));
    lemma_primary_concat(seq![items[i]], items.skip(i + 1));
    assert(seq![items[i]].drop_last() =~= Seq::<ItemV>::empty());
    reveal_with_fuel(primary_text, 3);
    assert(primary_text(seq![items[i]]) =~= item_line(items[i]));
    let before = primary_text(items.take(i));
    let line = item_line(items[i]);
    let after = primary_text(items.skip(i + 1));
    assert(primary_text(items) == before + (line + after));
    assert((before + (line + after)).subrange(before.len() as int, before.len() + line.len() as int)
        =~= line);
}

/// Extraction is a pure function of the declaration tree: identical
/// inputs yield identical surviving items, helpers, and artifact texts.
pub proof fn lemma_deterministic(a: Seq<ItemV>, b: Seq<ItemV>)
    requires
        a == b,
    ensures
        kept_items(a) == kept_items(b),
        helpers_of(a) == helpers_of(b),
        primary_text(a) == primary_text(b),
        secondary_text(helpers_of(a)) == secondary_text(helpers_of(b)),
{
}

/// The suppression policy: a wrapper whose raw text contains the
/// suppressed-helper name fragment is marked suppressed and emitted
/// only as commented-out text; any other wrapper is emitted exactly as
/// synthesized.
pub proof fn lemma_suppression(name: Seq<char>, sig: FnSigV, idx: int)
    ensures
        helper_at(name, sig, idx).suppressed == contains_fragment(
            wrapper_raw(name, sig, idx as nat),
        ),
        helper_at(name, sig, idx).suppressed ==> helper_at(name, sig, idx).text == commented(
            wrapper_raw(name, sig, idx as nat),
        ),
        !helper_at(name, sig, idx).suppressed ==> helper_at(name, sig, idx).text == wrapper_raw(
            name,
            sig,
            idx as nat,
        ),
{
    assert(helper_at(name, sig, idx).text == wrapper_text(name, sig, idx as nat));
}

} // verus!

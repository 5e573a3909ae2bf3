//! The extraction pass over the declaration tree: foreign-import blocks
//! are deleted, and every eligible declaration inside one yields a
//! synthesized helper wrapper, numbered in discovery order.

use vstd::prelude::*;
use vstd::string::StrSliceExecFns;
use crate::ast::{
    decls_view, helpers_view, items_view, ForeignDecl, ForeignDeclV, Helper, HelperV, Item, ItemV,
    StaticTy,
};
use crate::synth::{helper_at, synthesize_wrapper};

verus! {

/// Whether a declaration's name starts with the fixed helper prefix.
pub open spec fn has_helper_prefix(name: Seq<char>) -> bool {
    name.len() >= 4 && name[0] == 'b' && name[1] == 'p' && name[2] == 'f' && name[3] == '_'
}

/// Eligible and well-shaped: the name has the helper prefix and the
/// declared type is a nullable wrapper around a function type. Such a
/// declaration yields a wrapper.
pub open spec fn is_extracted(d: ForeignDeclV) -> bool {
    has_helper_prefix(d.name) && d.ty is OptionFn
}

/// Eligible on the surface but ill-shaped: the name has the helper
/// prefix and the declared type is a nullable wrapper whose argument is
/// not a function type. Extraction aborts on such a declaration.
pub open spec fn is_fatal(d: ForeignDeclV) -> bool {
    has_helper_prefix(d.name) && d.ty is OptionNotFn
}

/// The extracted signature of a well-shaped eligible declaration.
pub open spec fn decl_sig(d: ForeignDeclV) -> crate::ast::FnSigV
    recommends
        d.ty is OptionFn,
{
    d.ty->OptionFn_0
}

/// The declarations of one foreign-import block that yield wrappers, in
/// declared order.
pub open spec fn block_extracted(ds: Seq<ForeignDeclV>) -> Seq<ForeignDeclV>
    decreases ds.len(),
{
    if ds.len() == 0 {
        Seq::empty()
    } else {
        block_extracted(ds.drop_last()) + (if is_extracted(ds.last()) {
            seq![ds.last()]
        } else {
            Seq::empty()
        })
    }
}

/// Whether one foreign-import block holds a declaration that aborts
/// extraction.
pub open spec fn block_fatal(ds: Seq<ForeignDeclV>) -> bool {
    exists|i: int| 0 <= i < ds.len() && is_fatal(ds[i])
}

/// The declarations a tree item contributes to extraction.
pub open spec fn item_extracted(it: ItemV) -> Seq<ForeignDeclV> {
    match it {
        ItemV::ForeignBlock(ds) => block_extracted(ds),
        _ => Seq::empty(),
    }
}

/// Whether a tree item aborts extraction.
pub open spec fn item_fatal(it: ItemV) -> bool {
    match it {
        ItemV::ForeignBlock(ds) => block_fatal(ds),
        _ => false,
    }
}

/// All declarations of the tree that yield wrappers, in order of first
/// appearance.
pub open spec fn tree_extracted(items: Seq<ItemV>) -> Seq<ForeignDeclV>
    decreases items.len(),
{
    if items.len() == 0 {
        Seq::empty()
    } else {
        tree_extracted(items.drop_last()) + item_extracted(items.last())
    }
}

/// Whether the tree holds a declaration that aborts extraction.
pub open spec fn tree_fatal(items: Seq<ItemV>) -> bool {
    exists|i: int| 0 <= i < items.len() && item_fatal(items[i])
}

/// The items that survive extraction: every item that is not a
/// foreign-import block, in unchanged order.
pub open spec fn kept_items(items: Seq<ItemV>) -> Seq<ItemV>
    decreases items.len(),
{
    if items.len() == 0 {
        Seq::empty()
    } else {
        kept_items(items.drop_last()) + (if items.last() is ForeignBlock {
            Seq::empty()
        } else {
            seq![items.last()]
        })
    }
}

/// The helpers synthesized for a sequence of extracted declarations:
/// the `i`-th declaration receives call index `i + 1`.
pub open spec fn helpers_seq(ds: Seq<ForeignDeclV>) -> Seq<HelperV> {
    Seq::new(ds.len(), |i: int| helper_at(ds[i].name, decl_sig(ds[i]), i + 1))
}

/// The helpers the whole tree yields, in call-index order.
pub open spec fn helpers_of(items: Seq<ItemV>) -> Seq<HelperV> {
    helpers_seq(tree_extracted(items))
}

proof fn lemma_take_push<T>(s: Seq<T>, k: int)
    requires
        0 <= k < s.len(),
    ensures
        s.take(k + 1) == s.take(k).push(s[k]),
{
    assert(s.take(k + 1) =~= s.take(k).push(s[k]));
}

proof fn lemma_tree_extracted_push(s: Seq<ItemV>, it: ItemV)
    ensures
        tree_extracted(s.push(it)) == tree_extracted(s) + item_extracted(it),
{
    assert(s.push(it).drop_last() =~= s);
}

proof fn lemma_tree_fatal_push(s: Seq<ItemV>, it: ItemV)
    ensures
        tree_fatal(s.push(it)) <==> (tree_fatal(s) || item_fatal(it)),
{
    if tree_fatal(s.push(it)) {
        let i = choose|i: int| 0 <= i < s.push(it).len() && item_fatal(s.push(it)[i]);
        if i < s.len() {
            assert(s[i] == s.push(it)[i]);
            assert(tree_fatal(s));
        } else {
            assert(item_fatal(it));
        }
    }
    if tree_fatal(s) {
        let i = choose|i: int| 0 <= i < s.len() && item_fatal(s[i]);
        assert(s.push(it)[i] == s[i]);
        assert(tree_fatal(s.push(it)));
    }
    if item_fatal(it) {
        assert(item_fatal(s.push(it)[s.len() as int]));
        assert(tree_fatal(s.push(it)));
    }
}

proof fn lemma_block_fatal_push(ds: Seq<ForeignDeclV>, d: ForeignDeclV)
    ensures
        block_fatal(ds.push(d)) <==> (block_fatal(ds) || is_fatal(d)),
{
    if block_fatal(ds.push(d)) {
        let i = choose|i: int| 0 <= i < ds.push(d).len() && is_fatal(ds.push(d)[i]);
        if i < ds.len() {
            assert(ds[i] == ds.push(d)[i]);
            assert(block_fatal(ds));
        } else {
            assert(is_fatal(d));
        }
    }
    if block_fatal(ds) {
        let i = choose|i: int| 0 <= i < ds.len() && is_fatal(ds[i]);
        assert(ds.push(d)[i] == ds[i]);
        assert(block_fatal(ds.push(d)));
    }
    if is_fatal(d) {
        assert(is_fatal(ds.push(d)[ds.len() as int]));
        assert(block_fatal(ds.push(d)));
    }
}

proof fn lemma_block_extracted_push(ds: Seq<ForeignDeclV>, d: ForeignDeclV)
    ensures
        block_extracted(ds.push(d)) == block_extracted(ds) + (if is_extracted(d) {
            seq![d]
        } else {
            Seq::empty()
        }),
{
    assert(ds.push(d).drop_last() =~= ds);
}

proof fn lemma_kept_push(items: Seq<ItemV>, it: ItemV)
    ensures
        kept_items(items.push(it)) == kept_items(items) + (if it is ForeignBlock {
            Seq::empty()
        } else {
            seq![it]
        }),
{
    assert(items.push(it).drop_last() =~= items);
}

/// Splitting a block splits its extracted declarations.
proof fn lemma_block_extracted_concat(a: Seq<ForeignDeclV>, b: Seq<ForeignDeclV>)
    ensures
        block_extracted(a + b) == block_extracted(a) + block_extracted(b),
    decreases b.len(),
{
    if b.len() == 0 {
        assert(a + b =~= a);
        assert(block_extracted(a) + block_extracted(b) =~= block_extracted(a));
    } else {
        lemma_block_extracted_concat(a, b.drop_last());
        assert((a + b).drop_last() =~= a + b.drop_last());
        assert((a + b).last() == b.last());
        assert(block_extracted(a) + block_extracted(b.drop_last()) + (if is_extracted(b.last()) {
            seq![b.last()]
        } else {
            Seq::empty()
        }) =~= block_extracted(a) + block_extracted(b));
    }
}

/// Splitting a tree splits its extracted declarations.
proof fn lemma_tree_extracted_concat(a: Seq<ItemV>, b: Seq<ItemV>)
    ensures
        tree_extracted(a + b) == tree_extracted(a) + tree_extracted(b),
    decreases b.len(),
{
    if b.len() == 0 {
        assert(a + b =~= a);
        assert(tree_extracted(a) + tree_extracted(b) =~= tree_extracted(a));
    } else {
        lemma_tree_extracted_concat(a, b.drop_last());
        assert((a + b).drop_last() =~= a + b.drop_last());
        assert((a + b).last() == b.last());
        assert(tree_extracted(a + b) == tree_extracted(a) + tree_extracted(b.drop_last())
            + item_extracted(b.last()));
        assert(tree_extracted(a) + tree_extracted(b.drop_last()) + item_extracted(b.last())
            =~= tree_extracted(a) + tree_extracted(b));
    }
}

fn has_helper_prefix_exec(name: &str) -> (r: bool)
    ensures
        r == has_helper_prefix(name@),
{
    let n = name.unicode_len();
    if n < 4 {
        return false;
    }
    name.get_char(0) == 'b' && name.get_char(1) == 'p' && name.get_char(2) == 'f'
        && name.get_char(3) == '_'
}

/// The one failure extraction itself can report: a declaration matched
/// the eligibility predicate's surface shape, but the wrapped type
/// argument is not a function type.
#[derive(Debug, PartialEq, Eq)]
pub enum ExtractError {
    NotAFunctionType,
}

/// What extraction returns: the tree with every foreign-import block
/// deleted, and the synthesized helper wrappers in call-index order.
pub struct Extraction {
    pub items: Vec<Item>,
    pub helpers: Vec<Helper>,
}

proof fn lemma_extracted_prefix_bound(orig: Seq<ItemV>, k: int, dsv: Seq<ForeignDeclV>, j: int)
    requires
        0 <= k < orig.len(),
        orig[k] == ItemV::ForeignBlock(dsv),
        0 <= j <= dsv.len(),
    ensures
        (tree_extracted(orig.take(k)) + block_extracted(dsv.take(j))).len() <= tree_extracted(
            orig,
        ).len(),
{
    assert(orig =~= orig.take(k + 1) + orig.skip(k + 1));
    lemma_tree_extracted_concat(orig.take(k + 1), orig.skip(k + 1));
    lemma_take_push(orig, k);
    lemma_tree_extracted_push(orig.take(k), orig[k]);
    assert(dsv =~= dsv.take(j) + dsv.skip(j));
    lemma_block_extracted_concat(dsv.take(j), dsv.skip(j));
    assert(tree_extracted(orig) == tree_extracted(orig.take(k)) + block_extracted(dsv.take(j))
        + block_extracted(dsv.skip(j)) + tree_extracted(orig.skip(k + 1))) by {
        assert(tree_extracted(orig.take(k)) + (block_extracted(dsv.take(j)) + block_extracted(
            dsv.skip(j),
        )) =~= tree_extracted(orig.take(k)) + block_extracted(dsv.take(j)) + block_extracted(
            dsv.skip(j),
        ));
    }
}

/// Extracts the helper wrappers from a declaration tree.
///
/// On success the returned tree holds every item that is not a
/// foreign-import block, unchanged and in order, and no foreign-import
/// block; the returned helpers are the wrappers of every eligible
/// declaration, in order of first appearance, with call indices counting
/// up from 1 without gaps. Extraction fails exactly when some
/// declaration has the helper name prefix and a nullable wrapper type
/// whose argument is not a function type.
#[verifier::loop_isolation(false)]
pub fn extract_helpers(tree: Vec<Item>) -> (r: Result<Extraction, ExtractError>)
    requires
        tree_extracted(items_view(tree@)).len() < usize::MAX,
    ensures
        match r {
            Ok(ex) => {
                &&& !tree_fatal(items_view(tree@))
                &&& items_view(ex.items@) == kept_items(items_view(tree@))
                &&& helpers_view(ex.helpers@) == helpers_of(items_view(tree@))
            },
            Err(e) => tree_fatal(items_view(tree@)) && e == ExtractError::NotAFunctionType,
        },
{
    let ghost orig: Seq<ItemV> = items_view(tree@);
    let mut rest = tree;
    let mut items: Vec<Item> = Vec::new();
    let mut helpers: Vec<Helper> = Vec::new();
    let ghost mut k: int = 0;
    while rest.len() > 0
        invariant
            0 <= k <= orig.len(),
            items_view(rest@) == orig.skip(k),
            items_view(items@) == kept_items(orig.take(k)),
            helpers_view(helpers@) == helpers_seq(tree_extracted(orig.take(k))),
            !tree_fatal(orig.take(k)),
            tree_extracted(orig).len() < usize::MAX,
        decreases rest@.len(),
    {
        proof {
            assert(items_view(rest@).len() == rest@.len());
            assert(k < orig.len()) by {
                assert(orig.skip(k).len() == orig.len() - k);
            }
        }
        let ghost rest_pre: Seq<Item> = rest@;
        let it = rest.remove(0);
        proof {
            assert(it@ == items_view(rest_pre)[0]);
            assert(items_view(rest_pre)[0] == orig.skip(k)[0]);
            assert(orig.skip(k)[0] == orig[k]);
            assert(items_view(rest@) =~= orig.skip(k + 1)) by {
                assert(rest@ =~= rest_pre.skip(1));
                assert forall|i: int| 0 <= i < rest@.len() implies items_view(rest@)[i] == orig.skip(
                    k + 1,
                )[i] by {
                    assert(items_view(rest@)[i] == rest@[i]@);
                    assert(rest@[i] == rest_pre[i + 1]);
                    assert(items_view(rest_pre)[i + 1] == rest_pre[i + 1]@);
                    assert(items_view(rest_pre)[i + 1] == orig.skip(k)[i + 1]);
                    assert(orig.skip(k)[i + 1] == orig[k + i + 1]);
                }
            }
        }
        match it {
            Item::Plain(t) => {
                let keep = Item::Plain(t);
                proof {
                    assert(keep@ == orig[k]);
                }
                items.push(keep);
                proof {
                    lemma_take_push(orig, k);
                    lemma_kept_push(orig.take(k), orig[k]);
                    lemma_tree_extracted_push(orig.take(k), orig[k]);
                    lemma_tree_fatal_push(orig.take(k), orig[k]);
                    assert(items_view(items@) =~= kept_items(orig.take(k + 1))) by {
                        assert(kept_items(orig.take(k)) + seq![orig[k]] =~= kept_items(
                            orig.take(k),
                        ).push(orig[k]));
                    }
                    assert(tree_extracted(orig.take(k + 1)) =~= tree_extracted(orig.take(k)));
                    k = k + 1;
                }
            },
            Item::ForeignBlock(ds) => {
                let mut block = ds;
                let ghost dsv: Seq<ForeignDeclV> = decls_view(block@);
                let ghost mut j: int = 0;
                proof {
                    assert(orig[k] == ItemV::ForeignBlock(dsv));
                    assert(decls_view(block@) =~= dsv.skip(0));
                    assert(block_extracted(dsv.take(0)) =~= Seq::<ForeignDeclV>::empty());
                    assert(tree_extracted(orig.take(k)) + block_extracted(dsv.take(0))
                        =~= tree_extracted(orig.take(k)));
                }
                while block.len() > 0
                    invariant
                        0 <= j <= dsv.len(),
                        decls_view(block@) == dsv.skip(j),
                        0 <= k < orig.len(),
                        orig[k] == ItemV::ForeignBlock(dsv),
                        helpers_view(helpers@) == helpers_seq(
                            tree_extracted(orig.take(k)) + block_extracted(dsv.take(j)),
                        ),
                        !block_fatal(dsv.take(j)),
                        !tree_fatal(orig.take(k)),
                        tree_extracted(orig).len() < usize::MAX,
                    decreases block@.len(),
                {
                    proof {
                        assert(decls_view(block@).len() == block@.len());
                        assert(j < dsv.len()) by {
                            assert(dsv.skip(j).len() == dsv.len() - j);
                        }
                    }
                    let ghost block_pre: Seq<ForeignDecl> = block@;
                    let d = block.remove(0);
                    proof {
                        assert(d@ == decls_view(block_pre)[0]);
                        assert(decls_view(block_pre)[0] == dsv.skip(j)[0]);
                        assert(dsv.skip(j)[0] == dsv[j]);
                        assert(decls_view(block@) =~= dsv.skip(j + 1)) by {
                            assert(block@ =~= block_pre.skip(1));
                            assert forall|i: int| 0 <= i < block@.len() implies decls_view(
                                block@,
                            )[i] == dsv.skip(j + 1)[i] by {
                                assert(decls_view(block@)[i] == block@[i]@);
                                assert(block@[i] == block_pre[i + 1]);
                                assert(decls_view(block_pre)[i + 1] == block_pre[i + 1]@);
                                assert(decls_view(block_pre)[i + 1] == dsv.skip(j)[i + 1]);
                                assert(dsv.skip(j)[i + 1] == dsv[j + i + 1]);
                            }
                        }
                    }
                    let prefixed = has_helper_prefix_exec(d.name.as_str());
                    if prefixed {
                        match d.ty {
                            StaticTy::OptionFn(sig) => {
                                proof {
                                    assert(is_extracted(dsv[j]));
                                    assert(decl_sig(dsv[j]) == sig@);
                                    lemma_extracted_prefix_bound(orig, k, dsv, j);
                                    assert(helpers_view(helpers@).len() == helpers@.len());
                                    assert(helpers_seq(
                                        tree_extracted(orig.take(k)) + block_extracted(
                                            dsv.take(j),
                                        ),
                                    ).len() == (tree_extracted(orig.take(k)) + block_extracted(
                                        dsv.take(j),
                                    )).len());
                                    assert(helpers@.len() == (tree_extracted(orig.take(k))
                                        + block_extracted(dsv.take(j))).len());
                                }
                                let idx = helpers.len() + 1;
                                let ghost dname: Seq<char> = d.name@;
                                let ghost pre: Seq<Helper> = helpers@;
                                let h = synthesize_wrapper(d.name, &sig, idx);
                                helpers.push(h);
                                proof {
                                    lemma_take_push(dsv, j);
                                    lemma_block_extracted_push(dsv.take(j), dsv[j]);
                                    lemma_block_fatal_push(dsv.take(j), dsv[j]);
                                    let e_old = tree_extracted(orig.take(k)) + block_extracted(
                                        dsv.take(j),
                                    );
                                    let e_new = tree_extracted(orig.take(k)) + block_extracted(
                                        dsv.take(j + 1),
                                    );
                                    assert(block_extracted(dsv.take(j + 1)) == block_extracted(
                                        dsv.take(j),
                                    ) + seq![dsv[j]]);
                                    assert(e_new =~= e_old.push(dsv[j]));
                                    assert(helpers@ == pre.push(h));
                                    assert(e_old.len() == pre.len());
                                    assert(dsv[j].name == dname);
                                    assert(h@ == helper_at(dname, sig@, idx as int));
                                    assert forall|i: int|
                                        0 <= i < helpers@.len() implies helpers_view(helpers@)[i]
                                        == helpers_seq(e_new)[i] by {
                                        assert(helpers_view(helpers@)[i] == helpers@[i]@);
                                        if i < pre.len() {
                                            assert(helpers@[i] == pre[i]);
                                            assert(helpers_view(pre)[i] == pre[i]@);
                                            assert(helpers_view(pre)[i] == helpers_seq(e_old)[i]);
                                            assert(e_new[i] == e_old[i]);
                                            assert(helpers_seq(e_new)[i] == helper_at(
                                                e_new[i].name,
                                                decl_sig(e_new[i]),
                                                i + 1,
                                            ));
                                            assert(helpers_seq(e_old)[i] == helper_at(
                                                e_old[i].name,
                                                decl_sig(e_old[i]),
                                                i + 1,
                                            ));
                                        } else {
                                            assert(helpers@[i] == h);
                                            assert(e_new[i] == dsv[j]);
                                            assert(helpers_seq(e_new)[i] == helper_at(
                                                dsv[j].name,
                                                decl_sig(dsv[j]),
                                                i + 1,
                                            ));
                                            assert(i + 1 == idx as int);
                                        }
                                    }
                                    assert(helpers_view(helpers@) =~= helpers_seq(e_new));
                                    j = j + 1;
                                }
                            },
                            StaticTy::OptionNotFn => {
                                proof {
                                    assert(is_fatal(dsv[j]));
                                    assert(block_fatal(dsv));
                                    assert(item_fatal(orig[k]));
                                    assert(tree_fatal(orig));
                                }
                                return Err(ExtractError::NotAFunctionType);
                            },
                            StaticTy::Other => {
                                proof {
                                    assert(!is_extracted(dsv[j]));
                                    assert(!is_fatal(dsv[j]));
                                    lemma_take_push(dsv, j);
                                    lemma_block_extracted_push(dsv.take(j), dsv[j]);
                                    lemma_block_fatal_push(dsv.take(j), dsv[j]);
                                    assert(tree_extracted(orig.take(k)) + block_extracted(
                                        dsv.take(j + 1),
                                    ) =~= tree_extracted(orig.take(k)) + block_extracted(
                                        dsv.take(j),
                                    ));
                                    j = j + 1;
                                }
                            },
                        }
                    } else {
                        proof {
                            assert(!is_extracted(dsv[j]));
                            assert(!is_fatal(dsv[j]));
                            lemma_take_push(dsv, j);
                            lemma_block_extracted_push(dsv.take(j), dsv[j]);
                            lemma_block_fatal_push(dsv.take(j), dsv[j]);
                            assert(tree_extracted(orig.take(k)) + block_extracted(dsv.take(j + 1))
                                =~= tree_extracted(orig.take(k)) + block_extracted(dsv.take(j)));
                            j = j + 1;
                        }
                    }
                }
                proof {
                    assert(j == dsv.len()) by {
                        assert(dsv.skip(j).len() == dsv.len() - j);
                        assert(decls_view(block@).len() == block@.len());
                    }
                    assert(dsv.take(j) =~= dsv);
                    lemma_take_push(orig, k);
                    lemma_kept_push(orig.take(k), orig[k]);
                    lemma_tree_extracted_push(orig.take(k), orig[k]);
                    lemma_tree_fatal_push(orig.take(k), orig[k]);
                    assert(!item_fatal(orig[k]));
                    assert(items_view(items@) =~= kept_items(orig.take(k + 1)));
                    assert(tree_extracted(orig.take(k + 1)) == tree_extracted(orig.take(k))
                        + block_extracted(dsv));
                    k = k + 1;
                }
            },
        }
    }
    proof {
        assert(k == orig.len()) by {
            assert(orig.skip(k).len() == orig.len() - k);
            assert(items_view(rest@).len() == rest@.len());
        }
        assert(orig.take(k) =~= orig);
    }
    Ok(Extraction { items, helpers })
}

} // verus!

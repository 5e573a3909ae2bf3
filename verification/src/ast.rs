//! The declaration tree that extraction works on, and the helper
//! descriptors it produces.

use vstd::prelude::*;

verus! {

/// One named parameter of a function type: the parameter's name and the
/// token text of its type.
pub struct Param {
    pub name: String,
    pub ty: String,
}

pub ghost struct ParamV {
    pub name: Seq<char>,
    pub ty: Seq<char>,
}

impl View for Param {
    type V = ParamV;

    open spec fn view(&self) -> ParamV {
        ParamV { name: self.name@, ty: self.ty@ }
    }
}

/// The function type wrapped by the nullable wrapper of a helper
/// declaration: the qualifier tokens that stand before `fn` (empty when
/// there are none), the named parameters in declared order, and the
/// return type tokens (empty when the function returns nothing).
pub struct FnSig {
    pub quals: String,
    pub params: Vec<Param>,
    pub ret: String,
}

pub ghost struct FnSigV {
    pub quals: Seq<char>,
    pub params: Seq<ParamV>,
    pub ret: Seq<char>,
}

impl View for FnSig {
    type V = FnSigV;

    open spec fn view(&self) -> FnSigV {
        FnSigV {
            quals: self.quals@,
            params: self.params@.map_values(|p: Param| p@),
            ret: self.ret@,
        }
    }
}

/// The declared type of a static declaration inside a foreign-import
/// block, as far as extraction reads it.
pub enum StaticTy {
    /// A nullable wrapper around a single function type.
    OptionFn(FnSig),
    /// A nullable wrapper whose single argument is not a function type.
    OptionNotFn,
    /// Any other type.
    Other,
}

pub ghost enum StaticTyV {
    OptionFn(FnSigV),
    OptionNotFn,
    Other,
}

impl View for StaticTy {
    type V = StaticTyV;

    open spec fn view(&self) -> StaticTyV {
        match self {
            StaticTy::OptionFn(sig) => StaticTyV::OptionFn(sig@),
            StaticTy::OptionNotFn => StaticTyV::OptionNotFn,
            StaticTy::Other => StaticTyV::Other,
        }
    }
}

/// A static declaration found inside a foreign-import block.
pub struct ForeignDecl {
    pub name: String,
    pub ty: StaticTy,
}

pub ghost struct ForeignDeclV {
    pub name: Seq<char>,
    pub ty: StaticTyV,
}

impl View for ForeignDecl {
    type V = ForeignDeclV;

    open spec fn view(&self) -> ForeignDeclV {
        ForeignDeclV { name: self.name@, ty: self.ty@ }
    }
}

/// A top-level item of the declaration tree. Order is significant.
pub enum Item {
    /// Any item that is not a foreign-import block, held as token text.
    Plain(String),
    /// A foreign-import block and the static declarations it holds.
    ForeignBlock(Vec<ForeignDecl>),
}

pub ghost enum ItemV {
    Plain(Seq<char>),
    ForeignBlock(Seq<ForeignDeclV>),
}

impl View for Item {
    type V = ItemV;

    open spec fn view(&self) -> ItemV {
        match self {
            Item::Plain(t) => ItemV::Plain(t@),
            Item::ForeignBlock(ds) => ItemV::ForeignBlock(ds@.map_values(|d: ForeignDecl| d@)),
        }
    }
}

/// A synthesized helper wrapper: the helper's name, the 1-based call
/// index assigned in discovery order, whether the wrapper was suppressed
/// (kept only as commented-out text), and the wrapper's full text.
pub struct Helper {
    pub name: String,
    pub call_index: usize,
    pub suppressed: bool,
    pub text: String,
}

pub ghost struct HelperV {
    pub name: Seq<char>,
    pub call_index: int,
    pub suppressed: bool,
    pub text: Seq<char>,
}

impl View for Helper {
    type V = HelperV;

    open spec fn view(&self) -> HelperV {
        HelperV {
            name: self.name@,
            call_index: self.call_index as int,
            suppressed: self.suppressed,
            text: self.text@,
        }
    }
}

/// The view of a sequence of tree items.
pub open spec fn items_view(v: Seq<Item>) -> Seq<ItemV> {
    v.map_values(|it: Item| it@)
}

/// The view of a sequence of foreign declarations.
pub open spec fn decls_view(v: Seq<ForeignDecl>) -> Seq<ForeignDeclV> {
    v.map_values(|d: ForeignDecl| d@)
}

/// The view of a sequence of helpers.
pub open spec fn helpers_view(v: Seq<Helper>) -> Seq<HelperV> {
    v.map_values(|h: Helper| h@)
}

} // verus!

//! The closed algebra of type constructors: `Ty`, ordered parameter
//! vectors (`Substs`), callable signatures, and substitution.
//!
//! Every `Ty` is a plain immutable value. Its mathematical image is
//! `TySpec`, the same constructors over `Seq`; contracts speak of
//! `TySpec` values through `view`.

use vstd::prelude::*;

use crate::hir::{EnumId, Mutability, Name, StructId, UncertainFloatTy, UncertainIntTy,
    GenericParam, FunctionId, EnumVariantId};

verus! {

/// A struct or enum, as the head of a nominal type.
#[derive(Clone, Copy, Debug, PartialEq, Eq, Hash, Structural)]
pub enum AdtDef {
    Struct(StructId),
    Enum(EnumId),
}

/// An item that can be called: a function, a tuple-struct constructor,
/// or a tuple-variant constructor.
#[derive(Clone, Copy, Debug, PartialEq, Eq, Hash, Structural)]
pub enum CallableDef {
    Function(FunctionId),
    Struct(StructId),
    EnumVariant(EnumVariantId),
}

/// A type constructor, fully lowered.
#[derive(Debug, PartialEq, Eq)]
pub enum Ty {
    /// The uninhabited type.
    Never,
    Bool,
    Char,
    Str,
    Int(UncertainIntTy),
    Float(UncertainFloatTy),
    Tuple(Vec<Ty>),
    Ref(Box<Ty>, Mutability),
    RawPtr(Box<Ty>, Mutability),
    /// Element type only; the length is erased.
    Array(Box<Ty>),
    Slice(Box<Ty>),
    FnPtr(FnSig),
    /// The zero-sized item type of a named callable after parameter
    /// substitution.
    FnDef { def: CallableDef, substs: Substs },
    /// Struct or enum applied to type arguments.
    Adt { def_id: AdtDef, substs: Substs },
    /// A bound generic parameter; `idx` is its position in the full
    /// parent-including list. The name is carried for diagnostics only.
    Param { idx: u32, name: Name },
    /// Error or placeholder; propagates without further diagnosis.
    Unknown,
}

/// A callable signature: the parameter types followed by the return
/// type as the last element.
#[derive(Debug, PartialEq, Eq)]
pub struct FnSig {
    pub params_and_return: Vec<Ty>,
}

/// An ordered vector of types standing for a definition's generic
/// parameters, parents' parameters first.
#[derive(Debug, PartialEq, Eq)]
pub struct Substs(pub Vec<Ty>);

/// Mathematical image of `Ty`: the same constructors over `Seq`.
pub enum TySpec {
    Never,
    Bool,
    Char,
    Str,
    Int(UncertainIntTy),
    Float(UncertainFloatTy),
    Tuple(Seq<TySpec>),
    Ref(Box<TySpec>, Mutability),
    RawPtr(Box<TySpec>, Mutability),
    Array(Box<TySpec>),
    Slice(Box<TySpec>),
    FnPtr(Seq<TySpec>),
    FnDef { def: CallableDef, substs: Seq<TySpec> },
    Adt { def_id: AdtDef, substs: Seq<TySpec> },
    Param { idx: u32, name: Name },
    Unknown,
}

/// The image of a sequence of types, elementwise.
pub open spec fn tys_view(ts: Seq<Ty>) -> Seq<TySpec>
    decreases ts, 0int,
{
    if ts.len() == 0 {
        Seq::empty()
    } else {
        tys_view(ts.drop_last()).push(ty_view(ts.last()))
    }
}

/// The image of one type.
pub open spec fn ty_view(t: Ty) -> TySpec
    decreases t, 1int,
{
    match t {
        Ty::Never => TySpec::Never,
        Ty::Bool => TySpec::Bool,
        Ty::Char => TySpec::Char,
        Ty::Str => TySpec::Str,
        Ty::Int(it) => TySpec::Int(it),
        Ty::Float(ft) => TySpec::Float(ft),
        Ty::Tuple(ts) => TySpec::Tuple(tys_view(ts@)),
        Ty::Ref(b, m) => TySpec::Ref(Box::new(ty_view(*b)), m),
        Ty::RawPtr(b, m) => TySpec::RawPtr(Box::new(ty_view(*b)), m),
        Ty::Array(b) => TySpec::Array(Box::new(ty_view(*b))),
        Ty::Slice(b) => TySpec::Slice(Box::new(ty_view(*b))),
        Ty::FnPtr(sig) => TySpec::FnPtr(tys_view(sig.params_and_return@)),
        Ty::FnDef { def, substs } => TySpec::FnDef { def, substs: tys_view(substs.0@) },
        Ty::Adt { def_id, substs } => TySpec::Adt { def_id, substs: tys_view(substs.0@) },
        Ty::Param { idx, name } => TySpec::Param { idx, name },
        Ty::Unknown => TySpec::Unknown,
    }
}

impl View for Ty {
    type V = TySpec;

    open spec fn view(&self) -> TySpec {
        ty_view(*self)
    }
}

impl View for FnSig {
    type V = Seq<TySpec>;

    open spec fn view(&self) -> Seq<TySpec> {
        tys_view(self.params_and_return@)
    }
}

impl View for Substs {
    type V = Seq<TySpec>;

    open spec fn view(&self) -> Seq<TySpec> {
        tys_view(self.0@)
    }
}

/// The image of a sequence is the sequence of images.
pub broadcast proof fn lemma_tys_view(ts: Seq<Ty>)
    ensures
        (#[trigger] tys_view(ts)).len() == ts.len(),
        forall|i: int| 0 <= i < ts.len() ==> tys_view(ts)[i] == ty_view(ts[i]),
    decreases ts,
{
    if ts.len() > 0 {
        lemma_tys_view(ts.drop_last());
        assert forall|i: int| 0 <= i < ts.len() implies tys_view(ts)[i] == ty_view(ts[i]) by {
            if i < ts.len() - 1 {
                assert(ts.drop_last()[i] == ts[i]);
            }
        }
    }
}

/// Substitution on a sequence, elementwise.
pub open spec fn spec_subst_seq(ts: Seq<TySpec>, s: Seq<TySpec>) -> Seq<TySpec>
    decreases ts, 0int,
{
    if ts.len() == 0 {
        Seq::empty()
    } else {
        spec_subst_seq(ts.drop_last(), s).push(spec_subst(ts.last(), s))
    }
}

/// Substitution: replace every `Param { idx }` by `s[idx]` and recurse
/// structurally. A `Param` whose index is out of range becomes
/// `Unknown`, the uniform error value.
pub open spec fn spec_subst(t: TySpec, s: Seq<TySpec>) -> TySpec
    decreases t, 1int,
{
    match t {
        TySpec::Never => t,
        TySpec::Bool => t,
        TySpec::Char => t,
        TySpec::Str => t,
        TySpec::Int(it) => t,
        TySpec::Float(ft) => t,
        TySpec::Tuple(ts) => TySpec::Tuple(spec_subst_seq(ts, s)),
        TySpec::Ref(b, m) => TySpec::Ref(Box::new(spec_subst(*b, s)), m),
        TySpec::RawPtr(b, m) => TySpec::RawPtr(Box::new(spec_subst(*b, s)), m),
        TySpec::Array(b) => TySpec::Array(Box::new(spec_subst(*b, s))),
        TySpec::Slice(b) => TySpec::Slice(Box::new(spec_subst(*b, s))),
        TySpec::FnPtr(ps) => TySpec::FnPtr(spec_subst_seq(ps, s)),
        TySpec::FnDef { def, substs } => TySpec::FnDef { def, substs: spec_subst_seq(substs, s) },
        TySpec::Adt { def_id, substs } => TySpec::Adt {
            def_id,
            substs: spec_subst_seq(substs, s),
        },
        TySpec::Param { idx, name } => if idx < s.len() {
            s[idx as int]
        } else {
            TySpec::Unknown
        },
        TySpec::Unknown => t,
    }
}

pub broadcast proof fn lemma_spec_subst_seq(ts: Seq<TySpec>, s: Seq<TySpec>)
    ensures
        (#[trigger] spec_subst_seq(ts, s)).len() == ts.len(),
        forall|i: int| 0 <= i < ts.len() ==> spec_subst_seq(ts, s)[i] == spec_subst(ts[i], s),
    decreases ts,
{
    if ts.len() > 0 {
        lemma_spec_subst_seq(ts.drop_last(), s);
        assert forall|i: int| 0 <= i < ts.len() implies spec_subst_seq(ts, s)[i] == spec_subst(
            ts[i],
            s,
        ) by {
            if i < ts.len() - 1 {
                assert(ts.drop_last()[i] == ts[i]);
            }
        }
    }
}

impl Ty {
    /// Structural copy.
    pub fn duplicate(&self) -> (r: Ty)
        ensures
            r@ == self@,
        decreases *self, 1int,
    {
        match self {
            Ty::Never => Ty::Never,
            Ty::Bool => Ty::Bool,
            Ty::Char => Ty::Char,
            Ty::Str => Ty::Str,
            Ty::Int(it) => Ty::Int(*it),
            Ty::Float(ft) => Ty::Float(*ft),
            Ty::Tuple(ts) => Ty::Tuple(dup_tys(ts)),
            Ty::Ref(b, m) => Ty::Ref(Box::new(b.duplicate()), *m),
            Ty::RawPtr(b, m) => Ty::RawPtr(Box::new(b.duplicate()), *m),
            Ty::Array(b) => Ty::Array(Box::new(b.duplicate())),
            Ty::Slice(b) => Ty::Slice(Box::new(b.duplicate())),
            Ty::FnPtr(sig) => Ty::FnPtr(FnSig { params_and_return: dup_tys(&sig.params_and_return) }),
            Ty::FnDef { def, substs } => Ty::FnDef { def: *def, substs: Substs(dup_tys(&substs.0)) },
            Ty::Adt { def_id, substs } => Ty::Adt {
                def_id: *def_id,
                substs: Substs(dup_tys(&substs.0)),
            },
            Ty::Param { idx, name } => Ty::Param { idx: *idx, name: *name },
            Ty::Unknown => Ty::Unknown,
        }
    }

    /// Apply a substitution, replacing every bound parameter by the
    /// type at its index.
    pub fn subst(&self, s: &Substs) -> (r: Ty)
        ensures
            r@ == spec_subst(self@, s@),
        decreases *self, 1int,
    {
        broadcast use lemma_tys_view, lemma_spec_subst_seq;

        match self {
            Ty::Never => Ty::Never,
            Ty::Bool => Ty::Bool,
            Ty::Char => Ty::Char,
            Ty::Str => Ty::Str,
            Ty::Int(it) => Ty::Int(*it),
            Ty::Float(ft) => Ty::Float(*ft),
            Ty::Tuple(ts) => Ty::Tuple(subst_tys(ts, s)),
            Ty::Ref(b, m) => Ty::Ref(Box::new(b.subst(s)), *m),
            Ty::RawPtr(b, m) => Ty::RawPtr(Box::new(b.subst(s)), *m),
            Ty::Array(b) => Ty::Array(Box::new(b.subst(s))),
            Ty::Slice(b) => Ty::Slice(Box::new(b.subst(s))),
            Ty::FnPtr(sig) => Ty::FnPtr(FnSig { params_and_return: subst_tys(&sig.params_and_return, s) }),
            Ty::FnDef { def, substs } => Ty::FnDef {
                def: *def,
                substs: Substs(subst_tys(&substs.0, s)),
            },
            Ty::Adt { def_id, substs } => Ty::Adt {
                def_id: *def_id,
                substs: Substs(subst_tys(&substs.0, s)),
            },
            Ty::Param { idx, name } => {
                if (*idx as usize) < s.0.len() {
                    let r = s.0[*idx as usize].duplicate();
                    proof {
                        assert(tys_view(s.0@)[*idx as int] == ty_view(s.0@[*idx as int]));
                    }
                    r
                } else {
                    proof {
                        assert(tys_view(s.0@).len() == s.0@.len());
                    }
                    Ty::Unknown
                }
            }
            Ty::Unknown => Ty::Unknown,
        }
    }
}

/// Structural copy of a vector of types.
fn dup_tys(ts: &Vec<Ty>) -> (r: Vec<Ty>)
    ensures
        r@.len() == ts@.len(),
        forall|i: int| 0 <= i < ts@.len() ==> (#[trigger] r@[i])@ == ts@[i]@,
        tys_view(r@) == tys_view(ts@),
    decreases *ts, 0int,
{
    broadcast use lemma_tys_view;

    let mut out: Vec<Ty> = Vec::new();
    let mut i: usize = 0;
    while i < ts.len()
        invariant
            i <= ts@.len(),
            out@.len() == i as int,
            forall|j: int| 0 <= j < i ==> (#[trigger] out@[j])@ == ts@[j]@,
        decreases ts@.len() - i,
    {
        proof {
            assert(decreases_to!(*ts => ts@));
            assert(decreases_to!(ts@ => ts@[i as int]));
        }
        let t = &ts[i];
        out.push(t.duplicate());
        i = i + 1;
    }
    proof {
        lemma_tys_view(out@);
        lemma_tys_view(ts@);
        assert(tys_view(out@) =~= tys_view(ts@));
    }
    out
}

/// Apply a substitution to every element of a vector of types.
fn subst_tys(ts: &Vec<Ty>, s: &Substs) -> (r: Vec<Ty>)
    ensures
        r@.len() == ts@.len(),
        forall|i: int| 0 <= i < ts@.len() ==> (#[trigger] r@[i])@ == spec_subst(ts@[i]@, s@),
        tys_view(r@) == spec_subst_seq(tys_view(ts@), s@),
    decreases *ts, 0int,
{
    broadcast use lemma_tys_view, lemma_spec_subst_seq;

    let mut out: Vec<Ty> = Vec::new();
    let mut i: usize = 0;
    while i < ts.len()
        invariant
            i <= ts@.len(),
            out@.len() == i as int,
            forall|j: int| 0 <= j < i ==> (#[trigger] out@[j])@ == spec_subst(ts@[j]@, s@),
        decreases ts@.len() - i,
    {
        proof {
            assert(decreases_to!(*ts => ts@));
            assert(decreases_to!(ts@ => ts@[i as int]));
        }
        let t = &ts[i];
        out.push(t.subst(s));
        i = i + 1;
    }
    proof {
        lemma_tys_view(out@);
        lemma_tys_view(ts@);
        lemma_spec_subst_seq(tys_view(ts@), s@);
        assert(tys_view(out@) =~= spec_subst_seq(tys_view(ts@), s@));
    }
    out
}

/// `Unknown` is a fixpoint of substitution, and a bound parameter in
/// range is replaced by exactly the type at its index.
pub proof fn lemma_subst_unknown_and_param(s: Seq<TySpec>, idx: u32, name: Name)
    ensures
        spec_subst(TySpec::Unknown, s) == TySpec::Unknown,
        idx < s.len() ==> spec_subst(TySpec::Param { idx, name }, s) == s[idx as int],
{
}

/// A substitution is the identity for `t` when every parameter that
/// occurs in `t` is mapped to itself, name included.
pub open spec fn identity_for_seq(ts: Seq<TySpec>, s: Seq<TySpec>) -> bool
    decreases ts, 0int,
{
    if ts.len() == 0 {
        true
    } else {
        identity_for_seq(ts.drop_last(), s) && identity_for(ts.last(), s)
    }
}

pub open spec fn identity_for(t: TySpec, s: Seq<TySpec>) -> bool
    decreases t, 1int,
{
    match t {
        TySpec::Tuple(ts) => identity_for_seq(ts, s),
        TySpec::Ref(b, m) => identity_for(*b, s),
        TySpec::RawPtr(b, m) => identity_for(*b, s),
        TySpec::Array(b) => identity_for(*b, s),
        TySpec::Slice(b) => identity_for(*b, s),
        TySpec::FnPtr(ps) => identity_for_seq(ps, s),
        TySpec::FnDef { def, substs } => identity_for_seq(substs, s),
        TySpec::Adt { def_id, substs } => identity_for_seq(substs, s),
        TySpec::Param { idx, name } => idx < s.len() && s[idx as int] == TySpec::Param {
            idx,
            name,
        },
        _ => true,
    }
}

pub proof fn lemma_subst_identity_seq(ts: Seq<TySpec>, s: Seq<TySpec>)
    requires
        identity_for_seq(ts, s),
    ensures
        spec_subst_seq(ts, s) == ts,
    decreases ts, 0int,
{
    if ts.len() > 0 {
        lemma_subst_identity_seq(ts.drop_last(), s);
        lemma_subst_identity(ts.last(), s);
        assert(spec_subst_seq(ts, s) =~= ts);
    } else {
        assert(spec_subst_seq(ts, s) =~= ts);
    }
}

/// Substituting a substitution that is the identity for `t` into `t`
/// yields `t` unchanged.
pub proof fn lemma_subst_identity(t: TySpec, s: Seq<TySpec>)
    requires
        identity_for(t, s),
    ensures
        spec_subst(t, s) == t,
    decreases t, 1int,
{
    match t {
        TySpec::Tuple(ts) => {
            lemma_subst_identity_seq(ts, s);
        }
        TySpec::Ref(b, m) => {
            lemma_subst_identity(*b, s);
            assert(spec_subst(t, s) == TySpec::Ref(Box::new(spec_subst(*b, s)), m));
        }
        TySpec::RawPtr(b, m) => {
            lemma_subst_identity(*b, s);
        }
        TySpec::Array(b) => {
            lemma_subst_identity(*b, s);
        }
        TySpec::Slice(b) => {
            lemma_subst_identity(*b, s);
        }
        TySpec::FnPtr(ps) => {
            lemma_subst_identity_seq(ps, s);
        }
        TySpec::FnDef { def, substs } => {
            lemma_subst_identity_seq(substs, s);
        }
        TySpec::Adt { def_id, substs } => {
            lemma_subst_identity_seq(substs, s);
        }
        _ => {}
    }
}

impl FnSig {
    /// Assemble a signature from its parameter types and return type.
    pub fn from_params_and_return(params: Vec<Ty>, ret: Ty) -> (r: FnSig)
        ensures
            r@ == tys_view(params@).push(ret@),
    {
        broadcast use lemma_tys_view;

        let ghost orig = params@;
        let mut params_and_return = params;
        params_and_return.push(ret);
        proof {
            lemma_tys_view(params_and_return@);
            lemma_tys_view(orig);
            assert(tys_view(params_and_return@) =~= tys_view(orig).push(ret@));
        }
        FnSig { params_and_return }
    }
}

impl Substs {
    pub fn len(&self) -> (r: usize)
        ensures
            r == self@.len(),
    {
        proof {
            lemma_tys_view(self.0@);
        }
        self.0.len()
    }
}

} // verus!

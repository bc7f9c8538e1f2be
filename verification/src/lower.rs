//! Lowering of HIR type references and paths to `Ty`, and the declared
//! type of an item per namespace.
//!
//! The lowering is total: unresolved paths, wrong-namespace lookups and
//! error type references all become `Ty::Unknown`. Indirections through
//! a stored type reference (a type alias body, an impl's self type) are
//! bounded by a fuel that the snapshot's size makes large enough for
//! every acyclic chain; an exhausted budget also yields `Unknown`.

use vstd::prelude::*;

use crate::hir::{lemma_args_size_elem, lemma_segs_size_elem, lemma_trs_size_elem, arg_size,
    args_size, path_size, seg_size, tr_size, trs_size, ConstId, EnumId, EnumVariantId,
    FunctionId, GenericArg, GenericArgs, GenericParam, GenericParams, HirDatabase,
    Name, Namespace, Path, PathSegment, Resolution, StaticId, StructField, StructId, TypeAliasId,
    TypeRef, UncertainFloatTy, UncertainIntTy, VariantData, VariantDef, NAME_BOOL, NAME_CHAR,
    NAME_STR};
use crate::ty::{lemma_tys_view, lemma_spec_subst_seq, spec_subst, spec_subst_seq, tys_view,
    AdtDef, CallableDef, FnSig, Substs, Ty, TySpec};

verus! {

/// An item that has a type in at least one namespace.
#[derive(Clone, Copy, Debug, PartialEq, Eq, Hash, Structural)]
pub enum TypableDef {
    Function(FunctionId),
    Struct(StructId),
    Enum(EnumId),
    EnumVariant(EnumVariantId),
    TypeAlias(TypeAliasId),
    Const(ConstId),
    Static(StaticId),
}

/// The total mapping from module-level definitions to typable ones:
/// modules and traits have no type and drop to `None`.
pub open spec fn spec_typable_from_module_def(d: crate::hir::ModuleDef) -> Option<TypableDef> {
    match d {
        crate::hir::ModuleDef::Function(f) => Some(TypableDef::Function(f)),
        crate::hir::ModuleDef::Struct(s) => Some(TypableDef::Struct(s)),
        crate::hir::ModuleDef::Enum(e) => Some(TypableDef::Enum(e)),
        crate::hir::ModuleDef::EnumVariant(v) => Some(TypableDef::EnumVariant(v)),
        crate::hir::ModuleDef::TypeAlias(t) => Some(TypableDef::TypeAlias(t)),
        crate::hir::ModuleDef::Const(c) => Some(TypableDef::Const(c)),
        crate::hir::ModuleDef::Static(s) => Some(TypableDef::Static(s)),
        crate::hir::ModuleDef::Module(m) => None,
        crate::hir::ModuleDef::Trait(t) => None,
    }
}

pub fn typable_from_module_def(d: crate::hir::ModuleDef) -> (r: Option<TypableDef>)
    ensures
        r == spec_typable_from_module_def(d),
{
    match d {
        crate::hir::ModuleDef::Function(f) => Some(TypableDef::Function(f)),
        crate::hir::ModuleDef::Struct(s) => Some(TypableDef::Struct(s)),
        crate::hir::ModuleDef::Enum(e) => Some(TypableDef::Enum(e)),
        crate::hir::ModuleDef::EnumVariant(v) => Some(TypableDef::EnumVariant(v)),
        crate::hir::ModuleDef::TypeAlias(t) => Some(TypableDef::TypeAlias(t)),
        crate::hir::ModuleDef::Const(c) => Some(TypableDef::Const(c)),
        crate::hir::ModuleDef::Static(s) => Some(TypableDef::Static(s)),
        crate::hir::ModuleDef::Module(m) => None,
        crate::hir::ModuleDef::Trait(t) => None,
    }
}

/// The ids a typable definition carries all point into the snapshot.
pub open spec fn wf_typable(db: HirDatabase, d: TypableDef) -> bool {
    match d {
        TypableDef::Function(f) => f.0 < db.functions@.len(),
        TypableDef::Struct(s) => s.0 < db.structs@.len(),
        TypableDef::Enum(e) => e.0 < db.enums@.len(),
        TypableDef::EnumVariant(v) => v.0 < db.enum_variants@.len(),
        TypableDef::TypeAlias(t) => t.0 < db.type_aliases@.len(),
        TypableDef::Const(c) => c.0 < db.consts@.len(),
        TypableDef::Static(s) => s.0 < db.statics@.len(),
    }
}

/// Parameters contributed by the definition's ancestors. A variant
/// draws its parameters from the parent enum; consts and statics have
/// none at all.
pub open spec fn spec_def_parent_count(db: HirDatabase, d: TypableDef) -> nat {
    match d {
        TypableDef::Function(f) => db.functions@[f.0 as int].generics.spec_count_parent(),
        TypableDef::Struct(s) => db.structs@[s.0 as int].generics.spec_count_parent(),
        TypableDef::Enum(e) => db.enums@[e.0 as int].generics.spec_count_parent(),
        TypableDef::EnumVariant(v) => db.enums@[db.enum_variants@[v.0 as int].parent_enum as int]
            .generics.spec_count_parent(),
        TypableDef::TypeAlias(t) => db.type_aliases@[t.0 as int].generics.spec_count_parent(),
        TypableDef::Const(c) => 0,
        TypableDef::Static(s) => 0,
    }
}

/// Parameters declared at the definition's own level.
pub open spec fn spec_def_own_count(db: HirDatabase, d: TypableDef) -> nat {
    match d {
        TypableDef::Function(f) => db.functions@[f.0 as int].generics.params@.len(),
        TypableDef::Struct(s) => db.structs@[s.0 as int].generics.params@.len(),
        TypableDef::Enum(e) => db.enums@[e.0 as int].generics.params@.len(),
        TypableDef::EnumVariant(v) => db.enums@[db.enum_variants@[v.0 as int].parent_enum as int]
            .generics.params@.len(),
        TypableDef::TypeAlias(t) => db.type_aliases@[t.0 as int].generics.params@.len(),
        TypableDef::Const(c) => 0,
        TypableDef::Static(s) => 0,
    }
}

/// Identity substitution of a parameter list: position `i` becomes
/// `Param` with the list's `idx` and name at `i`.
pub open spec fn spec_make_substs(ps: Seq<GenericParam>) -> Seq<TySpec> {
    Seq::new(ps.len(), |i: int| TySpec::Param { idx: ps[i].idx, name: ps[i].name })
}

/// Which segment of a path carries the generic arguments: the last,
/// except for an enum variant, where an argument list on the enum's
/// own (penultimate) segment is preferred.
pub open spec fn spec_pick_segment(p: Path, resolved: TypableDef) -> PathSegment {
    let n = p.segments@.len();
    match resolved {
        TypableDef::EnumVariant(v) => if n >= 2 && p.segments@[n - 2].args_and_bindings is Some {
            p.segments@[n - 2]
        } else {
            p.segments@[n - 1]
        },
        _ => p.segments@[n - 1],
    }
}

/// Lower a structural type reference. See the constructor table of the
/// type algebra: each syntactic form maps to its constructor, error and
/// placeholder forms to `Unknown`.
pub open spec fn spec_from_hir(db: HirDatabase, rid: usize, tr: TypeRef, fuel: nat) -> TySpec
    decreases fuel, 1int, tr, 0int,
    via spec_from_hir_dec
{
    match tr {
        TypeRef::Never => TySpec::Never,
        TypeRef::Placeholder => TySpec::Unknown,
        TypeRef::Error => TySpec::Unknown,
        TypeRef::Tuple(ts) => TySpec::Tuple(spec_lower_trs(db, rid, ts@, fuel)),
        TypeRef::Path(p) => spec_from_hir_path(db, rid, p, fuel),
        TypeRef::RawPtr(b, m) => TySpec::RawPtr(Box::new(spec_from_hir(db, rid, *b, fuel)), m),
        TypeRef::Array(b) => TySpec::Array(Box::new(spec_from_hir(db, rid, *b, fuel))),
        TypeRef::Slice(b) => TySpec::Slice(Box::new(spec_from_hir(db, rid, *b, fuel))),
        TypeRef::Reference(b, m) => TySpec::Ref(Box::new(spec_from_hir(db, rid, *b, fuel)), m),
        TypeRef::Fn(ts) => TySpec::FnPtr(spec_lower_trs(db, rid, ts@, fuel)),
    }
}

#[via_fn]
proof fn spec_from_hir_dec(db: HirDatabase, rid: usize, tr: TypeRef, fuel: nat) {
    match tr {
        TypeRef::Tuple(ts) => {
            assert(decreases_to!(tr => ts));
            assert(decreases_to!(ts => ts@));
        }
        TypeRef::Fn(ts) => {
            assert(decreases_to!(tr => ts));
            assert(decreases_to!(ts => ts@));
        }
        _ => {}
    }
}

/// Lower a sequence of type references, elementwise.
pub open spec fn spec_lower_trs(db: HirDatabase, rid: usize, trs: Seq<TypeRef>, fuel: nat) -> Seq<
    TySpec,
>
    decreases fuel, 1int, trs, 1int,
{
    if trs.len() == 0 {
        Seq::empty()
    } else {
        spec_lower_trs(db, rid, trs.drop_last(), fuel).push(
            spec_from_hir(db, rid, trs.last(), fuel),
        )
    }
}

/// Lower the type arguments of a path segment, elementwise.
pub open spec fn spec_lower_args(db: HirDatabase, rid: usize, args: Seq<GenericArg>, fuel: nat) -> Seq<
    TySpec,
>
    decreases fuel, 1int, args, 1int,
    via spec_lower_args_dec
{
    if args.len() == 0 {
        Seq::empty()
    } else {
        spec_lower_args(db, rid, args.drop_last(), fuel).push(
            match args.last() {
                GenericArg::Type(tr) => spec_from_hir(db, rid, tr, fuel),
            },
        )
    }
}

#[via_fn]
proof fn spec_lower_args_dec(db: HirDatabase, rid: usize, args: Seq<GenericArg>, fuel: nat) {
    if args.len() > 0 {
        match args.last() {
            GenericArg::Type(tr) => {
                assert(decreases_to!(args => args.last()));
                assert(decreases_to!(args.last() => tr));
            }
        }
    }
}

/// The substitution that a use-site segment supplies for a definition:
/// leading `Unknown`s for the parent parameters, then at most as many
/// lowered arguments as the definition declares, padded with `Unknown`
/// up to the full parent-including count.
pub open spec fn spec_substs_from_segment(
    db: HirDatabase,
    rid: usize,
    seg: PathSegment,
    resolved: TypableDef,
    fuel: nat,
) -> Seq<TySpec>
    decreases fuel, 1int, seg, 0int,
    via spec_substs_from_segment_dec
{
    let parent_count = spec_def_parent_count(db, resolved);
    let own_count = spec_def_own_count(db, resolved);
    let total = parent_count + own_count;
    let lowered = match seg.args_and_bindings {
        Option::None => Seq::<TySpec>::empty(),
        Option::Some(ga) => {
            let k = if ga.args@.len() <= own_count {
                ga.args@.len() as int
            } else {
                own_count as int
            };
            spec_lower_args(db, rid, ga.args@.take(k), fuel)
        }
    };
    let supplied = Seq::new(parent_count, |i: int| TySpec::Unknown) + lowered;
    let pad = if supplied.len() <= total {
        total - supplied.len()
    } else {
        0
    };
    supplied + Seq::new(pad as nat, |i: int| TySpec::Unknown)
}

#[via_fn]
proof fn spec_substs_from_segment_dec(
    db: HirDatabase,
    rid: usize,
    seg: PathSegment,
    resolved: TypableDef,
    fuel: nat,
) {
    match seg.args_and_bindings {
        Option::None => {}
        Option::Some(ga) => {
            let own_count = spec_def_own_count(db, resolved);
            let k = if ga.args@.len() <= own_count {
                ga.args@.len() as int
            } else {
                own_count as int
            };
            assert(decreases_to!(seg => ga));
            assert(decreases_to!(ga => ga.args));
            assert(decreases_to!(ga.args => ga.args@));
            if k < ga.args@.len() {
                assert(decreases_to!(ga.args@ => ga.args@.take(k)));
            } else {
                assert(ga.args@.take(k) =~= ga.args@);
            }
        }
    }
}

/// Generic arguments collected from a whole path: the chosen segment's.
pub open spec fn spec_substs_from_path(
    db: HirDatabase,
    rid: usize,
    p: Path,
    resolved: TypableDef,
    fuel: nat,
) -> Seq<TySpec> {
    spec_substs_from_segment(db, rid, spec_pick_segment(p, resolved), resolved, fuel)
}

/// Lower a path in the type namespace.
///
/// A single-segment path is first tried against the primitive names.
/// Otherwise the path is resolved: a generic parameter becomes `Param`,
/// `Self` becomes the impl block's target type, a definition's declared
/// type receives the path's generic arguments, and everything else is
/// `Unknown`.
pub open spec fn spec_from_hir_path(db: HirDatabase, rid: usize, p: Path, fuel: nat) -> TySpec
    decreases fuel, 1int, p, 0int,
    via spec_from_hir_path_dec
{
    if p.segments@.len() == 0 {
        TySpec::Unknown
    } else if p.segments@.len() == 1 && UncertainIntTy::spec_from_name(p.segments@[0].name)
        is Some {
        TySpec::Int(UncertainIntTy::spec_from_name(p.segments@[0].name)->Some_0)
    } else if p.segments@.len() == 1 && UncertainFloatTy::spec_from_name(p.segments@[0].name)
        is Some {
        TySpec::Float(UncertainFloatTy::spec_from_name(p.segments@[0].name)->Some_0)
    } else if p.segments@.len() == 1 && p.segments@[0].name.0 == NAME_BOOL {
        TySpec::Bool
    } else if p.segments@.len() == 1 && p.segments@[0].name.0 == NAME_CHAR {
        TySpec::Char
    } else if p.segments@.len() == 1 && p.segments@[0].name.0 == NAME_STR {
        TySpec::Str
    } else {
        let resolution = match db.spec_resolve_path(rid, p) {
            Option::None => Option::<Resolution>::None,
            Option::Some(per_ns) => per_ns.types,
        };
        match resolution {
            Option::None => TySpec::Unknown,
            Option::Some(Resolution::LocalBinding(b)) => TySpec::Unknown,
            Option::Some(Resolution::GenericParam(idx)) => TySpec::Param {
                idx,
                name: p.segments@[0].name,
            },
            Option::Some(Resolution::SelfType(im)) => if fuel == 0 {
                TySpec::Unknown
            } else {
                spec_from_hir(
                    db,
                    db.impls@[im as int].resolver,
                    db.impls@[im as int].target_type_ref,
                    (fuel - 1) as nat,
                )
            },
            Option::Some(Resolution::Def(d)) => match spec_typable_from_module_def(d) {
                Option::None => TySpec::Unknown,
                Option::Some(typable) => {
                    let ty = spec_type_for_def(db, typable, Namespace::Types, fuel);
                    let substs = spec_substs_from_segment(
                        db,
                        rid,
                        spec_pick_segment(p, typable),
                        typable,
                        fuel,
                    );
                    spec_subst(ty, substs)
                },
            },
        }
    }
}

#[via_fn]
proof fn spec_from_hir_path_dec(db: HirDatabase, rid: usize, p: Path, fuel: nat) {
    let n = p.segments@.len();
    assert(decreases_to!(p => p.segments));
    assert(decreases_to!(p.segments => p.segments@));
    if n >= 1 {
        assert(decreases_to!(p.segments@ => p.segments@[n - 1]));
        if n >= 2 {
            assert(decreases_to!(p.segments@ => p.segments@[n - 2]));
        }
        assert forall|t: TypableDef| #![trigger spec_pick_segment(p, t)]
            decreases_to!(p => spec_pick_segment(p, t)) by {
            let seg = spec_pick_segment(p, t);
            assert(seg == p.segments@[n - 1] || (n >= 2 && seg == p.segments@[n - 2]));
        }
    }
}

/// The declared type of an item in a namespace. Wrong-namespace pairs
/// are `Unknown`: a function has no type-namespace type, an enum and a
/// type alias no value, a variant no type of its own, and consts and
/// statics live in the value namespace only.
pub open spec fn spec_type_for_def(
    db: HirDatabase,
    d: TypableDef,
    ns: Namespace,
    fuel: nat,
) -> TySpec
    decreases fuel, 0int, d, 0int,
{
    match d {
        TypableDef::Function(f) => match ns {
            Namespace::Values => spec_type_for_fn(db, f),
            Namespace::Types => TySpec::Unknown,
        },
        TypableDef::Struct(s) => match ns {
            Namespace::Types => spec_type_for_struct(db, s),
            Namespace::Values => spec_type_for_struct_constructor(db, s),
        },
        TypableDef::Enum(e) => match ns {
            Namespace::Types => spec_type_for_enum(db, e),
            Namespace::Values => TySpec::Unknown,
        },
        TypableDef::EnumVariant(v) => match ns {
            Namespace::Values => spec_type_for_enum_variant_constructor(db, v),
            Namespace::Types => TySpec::Unknown,
        },
        TypableDef::TypeAlias(t) => match ns {
            Namespace::Types => if fuel == 0 {
                TySpec::Unknown
            } else {
                let data = db.type_aliases@[t.0 as int];
                spec_subst(
                    spec_from_hir(db, data.resolver, data.type_ref, (fuel - 1) as nat),
                    spec_make_substs(data.generics.spec_params_including()),
                )
            },
            Namespace::Values => TySpec::Unknown,
        },
        TypableDef::Const(c) => match ns {
            Namespace::Values => if fuel == 0 {
                TySpec::Unknown
            } else {
                let data = db.consts@[c.0 as int];
                spec_from_hir(db, data.resolver, data.type_ref, (fuel - 1) as nat)
            },
            Namespace::Types => TySpec::Unknown,
        },
        TypableDef::Static(s) => match ns {
            Namespace::Values => if fuel == 0 {
                TySpec::Unknown
            } else {
                let data = db.statics@[s.0 as int];
                spec_from_hir(db, data.resolver, data.type_ref, (fuel - 1) as nat)
            },
            Namespace::Types => TySpec::Unknown,
        },
    }
}

/// The value-namespace type of a function: its zero-sized item type
/// with the identity substitution.
pub open spec fn spec_type_for_fn(db: HirDatabase, f: FunctionId) -> TySpec {
    TySpec::FnDef {
        def: CallableDef::Function(f),
        substs: spec_make_substs(db.functions@[f.0 as int].generics.spec_params_including()),
    }
}

/// The type of a struct applied to its own parameters.
pub open spec fn spec_type_for_struct(db: HirDatabase, s: StructId) -> TySpec {
    TySpec::Adt {
        def_id: AdtDef::Struct(s),
        substs: spec_make_substs(db.structs@[s.0 as int].generics.spec_params_including()),
    }
}

/// The type of an enum applied to its own parameters.
pub open spec fn spec_type_for_enum(db: HirDatabase, e: EnumId) -> TySpec {
    TySpec::Adt {
        def_id: AdtDef::Enum(e),
        substs: spec_make_substs(db.enums@[e.0 as int].generics.spec_params_including()),
    }
}

/// The value-namespace type of a struct name: a constructor function
/// for a tuple struct, the struct type itself otherwise.
pub open spec fn spec_type_for_struct_constructor(db: HirDatabase, s: StructId) -> TySpec {
    match db.structs@[s.0 as int].variant_data {
        VariantData::Tuple(fields) => TySpec::FnDef {
            def: CallableDef::Struct(s),
            substs: spec_make_substs(db.structs@[s.0 as int].generics.spec_params_including()),
        },
        _ => spec_type_for_struct(db, s),
    }
}

/// The value-namespace type of a variant name: a constructor function
/// for a tuple variant, the parent enum's type otherwise. Parameters
/// are always the parent enum's.
pub open spec fn spec_type_for_enum_variant_constructor(db: HirDatabase, v: EnumVariantId) -> TySpec {
    let parent = db.enum_variants@[v.0 as int].parent_enum;
    match db.enum_variants@[v.0 as int].variant_data {
        VariantData::Tuple(fields) => TySpec::FnDef {
            def: CallableDef::EnumVariant(v),
            substs: spec_make_substs(db.enums@[parent as int].generics.spec_params_including()),
        },
        _ => spec_type_for_enum(db, EnumId(parent)),
    }
}

/// Lowering a sequence goes elementwise.
pub broadcast proof fn lemma_spec_lower_trs(db: HirDatabase, rid: usize, trs: Seq<TypeRef>, fuel: nat)
    ensures
        (#[trigger] spec_lower_trs(db, rid, trs, fuel)).len() == trs.len(),
        forall|i: int|
            0 <= i < trs.len() ==> spec_lower_trs(db, rid, trs, fuel)[i] == spec_from_hir(
                db,
                rid,
                trs[i],
                fuel,
            ),
    decreases trs,
{
    if trs.len() > 0 {
        lemma_spec_lower_trs(db, rid, trs.drop_last(), fuel);
        assert forall|i: int| 0 <= i < trs.len() implies spec_lower_trs(db, rid, trs, fuel)[i]
            == spec_from_hir(db, rid, trs[i], fuel) by {
            if i < trs.len() - 1 {
                assert(trs.drop_last()[i] == trs[i]);
            }
        }
    }
}

/// Lowering a segment's arguments goes elementwise.
pub broadcast proof fn lemma_spec_lower_args(
    db: HirDatabase,
    rid: usize,
    args: Seq<GenericArg>,
    fuel: nat,
)
    ensures
        (#[trigger] spec_lower_args(db, rid, args, fuel)).len() == args.len(),
        forall|i: int|
            0 <= i < args.len() ==> spec_lower_args(db, rid, args, fuel)[i] == (match args[i] {
                GenericArg::Type(tr) => spec_from_hir(db, rid, tr, fuel),
            }),
    decreases args,
{
    if args.len() > 0 {
        lemma_spec_lower_args(db, rid, args.drop_last(), fuel);
        assert forall|i: int| 0 <= i < args.len() implies spec_lower_args(db, rid, args, fuel)[i]
            == (match args[i] {
            GenericArg::Type(tr) => spec_from_hir(db, rid, tr, fuel),
        }) by {
            if i < args.len() - 1 {
                assert(args.drop_last()[i] == args[i]);
            }
        }
    }
}

fn from_hir_rec(db: &HirDatabase, rid: usize, tr: &TypeRef, fuel: usize) -> (r: Ty)
    requires
        db.wf(),
        db.resolver_in_range(rid),
    ensures
        r@ == spec_from_hir(*db, rid, *tr, fuel as nat),
    decreases fuel, 1int, tr_size(*tr),
{
    match tr {
        TypeRef::Never => Ty::Never,
        TypeRef::Placeholder => Ty::Unknown,
        TypeRef::Error => Ty::Unknown,
        TypeRef::Tuple(ts) => Ty::Tuple(lower_trs_rec(db, rid, ts, fuel)),
        TypeRef::Path(p) => from_hir_path_rec(db, rid, p, fuel),
        TypeRef::RawPtr(b, m) => Ty::RawPtr(Box::new(from_hir_rec(db, rid, b, fuel)), *m),
        TypeRef::Array(b) => Ty::Array(Box::new(from_hir_rec(db, rid, b, fuel))),
        TypeRef::Slice(b) => Ty::Slice(Box::new(from_hir_rec(db, rid, b, fuel))),
        TypeRef::Reference(b, m) => Ty::Ref(Box::new(from_hir_rec(db, rid, b, fuel)), *m),
        TypeRef::Fn(ts) => Ty::FnPtr(FnSig { params_and_return: lower_trs_rec(db, rid, ts, fuel) }),
    }
}

fn lower_trs_rec(db: &HirDatabase, rid: usize, trs: &Vec<TypeRef>, fuel: usize) -> (r: Vec<Ty>)
    requires
        db.wf(),
        db.resolver_in_range(rid),
    ensures
        r@.len() == trs@.len(),
        forall|i: int|
            0 <= i < trs@.len() ==> (#[trigger] r@[i])@ == spec_from_hir(
                *db,
                rid,
                trs@[i],
                fuel as nat,
            ),
        tys_view(r@) == spec_lower_trs(*db, rid, trs@, fuel as nat),
    decreases fuel, 1int, trs_size(trs@),
{
    broadcast use lemma_tys_view, lemma_spec_lower_trs;

    let mut out: Vec<Ty> = Vec::new();
    let mut i: usize = 0;
    while i < trs.len()
        invariant
            db.wf(),
            db.resolver_in_range(rid),
            i <= trs@.len(),
            out@.len() == i as int,
            forall|j: int|
                0 <= j < i ==> (#[trigger] out@[j])@ == spec_from_hir(
                    *db,
                    rid,
                    trs@[j],
                    fuel as nat,
                ),
        decreases trs@.len() - i,
    {
        proof {
            lemma_trs_size_elem(trs@, i as int);
        }
        let t = &trs[i];
        out.push(from_hir_rec(db, rid, t, fuel));
        i = i + 1;
    }
    proof {
        lemma_tys_view(out@);
        lemma_spec_lower_trs(*db, rid, trs@, fuel as nat);
        assert(tys_view(out@) =~= spec_lower_trs(*db, rid, trs@, fuel as nat));
    }
    out
}

/// The segment of a path that carries its generic arguments.
fn pick_segment<'a>(p: &'a Path, resolved: TypableDef) -> (r: &'a PathSegment)
    requires
        p.segments@.len() >= 1,
    ensures
        *r == spec_pick_segment(*p, resolved),
{
    let last = &p.segments[p.segments.len() - 1];
    match resolved {
        TypableDef::EnumVariant(v) => {
            // The generic arguments of a variant path may sit on the
            // enum's segment or on the variant's; the enum's segment is
            // preferred when both carry an argument list.
            let n = p.segments.len();
            if n >= 2 && p.segments[n - 2].args_and_bindings.is_some() {
                &p.segments[n - 2]
            } else {
                last
            }
        }
        _ => last,
    }
}

fn substs_from_segment_rec(
    db: &HirDatabase,
    rid: usize,
    seg: &PathSegment,
    resolved: TypableDef,
    fuel: usize,
) -> (r: Substs)
    requires
        db.wf(),
        db.resolver_in_range(rid),
        wf_typable(*db, resolved),
    ensures
        r@ == spec_substs_from_segment(*db, rid, *seg, resolved, fuel as nat),
        r.0@.len() == spec_def_parent_count(*db, resolved) + spec_def_own_count(*db, resolved),
    decreases fuel, 1int, seg_size(*seg),
{
    broadcast use lemma_tys_view, lemma_spec_lower_args;

    let parent_count: usize = match resolved {
        TypableDef::Function(f) => db.functions[f.0].generics.count_parent_params(),
        TypableDef::Struct(s) => db.structs[s.0].generics.count_parent_params(),
        TypableDef::Enum(e) => db.enums[e.0].generics.count_parent_params(),
        TypableDef::EnumVariant(v) => db.enums[db.enum_variants[v.0].parent_enum]
            .generics.count_parent_params(),
        TypableDef::TypeAlias(t) => db.type_aliases[t.0].generics.count_parent_params(),
        TypableDef::Const(c) => 0,
        TypableDef::Static(s) => 0,
    };
    let own_count: usize = match resolved {
        TypableDef::Function(f) => db.functions[f.0].generics.params.len(),
        TypableDef::Struct(s) => db.structs[s.0].generics.params.len(),
        TypableDef::Enum(e) => db.enums[e.0].generics.params.len(),
        TypableDef::EnumVariant(v) => db.enums[db.enum_variants[v.0].parent_enum]
            .generics.params.len(),
        TypableDef::TypeAlias(t) => db.type_aliases[t.0].generics.params.len(),
        TypableDef::Const(c) => 0,
        TypableDef::Static(s) => 0,
    };
    let total: usize = parent_count + own_count;
    let ghost sfuel = fuel as nat;
    let ghost spec_result = spec_substs_from_segment(*db, rid, *seg, resolved, sfuel);
    let ghost spec_k: int = match &seg.args_and_bindings {
        Option::None => 0int,
        Option::Some(ga) => if ga.args@.len() <= own_count {
            ga.args@.len() as int
        } else {
            own_count as int
        },
    };
    proof {
        match &seg.args_and_bindings {
            Option::None => {}
            Option::Some(ga) => {
                lemma_spec_lower_args(*db, rid, ga.args@.take(spec_k), sfuel);
            }
        }
        assert(spec_result.len() == total);
        assert forall|j: int| 0 <= j < parent_count implies spec_result[j] == TySpec::Unknown by {}
        assert forall|j: int| parent_count + spec_k <= j < total implies spec_result[j]
            == TySpec::Unknown by {}
        assert forall|j: int| 0 <= j < spec_k implies #[trigger] spec_result[parent_count + j] == (
        match seg.args_and_bindings->Some_0.args@[j] {
            GenericArg::Type(tr) => spec_from_hir(*db, rid, tr, sfuel),
        }) by {
            let ga = seg.args_and_bindings->Some_0;
            assert(ga.args@.take(spec_k)[j] == ga.args@[j]);
        }
    }

    let mut out: Vec<Ty> = Vec::new();
    let mut i: usize = 0;
    while i < parent_count
        invariant
            i <= parent_count,
            parent_count <= spec_result.len(),
            out@.len() == i as int,
            forall|j: int| 0 <= j < i ==> (#[trigger] out@[j])@ == spec_result[j],
            forall|j: int| 0 <= j < parent_count ==> spec_result[j] == TySpec::Unknown,
        decreases parent_count - i,
    {
        out.push(Ty::Unknown);
        i = i + 1;
    }
    let mut lowered_count: usize = 0;
    match &seg.args_and_bindings {
        Option::None => {}
        Option::Some(ga) => {
            let k: usize = if ga.args.len() <= own_count {
                ga.args.len()
            } else {
                own_count
            };
            assert(k as int == spec_k);
            let mut a: usize = 0;
            while a < k
                invariant
                    db.wf(),
                    db.resolver_in_range(rid),
                    a <= k,
                    k as int == spec_k,
                    k <= ga.args@.len(),
                    seg.args_and_bindings is Some,
                    *ga == seg.args_and_bindings->Some_0,
                    parent_count + spec_k <= spec_result.len(),
                    out@.len() == parent_count + a,
                    forall|j: int| 0 <= j < out@.len() ==> (#[trigger] out@[j])@ == spec_result[j],
                    forall|j: int| 0 <= j < spec_k ==> #[trigger] spec_result[parent_count + j] == (
                    match seg.args_and_bindings->Some_0.args@[j] {
                        GenericArg::Type(tr) => spec_from_hir(*db, rid, tr, fuel as nat),
                    }),
                decreases k - a,
            {
                proof {
                    assert(*ga == seg.args_and_bindings->Some_0);
                    assert(seg.args_and_bindings is Some);
                    assert(seg_size(*seg) == 1 + args_size(ga.args@));
                    lemma_args_size_elem(ga.args@, a as int);
                }
                match &ga.args[a] {
                    GenericArg::Type(tr) => {
                        proof {
                            assert(ga.args@[a as int] == GenericArg::Type(*tr));
                            assert(arg_size(ga.args@[a as int]) == 1 + tr_size(*tr));
                            assert(tr_size(*tr) < seg_size(*seg));
                        }
                        out.push(from_hir_rec(db, rid, tr, fuel));
                    }
                }
                a = a + 1;
            }
            lowered_count = k;
        }
    }
    let supplied: usize = parent_count + lowered_count;
    let mut p: usize = supplied;
    while p < total
        invariant
            supplied <= p,
            p <= total,
            total == spec_result.len(),
            out@.len() == p as int,
            forall|j: int| 0 <= j < out@.len() ==> (#[trigger] out@[j])@ == spec_result[j],
            forall|j: int| supplied <= j < total ==> spec_result[j] == TySpec::Unknown,
        decreases total - p,
    {
        out.push(Ty::Unknown);
        p = p + 1;
    }
    proof {
        lemma_tys_view(out@);
        assert(tys_view(out@) =~= spec_result);
    }
    Substs(out)
}

fn from_hir_path_rec(db: &HirDatabase, rid: usize, p: &Path, fuel: usize) -> (r: Ty)
    requires
        db.wf(),
        db.resolver_in_range(rid),
    ensures
        r@ == spec_from_hir_path(*db, rid, *p, fuel as nat),
    decreases fuel, 1int, path_size(*p),
{
    if p.segments.len() == 0 {
        return Ty::Unknown;
    }
    if p.segments.len() == 1 {
        let name = p.segments[0].name;
        if let Option::Some(it) = UncertainIntTy::from_name(name) {
            return Ty::Int(it);
        }
        if let Option::Some(ft) = UncertainFloatTy::from_name(name) {
            return Ty::Float(ft);
        }
        if name.0 == NAME_BOOL {
            return Ty::Bool;
        }
        if name.0 == NAME_CHAR {
            return Ty::Char;
        }
        if name.0 == NAME_STR {
            return Ty::Str;
        }
    }
    let resolution = db.resolve_path(rid, p);
    let in_types = match resolution {
        Option::None => Option::<Resolution>::None,
        Option::Some(per_ns) => per_ns.types,
    };
    match in_types {
        Option::None => Ty::Unknown,
        Option::Some(Resolution::LocalBinding(b)) => {
            // A local binding cannot surface in the type namespace; a
            // well-formed snapshot excludes it.
            proof {
                assert(false);
            }
            Ty::Unknown
        }
        Option::Some(Resolution::GenericParam(idx)) => Ty::Param {
            idx,
            name: p.segments[0].name,
        },
        Option::Some(Resolution::SelfType(im)) => {
            if fuel == 0 {
                Ty::Unknown
            } else {
                let im_data = &db.impls[im];
                from_hir_rec(db, im_data.resolver, &im_data.target_type_ref, fuel - 1)
            }
        }
        Option::Some(Resolution::Def(d)) => {
            match typable_from_module_def(d) {
                Option::None => Ty::Unknown,
                Option::Some(typable) => {
                    let ty = type_for_def_rec(db, typable, Namespace::Types, fuel);
                    let seg = pick_segment(p, typable);
                    proof {
                        let n = p.segments@.len();
                        lemma_segs_size_elem(p.segments@, n - 1);
                        if n >= 2 {
                            lemma_segs_size_elem(p.segments@, n - 2);
                        }
                        assert(*seg == p.segments@[n - 1] || (n >= 2 && *seg == p.segments@[n - 2]));
                    }
                    let substs = substs_from_segment_rec(db, rid, seg, typable, fuel);
                    ty.subst(&substs)
                }
            }
        }
    }
}

fn type_for_def_rec(db: &HirDatabase, d: TypableDef, ns: Namespace, fuel: usize) -> (r: Ty)
    requires
        db.wf(),
        wf_typable(*db, d),
    ensures
        r@ == spec_type_for_def(*db, d, ns, fuel as nat),
    decreases fuel, 0int, 0int,
{
    match (d, ns) {
        (TypableDef::Function(f), Namespace::Values) => type_for_fn(db, f),
        (TypableDef::Struct(s), Namespace::Types) => type_for_struct(db, s),
        (TypableDef::Struct(s), Namespace::Values) => type_for_struct_constructor(db, s),
        (TypableDef::Enum(e), Namespace::Types) => type_for_enum(db, e),
        (TypableDef::EnumVariant(v), Namespace::Values) => type_for_enum_variant_constructor(db, v),
        (TypableDef::TypeAlias(t), Namespace::Types) => {
            if fuel == 0 {
                Ty::Unknown
            } else {
                let data = &db.type_aliases[t.0];
                let inner = from_hir_rec(db, data.resolver, &data.type_ref, fuel - 1);
                let substs = make_substs(&data.generics);
                inner.subst(&substs)
            }
        }
        (TypableDef::Const(c), Namespace::Values) => {
            if fuel == 0 {
                Ty::Unknown
            } else {
                let data = &db.consts[c.0];
                from_hir_rec(db, data.resolver, &data.type_ref, fuel - 1)
            }
        }
        (TypableDef::Static(s), Namespace::Values) => {
            if fuel == 0 {
                Ty::Unknown
            } else {
                let data = &db.statics[s.0];
                from_hir_rec(db, data.resolver, &data.type_ref, fuel - 1)
            }
        }
        // Wrong-namespace lookups have no type.
        (TypableDef::Function(f), Namespace::Types) => Ty::Unknown,
        (TypableDef::Enum(e), Namespace::Values) => Ty::Unknown,
        (TypableDef::EnumVariant(v), Namespace::Types) => Ty::Unknown,
        (TypableDef::TypeAlias(t), Namespace::Values) => Ty::Unknown,
        (TypableDef::Const(c), Namespace::Types) => Ty::Unknown,
        (TypableDef::Static(s), Namespace::Types) => Ty::Unknown,
    }
}

/// The identity substitution of a definition's parameters: position
/// `i` becomes `Param` carrying the declared index and name.
pub fn make_substs(generics: &GenericParams) -> (r: Substs)
    ensures
        r@ == spec_make_substs(generics.spec_params_including()),
        r.0@.len() == generics.spec_params_including().len(),
{
    broadcast use lemma_tys_view;

    let ps = generics.params_including_parent();
    let mut out: Vec<Ty> = Vec::new();
    let mut i: usize = 0;
    while i < ps.len()
        invariant
            i <= ps@.len(),
            ps@ == generics.spec_params_including(),
            out@.len() == i as int,
            forall|j: int|
                0 <= j < i ==> (#[trigger] out@[j])@ == (TySpec::Param {
                    idx: ps@[j].idx,
                    name: ps@[j].name,
                }),
        decreases ps@.len() - i,
    {
        let p = ps[i];
        out.push(Ty::Param { idx: p.idx, name: p.name });
        i = i + 1;
    }
    proof {
        lemma_tys_view(out@);
        assert(tys_view(out@) =~= spec_make_substs(generics.spec_params_including()));
    }
    Substs(out)
}

/// Build the declared type of a function: its zero-sized item type.
pub fn type_for_fn(db: &HirDatabase, f: FunctionId) -> (r: Ty)
    requires
        db.wf(),
        f.0 < db.functions@.len(),
    ensures
        r@ == spec_type_for_fn(*db, f),
{
    let substs = make_substs(&db.functions[f.0].generics);
    Ty::FnDef { def: CallableDef::Function(f), substs }
}

/// The type of a struct applied to its own parameters.
pub fn type_for_struct(db: &HirDatabase, s: StructId) -> (r: Ty)
    requires
        db.wf(),
        s.0 < db.structs@.len(),
    ensures
        r@ == spec_type_for_struct(*db, s),
{
    let substs = make_substs(&db.structs[s.0].generics);
    Ty::Adt { def_id: AdtDef::Struct(s), substs }
}

/// The type of an enum applied to its own parameters.
pub fn type_for_enum(db: &HirDatabase, e: EnumId) -> (r: Ty)
    requires
        db.wf(),
        e.0 < db.enums@.len(),
    ensures
        r@ == spec_type_for_enum(*db, e),
{
    let substs = make_substs(&db.enums[e.0].generics);
    Ty::Adt { def_id: AdtDef::Enum(e), substs }
}

/// Build the type of a struct name used as a value: the constructor
/// function of a tuple struct, the struct type itself for unit and
/// record structs.
pub fn type_for_struct_constructor(db: &HirDatabase, s: StructId) -> (r: Ty)
    requires
        db.wf(),
        s.0 < db.structs@.len(),
    ensures
        r@ == spec_type_for_struct_constructor(*db, s),
{
    match &db.structs[s.0].variant_data {
        VariantData::Tuple(fields) => {
            let substs = make_substs(&db.structs[s.0].generics);
            Ty::FnDef { def: CallableDef::Struct(s), substs }
        }
        _ => type_for_struct(db, s),
    }
}

/// Build the type of a variant name used as a value: the constructor
/// function of a tuple variant, the parent enum's type otherwise.
pub fn type_for_enum_variant_constructor(db: &HirDatabase, v: EnumVariantId) -> (r: Ty)
    requires
        db.wf(),
        v.0 < db.enum_variants@.len(),
    ensures
        r@ == spec_type_for_enum_variant_constructor(*db, v),
{
    let parent = db.enum_variants[v.0].parent_enum;
    match &db.enum_variants[v.0].variant_data {
        VariantData::Tuple(fields) => {
            let substs = make_substs(&db.enums[parent].generics);
            Ty::FnDef { def: CallableDef::EnumVariant(v), substs }
        }
        _ => type_for_enum(db, EnumId(parent)),
    }
}

/// Build the declared type of a type alias: the lowered alias body
/// under the identity substitution of the alias's own parameters.
pub fn type_for_type_alias(db: &HirDatabase, t: TypeAliasId) -> (r: Ty)
    requires
        db.wf(),
        t.0 < db.type_aliases@.len(),
    ensures
        r@ == spec_type_for_def(
            *db,
            TypableDef::TypeAlias(t),
            Namespace::Types,
            db.spec_lowering_fuel(),
        ),
{
    let fl = db.lowering_fuel();
    let data = &db.type_aliases[t.0];
    let inner = from_hir_rec(db, data.resolver, &data.type_ref, fl - 1);
    let substs = make_substs(&data.generics);
    inner.subst(&substs)
}

/// Build the declared type of a const: its annotated type, lowered.
pub fn type_for_const(db: &HirDatabase, c: ConstId) -> (r: Ty)
    requires
        db.wf(),
        c.0 < db.consts@.len(),
    ensures
        r@ == spec_type_for_def(
            *db,
            TypableDef::Const(c),
            Namespace::Values,
            db.spec_lowering_fuel(),
        ),
{
    let fl = db.lowering_fuel();
    let data = &db.consts[c.0];
    from_hir_rec(db, data.resolver, &data.type_ref, fl - 1)
}

/// Build the declared type of a static: its annotated type, lowered.
pub fn type_for_static(db: &HirDatabase, s: StaticId) -> (r: Ty)
    requires
        db.wf(),
        s.0 < db.statics@.len(),
    ensures
        r@ == spec_type_for_def(
            *db,
            TypableDef::Static(s),
            Namespace::Values,
            db.spec_lowering_fuel(),
        ),
{
    let fl = db.lowering_fuel();
    let data = &db.statics[s.0];
    from_hir_rec(db, data.resolver, &data.type_ref, fl - 1)
}

/// Build the declared type of an item in the given namespace. Total:
/// wrong-namespace pairs yield `Unknown`.
pub fn type_for_def(db: &HirDatabase, def: TypableDef, ns: Namespace) -> (r: Ty)
    requires
        db.wf(),
        wf_typable(*db, def),
    ensures
        r@ == spec_type_for_def(*db, def, ns, db.spec_lowering_fuel()),
{
    let fl = db.lowering_fuel();
    type_for_def_rec(db, def, ns, fl)
}

/// The signature of a function: lowered parameter types, then the
/// lowered return type.
pub open spec fn spec_fn_sig_for_fn(db: HirDatabase, f: FunctionId) -> Seq<TySpec> {
    let data = db.functions@[f.0 as int];
    spec_lower_trs(db, data.resolver, data.params@, db.spec_lowering_fuel()).push(
        spec_from_hir(db, data.resolver, data.ret_type, db.spec_lowering_fuel()),
    )
}

/// The signature of a tuple struct's constructor: lowered field types,
/// then the struct's own type.
pub open spec fn spec_fn_sig_for_struct_constructor(db: HirDatabase, s: StructId) -> Seq<TySpec> {
    let data = db.structs@[s.0 as int];
    spec_lower_trs(
        db,
        data.resolver,
        data.variant_data->Tuple_0@,
        db.spec_lowering_fuel(),
    ).push(spec_type_for_struct(db, s))
}

/// The signature of a tuple variant's constructor: lowered field types
/// under the parent enum's scope, then the enum type under its own
/// identity substitution.
pub open spec fn spec_fn_sig_for_enum_variant_constructor(
    db: HirDatabase,
    v: EnumVariantId,
) -> Seq<TySpec> {
    let parent = db.enum_variants@[v.0 as int].parent_enum;
    let enum_data = db.enums@[parent as int];
    spec_lower_trs(
        db,
        enum_data.resolver,
        db.enum_variants@[v.0 as int].variant_data->Tuple_0@,
        db.spec_lowering_fuel(),
    ).push(
        spec_subst(
            spec_type_for_enum(db, EnumId(parent)),
            spec_make_substs(enum_data.generics.spec_params_including()),
        ),
    )
}

/// Build the signature of a function.
pub fn fn_sig_for_fn(db: &HirDatabase, f: FunctionId) -> (r: FnSig)
    requires
        db.wf(),
        f.0 < db.functions@.len(),
    ensures
        r@ == spec_fn_sig_for_fn(*db, f),
{
    let fl = db.lowering_fuel();
    let data = &db.functions[f.0];
    let params = lower_trs_rec(db, data.resolver, &data.params, fl);
    let ret = from_hir_rec(db, data.resolver, &data.ret_type, fl);
    FnSig::from_params_and_return(params, ret)
}

/// Build the signature of a tuple struct's constructor. Calling this
/// on a unit or record struct is a usage error, excluded here.
pub fn fn_sig_for_struct_constructor(db: &HirDatabase, s: StructId) -> (r: FnSig)
    requires
        db.wf(),
        s.0 < db.structs@.len(),
        db.structs@[s.0 as int].variant_data is Tuple,
    ensures
        r@ == spec_fn_sig_for_struct_constructor(*db, s),
{
    let fl = db.lowering_fuel();
    let data = &db.structs[s.0];
    match &data.variant_data {
        VariantData::Tuple(fields) => {
            let params = lower_trs_rec(db, data.resolver, fields, fl);
            let ret = type_for_struct(db, s);
            FnSig::from_params_and_return(params, ret)
        }
        _ => {
            proof {
                assert(false);
            }
            FnSig { params_and_return: Vec::new() }
        }
    }
}

/// Build the signature of a tuple variant's constructor. Calling this
/// on a unit or record variant is a usage error, excluded here.
pub fn fn_sig_for_enum_variant_constructor(db: &HirDatabase, v: EnumVariantId) -> (r: FnSig)
    requires
        db.wf(),
        v.0 < db.enum_variants@.len(),
        db.enum_variants@[v.0 as int].variant_data is Tuple,
    ensures
        r@ == spec_fn_sig_for_enum_variant_constructor(*db, v),
{
    let fl = db.lowering_fuel();
    let parent = db.enum_variants[v.0].parent_enum;
    match &db.enum_variants[v.0].variant_data {
        VariantData::Tuple(fields) => {
            let params = lower_trs_rec(db, db.enums[parent].resolver, fields, fl);
            let substs = make_substs(&db.enums[parent].generics);
            let ret = type_for_enum(db, EnumId(parent)).subst(&substs);
            FnSig::from_params_and_return(params, ret)
        }
        _ => {
            proof {
                assert(false);
            }
            FnSig { params_and_return: Vec::new() }
        }
    }
}

/// Whether a callable's shape admits a constructor signature.
pub open spec fn wf_callable(db: HirDatabase, def: CallableDef) -> bool {
    match def {
        CallableDef::Function(f) => f.0 < db.functions@.len(),
        CallableDef::Struct(s) => s.0 < db.structs@.len() && db.structs@[s.0 as int].variant_data
            is Tuple,
        CallableDef::EnumVariant(v) => v.0 < db.enum_variants@.len()
            && db.enum_variants@[v.0 as int].variant_data is Tuple,
    }
}

/// Build the signature of a callable item.
pub fn callable_item_sig(db: &HirDatabase, def: CallableDef) -> (r: FnSig)
    requires
        db.wf(),
        wf_callable(*db, def),
    ensures
        r@ == (match def {
            CallableDef::Function(f) => spec_fn_sig_for_fn(*db, f),
            CallableDef::Struct(s) => spec_fn_sig_for_struct_constructor(*db, s),
            CallableDef::EnumVariant(v) => spec_fn_sig_for_enum_variant_constructor(*db, v),
        }),
{
    match def {
        CallableDef::Function(f) => fn_sig_for_fn(db, f),
        CallableDef::Struct(s) => fn_sig_for_struct_constructor(db, s),
        CallableDef::EnumVariant(v) => fn_sig_for_enum_variant_constructor(db, v),
    }
}

/// The stored field types of a variant shape, if it has fields.
pub open spec fn spec_variant_fields(vd: VariantData) -> Option<Seq<TypeRef>> {
    match vd {
        VariantData::Unit => None,
        VariantData::Tuple(fs) => Some(fs@),
        VariantData::Record(fs) => Some(fs@),
    }
}

/// The field's owner exists and has the field.
pub open spec fn wf_field(db: HirDatabase, field: StructField) -> bool {
    match field.parent {
        VariantDef::Struct(s) => s.0 < db.structs@.len() && match spec_variant_fields(
            db.structs@[s.0 as int].variant_data,
        ) {
            Some(fs) => field.id < fs.len(),
            None => false,
        },
        VariantDef::EnumVariant(v) => v.0 < db.enum_variants@.len() && match spec_variant_fields(
            db.enum_variants@[v.0 as int].variant_data,
        ) {
            Some(fs) => field.id < fs.len(),
            None => false,
        },
    }
}

/// The type of a field: its stored type reference, lowered under the
/// struct's scope or the parent enum's scope.
pub open spec fn spec_type_for_field(db: HirDatabase, field: StructField) -> TySpec {
    match field.parent {
        VariantDef::Struct(s) => spec_from_hir(
            db,
            db.structs@[s.0 as int].resolver,
            spec_variant_fields(db.structs@[s.0 as int].variant_data)->Some_0[field.id as int],
            db.spec_lowering_fuel(),
        ),
        VariantDef::EnumVariant(v) => spec_from_hir(
            db,
            db.enums@[db.enum_variants@[v.0 as int].parent_enum as int].resolver,
            spec_variant_fields(db.enum_variants@[v.0 as int].variant_data)->Some_0[
                field.id as int],
            db.spec_lowering_fuel(),
        ),
    }
}

/// Build the type of one field of a struct or enum variant. The field
/// must exist.
pub fn type_for_field(db: &HirDatabase, field: StructField) -> (r: Ty)
    requires
        db.wf(),
        wf_field(*db, field),
    ensures
        r@ == spec_type_for_field(*db, field),
{
    let fl = db.lowering_fuel();
    match field.parent {
        VariantDef::Struct(s) => {
            let data = &db.structs[s.0];
            match &data.variant_data {
                VariantData::Tuple(fs) => from_hir_rec(db, data.resolver, &fs[field.id], fl),
                VariantData::Record(fs) => from_hir_rec(db, data.resolver, &fs[field.id], fl),
                VariantData::Unit => {
                    proof {
                        assert(false);
                    }
                    Ty::Unknown
                }
            }
        }
        VariantDef::EnumVariant(v) => {
            let data = &db.enum_variants[v.0];
            let resolver = db.enums[data.parent_enum].resolver;
            match &data.variant_data {
                VariantData::Tuple(fs) => from_hir_rec(db, resolver, &fs[field.id], fl),
                VariantData::Record(fs) => from_hir_rec(db, resolver, &fs[field.id], fl),
                VariantData::Unit => {
                    proof {
                        assert(false);
                    }
                    Ty::Unknown
                }
            }
        }
    }
}

impl Ty {
    /// Lower a syntactic type reference in the given scope.
    pub fn from_hir(db: &HirDatabase, resolver: usize, type_ref: &TypeRef) -> (r: Ty)
        requires
            db.wf(),
            db.resolver_in_range(resolver),
        ensures
            r@ == spec_from_hir(*db, resolver, *type_ref, db.spec_lowering_fuel()),
    {
        let fl = db.lowering_fuel();
        from_hir_rec(db, resolver, type_ref, fl)
    }

    /// Lower a path in the type namespace of the given scope.
    pub fn from_hir_path(db: &HirDatabase, resolver: usize, path: &Path) -> (r: Ty)
        requires
            db.wf(),
            db.resolver_in_range(resolver),
        ensures
            r@ == spec_from_hir_path(*db, resolver, *path, db.spec_lowering_fuel()),
    {
        let fl = db.lowering_fuel();
        from_hir_path_rec(db, resolver, path, fl)
    }

    /// The substitution supplied by one path segment for a resolved
    /// definition.
    pub fn substs_from_path_segment(
        db: &HirDatabase,
        resolver: usize,
        segment: &PathSegment,
        resolved: TypableDef,
    ) -> (r: Substs)
        requires
            db.wf(),
            db.resolver_in_range(resolver),
            wf_typable(*db, resolved),
        ensures
            r@ == spec_substs_from_segment(
                *db,
                resolver,
                *segment,
                resolved,
                db.spec_lowering_fuel(),
            ),
            r.0@.len() == spec_def_parent_count(*db, resolved) + spec_def_own_count(*db, resolved),
    {
        let fl = db.lowering_fuel();
        substs_from_segment_rec(db, resolver, segment, resolved, fl)
    }

    /// Collect the generic arguments of a path into a substitution,
    /// taking them from the segment that carries them.
    pub fn substs_from_path(
        db: &HirDatabase,
        resolver: usize,
        path: &Path,
        resolved: TypableDef,
    ) -> (r: Substs)
        requires
            db.wf(),
            db.resolver_in_range(resolver),
            wf_typable(*db, resolved),
            path.segments@.len() >= 1,
        ensures
            r@ == spec_substs_from_path(*db, resolver, *path, resolved, db.spec_lowering_fuel()),
    {
        let fl = db.lowering_fuel();
        let seg = pick_segment(path, resolved);
        substs_from_segment_rec(db, resolver, seg, resolved, fl)
    }
}



/// In the namespace where an item is not declared, its type is
/// `Unknown`: a function name in the type namespace; an enum name, a
/// type alias or the enum's own name of a variant in the value
/// namespace; a const or static name in the type namespace.
pub proof fn lemma_type_for_def_wrong_namespace(
    db: HirDatabase,
    d: TypableDef,
    ns: Namespace,
    fuel: nat,
)
    ensures
        d is Function && ns is Types ==> spec_type_for_def(db, d, ns, fuel) == TySpec::Unknown,
        d is Enum && ns is Values ==> spec_type_for_def(db, d, ns, fuel) == TySpec::Unknown,
        d is EnumVariant && ns is Types ==> spec_type_for_def(db, d, ns, fuel) == TySpec::Unknown,
        d is TypeAlias && ns is Values ==> spec_type_for_def(db, d, ns, fuel) == TySpec::Unknown,
        d is Const && ns is Types ==> spec_type_for_def(db, d, ns, fuel) == TySpec::Unknown,
        d is Static && ns is Types ==> spec_type_for_def(db, d, ns, fuel) == TySpec::Unknown,
{
}

/// In its declared namespace a function, struct, enum or variant name
/// is never `Unknown`: those rows build an item type or an ADT type
/// outright. (A type alias, const or static can still be `Unknown`
/// there, when its annotation is an error or the budget runs out.)
pub proof fn lemma_type_for_def_declared_namespace(
    db: HirDatabase,
    d: TypableDef,
    ns: Namespace,
    fuel: nat,
)
    ensures
        d is Function && ns is Values ==> spec_type_for_def(db, d, ns, fuel) is FnDef,
        d is Struct && ns is Types ==> spec_type_for_def(db, d, ns, fuel) is Adt,
        d is Struct && ns is Values ==> !(spec_type_for_def(db, d, ns, fuel) is Unknown),
        d is Enum && ns is Types ==> spec_type_for_def(db, d, ns, fuel) is Adt,
        d is EnumVariant && ns is Values ==> !(spec_type_for_def(db, d, ns, fuel) is Unknown),
{
}

/// The identity substitution of a well-formed parameter list has one
/// entry per parameter, including every ancestor's, and entry `i` is
/// the parameter `Param` with index `i` and the declared name.
pub proof fn lemma_make_substs_shape(gp: GenericParams)
    requires
        gp.wf(),
    ensures
        spec_make_substs(gp.spec_params_including()).len() == gp.spec_count_including(),
        forall|i: int|
            0 <= i < gp.spec_count_including()
                ==> #[trigger] spec_make_substs(gp.spec_params_including())[i] == (TySpec::Param {
                idx: i as u32,
                name: gp.spec_params_including()[i].name,
            }),
{
    gp.lemma_counts();
}

/// The substitution read off a segment pads missing arguments with
/// `Unknown` and ignores excess ones: parent positions are `Unknown`,
/// the first `min(supplied, declared)` own positions hold the lowered
/// arguments in order, and every remaining position is `Unknown`.
pub proof fn lemma_substs_from_segment_shape(
    db: HirDatabase,
    rid: usize,
    seg: PathSegment,
    resolved: TypableDef,
    fuel: nat,
)
    ensures
        spec_substs_from_segment(db, rid, seg, resolved, fuel).len() == spec_def_parent_count(
            db,
            resolved,
        ) + spec_def_own_count(db, resolved),
        forall|j: int|
            0 <= j < spec_def_parent_count(db, resolved)
                ==> #[trigger] spec_substs_from_segment(db, rid, seg, resolved, fuel)[j]
                == TySpec::Unknown,
        seg.args_and_bindings is None ==> forall|j: int|
            0 <= j < spec_substs_from_segment(db, rid, seg, resolved, fuel).len()
                ==> #[trigger] spec_substs_from_segment(db, rid, seg, resolved, fuel)[j]
                == TySpec::Unknown,
        seg.args_and_bindings is Some ==> {
            let parent = spec_def_parent_count(db, resolved);
            let own = spec_def_own_count(db, resolved);
            let ga = seg.args_and_bindings->Some_0;
            let k: int = if ga.args@.len() <= own {
                ga.args@.len() as int
            } else {
                own as int
            };
            &&& forall|j: int|
                0 <= j < k ==> #[trigger] spec_substs_from_segment(db, rid, seg, resolved, fuel)[
                    parent + j] == (match ga.args@[j] {
                    GenericArg::Type(tr) => spec_from_hir(db, rid, tr, fuel),
                })
            &&& forall|j: int|
                parent + k <= j < parent + own ==> #[trigger] spec_substs_from_segment(
                    db,
                    rid,
                    seg,
                    resolved,
                    fuel,
                )[j] == TySpec::Unknown
        },
{
    match seg.args_and_bindings {
        Option::None => {}
        Option::Some(ga) => {
            let own = spec_def_own_count(db, resolved);
            let k: int = if ga.args@.len() <= own {
                ga.args@.len() as int
            } else {
                own as int
            };
            lemma_spec_lower_args(db, rid, ga.args@.take(k), fuel);
            assert forall|j: int| 0 <= j < k implies spec_lower_args(db, rid, ga.args@.take(k), fuel)[j]
                == (match ga.args@[j] {
                GenericArg::Type(tr) => spec_from_hir(db, rid, tr, fuel),
            }) by {
                assert(ga.args@.take(k)[j] == ga.args@[j]);
            }
        }
    }
}

/// Every parameter occurring in a type is declared in the given list:
/// its index is in range and its carried name is the declared one.
pub open spec fn params_declared_in_seq(ts: Seq<TySpec>, ps: Seq<GenericParam>) -> bool
    decreases ts, 0int,
{
    if ts.len() == 0 {
        true
    } else {
        params_declared_in_seq(ts.drop_last(), ps) && params_declared_in(ts.last(), ps)
    }
}

pub open spec fn params_declared_in(t: TySpec, ps: Seq<GenericParam>) -> bool
    decreases t, 1int,
{
    match t {
        TySpec::Tuple(ts) => params_declared_in_seq(ts, ps),
        TySpec::Ref(b, m) => params_declared_in(*b, ps),
        TySpec::RawPtr(b, m) => params_declared_in(*b, ps),
        TySpec::Array(b) => params_declared_in(*b, ps),
        TySpec::Slice(b) => params_declared_in(*b, ps),
        TySpec::FnPtr(ts) => params_declared_in_seq(ts, ps),
        TySpec::FnDef { def, substs } => params_declared_in_seq(substs, ps),
        TySpec::Adt { def_id, substs } => params_declared_in_seq(substs, ps),
        TySpec::Param { idx, name } => idx < ps.len() && ps[idx as int].name == name,
        _ => true,
    }
}

proof fn lemma_declared_implies_identity_seq(
    ts: Seq<TySpec>,
    ps: Seq<GenericParam>,
    s: Seq<TySpec>,
)
    requires
        s.len() == ps.len(),
        forall|i: int|
            0 <= i < s.len() ==> #[trigger] s[i] == (TySpec::Param {
                idx: i as u32,
                name: ps[i].name,
            }),
        params_declared_in_seq(ts, ps),
    ensures
        crate::ty::identity_for_seq(ts, s),
    decreases ts, 0int,
{
    if ts.len() > 0 {
        lemma_declared_implies_identity_seq(ts.drop_last(), ps, s);
        lemma_declared_implies_identity(ts.last(), ps, s);
    }
}

proof fn lemma_declared_implies_identity(t: TySpec, ps: Seq<GenericParam>, s: Seq<TySpec>)
    requires
        s.len() == ps.len(),
        forall|i: int|
            0 <= i < s.len() ==> #[trigger] s[i] == (TySpec::Param {
                idx: i as u32,
                name: ps[i].name,
            }),
        params_declared_in(t, ps),
    ensures
        crate::ty::identity_for(t, s),
    decreases t, 1int,
{
    match t {
        TySpec::Tuple(ts) => {
            lemma_declared_implies_identity_seq(ts, ps, s);
        }
        TySpec::Ref(b, m) => {
            lemma_declared_implies_identity(*b, ps, s);
        }
        TySpec::RawPtr(b, m) => {
            lemma_declared_implies_identity(*b, ps, s);
        }
        TySpec::Array(b) => {
            lemma_declared_implies_identity(*b, ps, s);
        }
        TySpec::Slice(b) => {
            lemma_declared_implies_identity(*b, ps, s);
        }
        TySpec::FnPtr(ts) => {
            lemma_declared_implies_identity_seq(ts, ps, s);
        }
        TySpec::FnDef { def, substs } => {
            lemma_declared_implies_identity_seq(substs, ps, s);
        }
        TySpec::Adt { def_id, substs } => {
            lemma_declared_implies_identity_seq(substs, ps, s);
        }
        _ => {}
    }
}

/// Substituting a definition's identity substitution into any type
/// whose parameters are declared in that definition's full parameter
/// list yields the type unchanged. The two side conditions are
/// necessary: an index beyond the list would be replaced by `Unknown`,
/// and a parameter carrying a foreign name would be renamed, since a
/// parameter's diagnostic name travels with the substitution.
pub proof fn lemma_subst_identity_for_declared(gp: GenericParams, t: TySpec)
    requires
        gp.wf(),
        params_declared_in(t, gp.spec_params_including()),
    ensures
        spec_subst(t, spec_make_substs(gp.spec_params_including())) == t,
{
    let ps = gp.spec_params_including();
    let s = spec_make_substs(ps);
    gp.lemma_counts();
    lemma_make_substs_shape(gp);
    assert forall|i: int| 0 <= i < s.len() implies #[trigger] s[i] == (TySpec::Param {
        idx: i as u32,
        name: ps[i].name,
    }) by {}
    lemma_declared_implies_identity(t, ps, s);
    crate::ty::lemma_subst_identity(t, s);
}

/// A single-segment path naming a primitive lowers to that primitive
/// without consulting the snapshot, the resolver or the budget: any
/// two give the same answer.
pub proof fn lemma_primitive_path_needs_no_resolver(
    db1: HirDatabase,
    rid1: usize,
    fuel1: nat,
    db2: HirDatabase,
    rid2: usize,
    fuel2: nat,
    p: Path,
)
    requires
        p.segments@.len() == 1,
    ensures
        UncertainIntTy::spec_from_name(p.segments@[0].name) is Some ==> spec_from_hir_path(
            db1,
            rid1,
            p,
            fuel1,
        ) == TySpec::Int(UncertainIntTy::spec_from_name(p.segments@[0].name)->Some_0)
            && spec_from_hir_path(db2, rid2, p, fuel2) == TySpec::Int(
            UncertainIntTy::spec_from_name(p.segments@[0].name)->Some_0,
        ),
        (UncertainIntTy::spec_from_name(p.segments@[0].name) is None
            && UncertainFloatTy::spec_from_name(p.segments@[0].name) is Some)
            ==> spec_from_hir_path(db1, rid1, p, fuel1) == TySpec::Float(
            UncertainFloatTy::spec_from_name(p.segments@[0].name)->Some_0,
        ) && spec_from_hir_path(db2, rid2, p, fuel2) == TySpec::Float(
            UncertainFloatTy::spec_from_name(p.segments@[0].name)->Some_0,
        ),
        p.segments@[0].name.0 == NAME_BOOL ==> spec_from_hir_path(db1, rid1, p, fuel1)
            == TySpec::Bool && spec_from_hir_path(db2, rid2, p, fuel2) == TySpec::Bool,
        p.segments@[0].name.0 == NAME_CHAR ==> spec_from_hir_path(db1, rid1, p, fuel1)
            == TySpec::Char && spec_from_hir_path(db2, rid2, p, fuel2) == TySpec::Char,
        p.segments@[0].name.0 == NAME_STR ==> spec_from_hir_path(db1, rid1, p, fuel1)
            == TySpec::Str && spec_from_hir_path(db2, rid2, p, fuel2) == TySpec::Str,
{
}

/// Two applications of a segment's substitution agree whenever the
/// segments carry the same argument list: nothing else of a segment is
/// read.
pub proof fn lemma_substs_read_only_args(
    db: HirDatabase,
    rid: usize,
    s1: PathSegment,
    s2: PathSegment,
    resolved: TypableDef,
    fuel: nat,
)
    requires
        s1.args_and_bindings == s2.args_and_bindings,
    ensures
        spec_substs_from_segment(db, rid, s1, resolved, fuel) == spec_substs_from_segment(
            db,
            rid,
            s2,
            resolved,
            fuel,
        ),
{
}

/// The generic arguments of an enum-variant path may sit on the enum's
/// segment or on the variant's: with the same names and the same
/// argument list in either position, the lowered type is the same.
pub proof fn lemma_variant_args_either_segment(
    db: HirDatabase,
    rid: usize,
    p1: Path,
    p2: Path,
    fuel: nat,
)
    requires
        p1.segments@.len() == p2.segments@.len(),
        p1.segments@.len() >= 2,
        forall|j: int|
            0 <= j < p1.segments@.len() ==> (#[trigger] p1.segments@[j]).name
                == p2.segments@[j].name,
        p1.segments@[p1.segments@.len() - 2].args_and_bindings is Some,
        p1.segments@[p1.segments@.len() - 1].args_and_bindings is None,
        p2.segments@[p2.segments@.len() - 2].args_and_bindings is None,
        p2.segments@[p2.segments@.len() - 1].args_and_bindings == p1.segments@[p1.segments@.len()
            - 2].args_and_bindings,
        match db.spec_resolve_path(rid, p1) {
            Some(per_ns) => match per_ns.types {
                Some(Resolution::Def(d)) => spec_typable_from_module_def(d) matches Some(
                    TypableDef::EnumVariant(v),
                ),
                _ => false,
            },
            None => false,
        },
    ensures
        spec_from_hir_path(db, rid, p1, fuel) == spec_from_hir_path(db, rid, p2, fuel),
{
    let n = p1.segments@.len();
    HirDatabase::lemma_resolve_only_names(db.resolvers@[rid as int], p1, p2, 0);
    let d = db.spec_resolve_path(rid, p1)->Some_0.types->Some_0->Def_0;
    let typable = spec_typable_from_module_def(d)->Some_0;
    let s1 = spec_pick_segment(p1, typable);
    let s2 = spec_pick_segment(p2, typable);
    assert(s1 == p1.segments@[n - 2]);
    assert(s2 == p2.segments@[n - 1]);
    lemma_substs_read_only_args(db, rid, s1, s2, typable, fuel);
}


/// First-order types: built from primitives of known width, the
/// structural constructors, and nominal applications whose definition
/// lies in the snapshot with no parent parameters and exactly as many
/// declared parameters as arguments — no bound parameter, no item
/// type, no error.
pub open spec fn first_order_seq(db: HirDatabase, ts: Seq<TySpec>) -> bool
    decreases ts, 0int,
{
    if ts.len() == 0 {
        true
    } else {
        first_order_seq(db, ts.drop_last()) && first_order(db, ts.last())
    }
}

pub open spec fn first_order(db: HirDatabase, t: TySpec) -> bool
    decreases t, 1int,
{
    match t {
        TySpec::Never => true,
        TySpec::Bool => true,
        TySpec::Char => true,
        TySpec::Str => true,
        TySpec::Int(it) => it is Known,
        TySpec::Float(ft) => ft is Known,
        TySpec::Tuple(ts) => first_order_seq(db, ts),
        TySpec::Ref(b, m) => first_order(db, *b),
        TySpec::RawPtr(b, m) => first_order(db, *b),
        TySpec::Array(b) => first_order(db, *b),
        TySpec::Slice(b) => first_order(db, *b),
        TySpec::FnPtr(ps) => first_order_seq(db, ps),
        TySpec::Adt { def_id: AdtDef::Struct(s), substs } => {
            &&& s.0 < db.structs@.len()
            &&& db.structs@[s.0 as int].generics.spec_count_parent() == 0
            &&& db.structs@[s.0 as int].generics.params@.len() == substs.len()
            &&& first_order_seq(db, substs)
        },
        TySpec::Adt { def_id: AdtDef::Enum(e), substs } => {
            &&& e.0 < db.enums@.len()
            &&& db.enums@[e.0 as int].generics.spec_count_parent() == 0
            &&& db.enums@[e.0 as int].generics.params@.len() == substs.len()
            &&& first_order_seq(db, substs)
        },
        _ => false,
    }
}

pub broadcast proof fn lemma_first_order_seq(db: HirDatabase, ts: Seq<TySpec>)
    requires
        #[trigger] first_order_seq(db, ts),
    ensures
        forall|i: int| 0 <= i < ts.len() ==> first_order(db, #[trigger] ts[i]),
    decreases ts,
{
    if ts.len() > 0 {
        lemma_first_order_seq(db, ts.drop_last());
        assert forall|i: int| 0 <= i < ts.len() implies first_order(db, #[trigger] ts[i]) by {
            if i < ts.len() - 1 {
                assert(ts.drop_last()[i] == ts[i]);
            }
        }
    }
}

/// A resolver that resolves all names: every struct and enum of the
/// snapshot is reachable under its own single name in the type
/// namespace, and no definition hides behind a primitive name.
pub open spec fn resolves_adt_names(db: HirDatabase, rid: usize) -> bool {
    &&& forall|s: int|
        0 <= s < db.structs@.len() ==> {
            let nm = (#[trigger] db.structs@[s]).name;
            &&& UncertainIntTy::spec_from_name(nm) is None
            &&& UncertainFloatTy::spec_from_name(nm) is None
            &&& nm.0 != NAME_BOOL
            &&& nm.0 != NAME_CHAR
            &&& nm.0 != NAME_STR
            &&& db.spec_resolve_names(rid, seq![nm]) matches Some(pn) && pn.types == Some(
                Resolution::Def(crate::hir::ModuleDef::Struct(StructId(s as usize))),
            )
        }
    &&& forall|e: int|
        0 <= e < db.enums@.len() ==> {
            let nm = (#[trigger] db.enums@[e]).name;
            &&& UncertainIntTy::spec_from_name(nm) is None
            &&& UncertainFloatTy::spec_from_name(nm) is None
            &&& nm.0 != NAME_BOOL
            &&& nm.0 != NAME_CHAR
            &&& nm.0 != NAME_STR
            &&& db.spec_resolve_names(rid, seq![nm]) matches Some(pn) && pn.types == Some(
                Resolution::Def(crate::hir::ModuleDef::Enum(EnumId(e as usize))),
            )
        }
}

/// The surface name of an integer primitive of known width.
fn int_name(it: UncertainIntTy) -> (r: Name)
    requires
        it is Known,
    ensures
        UncertainIntTy::spec_from_name(r) == Some(it),
{
    match it {
        UncertainIntTy::Known(k) => match k {
            crate::hir::IntTy::Isize => Name(crate::hir::NAME_ISIZE),
            crate::hir::IntTy::I8 => Name(crate::hir::NAME_I8),
            crate::hir::IntTy::I16 => Name(crate::hir::NAME_I16),
            crate::hir::IntTy::I32 => Name(crate::hir::NAME_I32),
            crate::hir::IntTy::I64 => Name(crate::hir::NAME_I64),
            crate::hir::IntTy::I128 => Name(crate::hir::NAME_I128),
            crate::hir::IntTy::Usize => Name(crate::hir::NAME_USIZE),
            crate::hir::IntTy::U8 => Name(crate::hir::NAME_U8),
            crate::hir::IntTy::U16 => Name(crate::hir::NAME_U16),
            crate::hir::IntTy::U32 => Name(crate::hir::NAME_U32),
            crate::hir::IntTy::U64 => Name(crate::hir::NAME_U64),
            crate::hir::IntTy::U128 => Name(crate::hir::NAME_U128),
        },
        UncertainIntTy::Unknown => {
            proof {
                assert(false);
            }
            Name(0)
        }
    }
}

/// The surface name of a float primitive of known width.
fn float_name(ft: UncertainFloatTy) -> (r: Name)
    requires
        ft is Known,
    ensures
        UncertainFloatTy::spec_from_name(r) == Some(ft),
        UncertainIntTy::spec_from_name(r) is None,
{
    match ft {
        UncertainFloatTy::Known(k) => match k {
            crate::hir::FloatTy::F32 => Name(crate::hir::NAME_F32),
            crate::hir::FloatTy::F64 => Name(crate::hir::NAME_F64),
        },
        UncertainFloatTy::Unknown => {
            proof {
                assert(false);
            }
            Name(0)
        }
    }
}

fn single_ident_path(name: Name) -> (r: TypeRef)
    ensures
        r matches TypeRef::Path(p) && p.segments@.len() == 1 && p.segments@[0].name == name
            && p.segments@[0].args_and_bindings is None,
{
    TypeRef::Path(Path {
        segments: vec![PathSegment { name, args_and_bindings: None }],
    })
}

/// Read a first-order type back into a type reference that lowers to
/// it again, under any budget and any resolver that resolves all
/// names. A primitive becomes its single-name path, which the
/// lowering recognises before it resolves anything; a nominal
/// application becomes its definition's name applied to the read-back
/// arguments; the structural forms map constructor by constructor.
pub fn ref_of(db: &HirDatabase, t: &Ty) -> (r: TypeRef)
    requires
        db.wf(),
        first_order(*db, t@),
    ensures
        forall|rid: usize, fuel: nat|
            resolves_adt_names(*db, rid) ==> #[trigger] spec_from_hir(*db, rid, r, fuel) == t@,
    decreases *t, 1int,
{
    broadcast use lemma_tys_view, lemma_first_order_seq, lemma_spec_lower_trs;

    match t {
        Ty::Never => {
            let r = TypeRef::Never;
            proof {
                assert forall|rid: usize, fuel: nat|
                    resolves_adt_names(*db, rid) implies #[trigger] spec_from_hir(
                    *db,
                    rid,
                    r,
                    fuel,
                ) == t@ by {}
            }
            r
        }
        Ty::Bool => {
            let r = single_ident_path(Name(NAME_BOOL));
            proof {
                assert forall|rid: usize, fuel: nat|
                    resolves_adt_names(*db, rid) implies #[trigger] spec_from_hir(
                    *db,
                    rid,
                    r,
                    fuel,
                ) == t@ by {
                    let p0 = r->Path_0;
                    assert(UncertainIntTy::spec_from_name(p0.segments@[0].name) is None);
                    assert(UncertainFloatTy::spec_from_name(p0.segments@[0].name) is None);
                    assert(spec_from_hir_path(*db, rid, p0, fuel) == TySpec::Bool);
                }
            }
            r
        }
        Ty::Char => {
            let r = single_ident_path(Name(NAME_CHAR));
            proof {
                assert forall|rid: usize, fuel: nat|
                    resolves_adt_names(*db, rid) implies #[trigger] spec_from_hir(
                    *db,
                    rid,
                    r,
                    fuel,
                ) == t@ by {
                    let p0 = r->Path_0;
                    assert(UncertainIntTy::spec_from_name(p0.segments@[0].name) is None);
                    assert(UncertainFloatTy::spec_from_name(p0.segments@[0].name) is None);
                    assert(spec_from_hir_path(*db, rid, p0, fuel) == TySpec::Char);
                }
            }
            r
        }
        Ty::Str => {
            let r = single_ident_path(Name(NAME_STR));
            proof {
                assert forall|rid: usize, fuel: nat|
                    resolves_adt_names(*db, rid) implies #[trigger] spec_from_hir(
                    *db,
                    rid,
                    r,
                    fuel,
                ) == t@ by {
                    let p0 = r->Path_0;
                    assert(UncertainIntTy::spec_from_name(p0.segments@[0].name) is None);
                    assert(UncertainFloatTy::spec_from_name(p0.segments@[0].name) is None);
                    assert(spec_from_hir_path(*db, rid, p0, fuel) == TySpec::Str);
                }
            }
            r
        }
        Ty::Int(it) => {
            let r = single_ident_path(int_name(*it));
            proof {
                assert forall|rid: usize, fuel: nat|
                    resolves_adt_names(*db, rid) implies #[trigger] spec_from_hir(
                    *db,
                    rid,
                    r,
                    fuel,
                ) == t@ by {
                    let p0 = r->Path_0;
                    assert(UncertainIntTy::spec_from_name(p0.segments@[0].name) == Some(*it));
                    assert(spec_from_hir_path(*db, rid, p0, fuel) == TySpec::Int(*it));
                }
            }
            r
        }
        Ty::Float(ft) => {
            let r = single_ident_path(float_name(*ft));
            proof {
                assert forall|rid: usize, fuel: nat|
                    resolves_adt_names(*db, rid) implies #[trigger] spec_from_hir(
                    *db,
                    rid,
                    r,
                    fuel,
                ) == t@ by {
                    let p0 = r->Path_0;
                    assert(UncertainIntTy::spec_from_name(p0.segments@[0].name) is None);
                    assert(UncertainFloatTy::spec_from_name(p0.segments@[0].name) == Some(*ft));
                    assert(spec_from_hir_path(*db, rid, p0, fuel) == TySpec::Float(*ft));
                }
            }
            r
        }
        Ty::Ref(b, m) => {
            let r = TypeRef::Reference(Box::new(ref_of(db, b)), *m);
            proof {
                assert forall|rid: usize, fuel: nat|
                    resolves_adt_names(*db, rid) implies #[trigger] spec_from_hir(
                    *db,
                    rid,
                    r,
                    fuel,
                ) == t@ by {
                    assert(spec_from_hir(*db, rid, *r->Reference_0, fuel) == (*b)@);
                }
            }
            r
        }
        Ty::RawPtr(b, m) => {
            let r = TypeRef::RawPtr(Box::new(ref_of(db, b)), *m);
            proof {
                assert forall|rid: usize, fuel: nat|
                    resolves_adt_names(*db, rid) implies #[trigger] spec_from_hir(
                    *db,
                    rid,
                    r,
                    fuel,
                ) == t@ by {
                    assert(spec_from_hir(*db, rid, *r->RawPtr_0, fuel) == (*b)@);
                }
            }
            r
        }
        Ty::Array(b) => {
            let r = TypeRef::Array(Box::new(ref_of(db, b)));
            proof {
                assert forall|rid: usize, fuel: nat|
                    resolves_adt_names(*db, rid) implies #[trigger] spec_from_hir(
                    *db,
                    rid,
                    r,
                    fuel,
                ) == t@ by {
                    assert(spec_from_hir(*db, rid, *r->Array_0, fuel) == (*b)@);
                }
            }
            r
        }
        Ty::Slice(b) => {
            let r = TypeRef::Slice(Box::new(ref_of(db, b)));
            proof {
                assert forall|rid: usize, fuel: nat|
                    resolves_adt_names(*db, rid) implies #[trigger] spec_from_hir(
                    *db,
                    rid,
                    r,
                    fuel,
                ) == t@ by {
                    assert(spec_from_hir(*db, rid, *r->Slice_0, fuel) == (*b)@);
                }
            }
            r
        }
        Ty::Tuple(ts) => {
            let rs = refs_of(db, ts, Ghost(t@->Tuple_0));
            let r = TypeRef::Tuple(rs);
            proof {
                assert forall|rid: usize, fuel: nat|
                    resolves_adt_names(*db, rid) implies #[trigger] spec_from_hir(
                    *db,
                    rid,
                    r,
                    fuel,
                ) == t@ by {
                    lemma_spec_lower_trs(*db, rid, r->Tuple_0@, fuel);
                    lemma_tys_view(ts@);
                    assert(spec_lower_trs(*db, rid, r->Tuple_0@, fuel) =~= tys_view(ts@));
                }
            }
            r
        }
        Ty::FnPtr(sig) => {
            let rs = refs_of(db, &sig.params_and_return, Ghost(t@->FnPtr_0));
            let r = TypeRef::Fn(rs);
            proof {
                assert forall|rid: usize, fuel: nat|
                    resolves_adt_names(*db, rid) implies #[trigger] spec_from_hir(
                    *db,
                    rid,
                    r,
                    fuel,
                ) == t@ by {
                    lemma_spec_lower_trs(*db, rid, r->Fn_0@, fuel);
                    lemma_tys_view(sig.params_and_return@);
                    assert(spec_lower_trs(*db, rid, r->Fn_0@, fuel) =~= tys_view(
                        sig.params_and_return@,
                    ));
                }
            }
            r
        }
        Ty::Adt { def_id, substs: Substs(inner) } => {
            let nm = match def_id {
                AdtDef::Struct(s) => db.structs[s.0].name,
                AdtDef::Enum(e) => db.enums[e.0].name,
            };
            let args = args_of(db, inner, Ghost(tys_view(inner@)));
            let r = TypeRef::Path(Path {
                segments: vec![
                    PathSegment { name: nm, args_and_bindings: Some(GenericArgs { args }) },
                ],
            });
            proof {
                let n = inner@.len() as int;
                let images = tys_view(inner@);
                lemma_tys_view(inner@);
                assert forall|rid: usize, fuel: nat|
                    resolves_adt_names(*db, rid) implies #[trigger] spec_from_hir(
                    *db,
                    rid,
                    r,
                    fuel,
                ) == t@ by {
                    let p0 = r->Path_0;
                    let seg0 = p0.segments@[0];
                    // The definition's name is no primitive, so the
                    // shortcut does not fire.
                    assert(UncertainIntTy::spec_from_name(nm) is None);
                    assert(UncertainFloatTy::spec_from_name(nm) is None);
                    // Resolution finds the definition under its name.
                    HirDatabase::lemma_resolve_path_by_names(
                        db.resolvers@[rid as int],
                        p0,
                        0,
                    );
                    assert(HirDatabase::spec_path_names(p0) =~= seq![nm]);
                    let typable = match def_id {
                        AdtDef::Struct(s) => TypableDef::Struct(*s),
                        AdtDef::Enum(e) => TypableDef::Enum(*e),
                    };
                    assert(db.spec_resolve_path(rid, p0) matches Some(pn) && pn.types == Some(
                        Resolution::Def(
                            match def_id {
                                AdtDef::Struct(s) => crate::hir::ModuleDef::Struct(*s),
                                AdtDef::Enum(e) => crate::hir::ModuleDef::Enum(*e),
                            },
                        ),
                    ));
                    assert(spec_typable_from_module_def(
                        db.spec_resolve_path(rid, p0)->Some_0.types->Some_0->Def_0,
                    ) == Some(typable));
                    // The declared type is the definition applied to
                    // its own parameters.
                    let ps = match def_id {
                        AdtDef::Struct(s) => db.structs@[
                            s.0 as int].generics.spec_params_including(),
                        AdtDef::Enum(e) => db.enums@[e.0 as int].generics.spec_params_including(),
                    };
                    let ty0 = spec_type_for_def(*db, typable, Namespace::Types, fuel);
                    assert(ty0 == (TySpec::Adt { def_id: *def_id, substs: spec_make_substs(ps) }));
                    // The path supplies exactly the declared number of
                    // arguments: no padding, no truncation.
                    assert(spec_pick_segment(p0, typable) == seg0);
                    assert(spec_def_parent_count(*db, typable) == 0);
                    assert(spec_def_own_count(*db, typable) == n);
                    let ga = seg0.args_and_bindings->Some_0;
                    assert(ga.args@.len() == n);
                    assert(ga.args@.take(n) =~= ga.args@);
                    let lowered = spec_lower_args(*db, rid, ga.args@, fuel);
                    lemma_spec_lower_args(*db, rid, ga.args@, fuel);
                    assert forall|i: int| 0 <= i < n implies lowered[i] == images[i] by {
                        assert(ga.args@[i] is Type);
                        assert(spec_from_hir(*db, rid, ga.args@[i]->Type_0, fuel) == images[i]);
                    }
                    let sub = spec_substs_from_segment(*db, rid, seg0, typable, fuel);
                    assert(sub =~= lowered);
                    assert(sub =~= images);
                    // Substituting the arguments into the identity
                    // substitution gives exactly the arguments back.
                    let gp = match def_id {
                        AdtDef::Struct(s) => db.structs@[s.0 as int].generics,
                        AdtDef::Enum(e) => db.enums@[e.0 as int].generics,
                    };
                    gp.lemma_counts();
                    lemma_make_substs_shape(gp);
                    lemma_spec_subst_seq(spec_make_substs(ps), sub);
                    assert forall|i: int| 0 <= i < n implies spec_subst_seq(
                        spec_make_substs(ps),
                        sub,
                    )[i] == images[i] by {
                        assert(spec_make_substs(ps)[i] == (TySpec::Param {
                            idx: i as u32,
                            name: ps[i].name,
                        }));
                    }
                    assert(spec_subst_seq(spec_make_substs(ps), sub) =~= images);
                    assert(spec_subst(ty0, sub) == (TySpec::Adt {
                        def_id: *def_id,
                        substs: images,
                    }));
                    assert(spec_from_hir_path(*db, rid, p0, fuel) == (TySpec::Adt {
                        def_id: *def_id,
                        substs: images,
                    }));
                }
            }
            r
        }
        _ => {
            proof {
                assert(false);
            }
            TypeRef::Error
        }
    }
}

/// Read a run of first-order types back, elementwise.
fn refs_of(db: &HirDatabase, ts: &Vec<Ty>, images: Ghost<Seq<TySpec>>) -> (r: Vec<TypeRef>)
    requires
        db.wf(),
        images@ == tys_view(ts@),
        first_order_seq(*db, images@),
    ensures
        r@.len() == ts@.len(),
        forall|rid: usize, fuel: nat, i: int|
            0 <= i < r@.len() && resolves_adt_names(*db, rid) ==> #[trigger] spec_from_hir(
                *db,
                rid,
                r@[i],
                fuel,
            ) == tys_view(ts@)[i],
    decreases *ts, 0int,
{
    broadcast use lemma_tys_view, lemma_first_order_seq;

    let mut out: Vec<TypeRef> = Vec::new();
    let mut i: usize = 0;
    while i < ts.len()
        invariant
            db.wf(),
            images@ == tys_view(ts@),
            first_order_seq(*db, images@),
            i <= ts@.len(),
            out@.len() == i as int,
            forall|rid: usize, fuel: nat, j: int|
                0 <= j < i && resolves_adt_names(*db, rid) ==> #[trigger] spec_from_hir(
                    *db,
                    rid,
                    out@[j],
                    fuel,
                ) == tys_view(ts@)[j],
        decreases ts@.len() - i,
    {
        proof {
            lemma_tys_view(ts@);
            lemma_first_order_seq(*db, images@);
            assert(first_order(*db, tys_view(ts@)[i as int]));
            assert(decreases_to!(*ts => ts@));
            assert(decreases_to!(ts@ => ts@[i as int]));
        }
        let t = &ts[i];
        out.push(ref_of(db, t));
        i = i + 1;
    }
    out
}

/// Read a run of first-order types back as generic arguments.
fn args_of(db: &HirDatabase, ts: &Vec<Ty>, images: Ghost<Seq<TySpec>>) -> (r: Vec<GenericArg>)
    requires
        db.wf(),
        images@ == tys_view(ts@),
        first_order_seq(*db, images@),
    ensures
        r@.len() == ts@.len(),
        forall|i: int| 0 <= i < r@.len() ==> (#[trigger] r@[i]) is Type,
        forall|rid: usize, fuel: nat, i: int|
            0 <= i < r@.len() && resolves_adt_names(*db, rid) ==> #[trigger] spec_from_hir(
                *db,
                rid,
                r@[i]->Type_0,
                fuel,
            ) == tys_view(ts@)[i],
    decreases *ts, 0int,
{
    broadcast use lemma_tys_view, lemma_first_order_seq;

    let mut out: Vec<GenericArg> = Vec::new();
    let mut i: usize = 0;
    while i < ts.len()
        invariant
            db.wf(),
            images@ == tys_view(ts@),
            first_order_seq(*db, images@),
            i <= ts@.len(),
            out@.len() == i as int,
            forall|j: int| 0 <= j < i ==> (#[trigger] out@[j]) is Type,
            forall|rid: usize, fuel: nat, j: int|
                0 <= j < i && resolves_adt_names(*db, rid) ==> #[trigger] spec_from_hir(
                    *db,
                    rid,
                    out@[j]->Type_0,
                    fuel,
                ) == tys_view(ts@)[j],
        decreases ts@.len() - i,
    {
        proof {
            lemma_tys_view(ts@);
            lemma_first_order_seq(*db, images@);
            assert(first_order(*db, tys_view(ts@)[i as int]));
            assert(decreases_to!(*ts => ts@));
            assert(decreases_to!(ts@ => ts@[i as int]));
        }
        let t = &ts[i];
        out.push(GenericArg::Type(ref_of(db, t)));
        i = i + 1;
    }
    out
}

} // verus!

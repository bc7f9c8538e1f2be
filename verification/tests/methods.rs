use hir_ty::hir::{
    CrateData, FunctionData, FunctionId, GenericParam, GenericParams, HirDatabase, ImplData,
    ImplItem, ModuleData, ModuleDef, Mutability, Name, Path, PathSegment, PerNs, Resolution,
    ResolverData, ResolverEntry, StructData, StructId, TraitData, TraitId, TypeRef, VariantData,
    FIRST_PLAIN_NAME, NAME_I32,
};
use hir_ty::method_resolution::{def_crate, CrateImplBlocks, TyFingerprint};
use hir_ty::ty::{AdtDef, Substs, Ty};
use hir_ty::hir::{IntTy, UncertainIntTy};

fn one_param(idx: u32, name: u32) -> GenericParams {
    GenericParams { parent_params: None, params: vec![GenericParam { idx, name: Name(name) }] }
}

fn ident_path(name: u32) -> Path {
    Path { segments: vec![PathSegment { name: Name(name), args_and_bindings: None }] }
}

fn type_entry(key: Vec<u32>, res: Resolution) -> ResolverEntry {
    ResolverEntry {
        key: key.into_iter().map(Name).collect(),
        resolution: PerNs { types: Some(res), values: None },
    }
}

const VEC_NAME: u32 = FIRST_PLAIN_NAME;
const T_NAME: u32 = FIRST_PLAIN_NAME + 1;
const LEN_NAME: u32 = FIRST_PLAIN_NAME + 2;
const FREE_NAME: u32 = FIRST_PLAIN_NAME + 3;

/// A crate holding `struct Vec<T>` with an inherent `impl Vec<T>`
/// carrying `fn len(&self)` and a free (non-self) `fn free()`.
fn vec_db() -> HirDatabase {
    HirDatabase {
        functions: vec![
            FunctionData {
                name: Name(LEN_NAME),
                has_self_param: true,
                params: vec![],
                ret_type: TypeRef::Path(ident_path(NAME_I32)),
                generics: one_param(0, T_NAME),
                resolver: 0,
            },
            FunctionData {
                name: Name(FREE_NAME),
                has_self_param: false,
                params: vec![],
                ret_type: TypeRef::Never,
                generics: one_param(0, T_NAME),
                resolver: 0,
            },
        ],
        structs: vec![StructData {
            name: Name(VEC_NAME),
            krate: 0,
            variant_data: VariantData::Record(vec![]),
            generics: one_param(0, T_NAME),
            resolver: 0,
        }],
        enums: vec![],
        enum_variants: vec![],
        type_aliases: vec![],
        consts: vec![],
        statics: vec![],
        traits: vec![],
        impls: vec![ImplData {
            target_type_ref: TypeRef::Path(Path {
                segments: vec![PathSegment {
                    name: Name(VEC_NAME),
                    args_and_bindings: None,
                }],
            }),
            target_trait: None,
            resolver: 0,
            items: vec![ImplItem::Method(FunctionId(1)), ImplItem::Method(FunctionId(0))],
        }],
        modules: vec![ModuleData { children: vec![], impls: vec![0] }],
        crates: vec![CrateData { root_module: Some(0) }],
        resolvers: vec![ResolverData {
            entries: vec![type_entry(
                vec![VEC_NAME],
                Resolution::Def(ModuleDef::Struct(StructId(0))),
            )],
            all_names: vec![],
        }],
    }
}

fn vec_of_i32() -> Ty {
    Ty::Adt {
        def_id: AdtDef::Struct(StructId(0)),
        substs: Substs(vec![Ty::Int(UncertainIntTy::Known(IntTy::I32))]),
    }
}

#[test]
fn fingerprint_exactly_for_adt() {
    assert_eq!(
        TyFingerprint::for_impl(&vec_of_i32()),
        Some(TyFingerprint::Adt(AdtDef::Struct(StructId(0))))
    );
    assert_eq!(TyFingerprint::for_impl(&Ty::Bool), None);
    assert_eq!(
        TyFingerprint::for_impl(&Ty::Ref(Box::new(vec_of_i32()), Mutability::Shared)),
        None
    );
    assert_eq!(TyFingerprint::for_impl(&Ty::Tuple(vec![])), None);
    assert_eq!(TyFingerprint::for_impl(&Ty::Unknown), None);
}

#[test]
fn def_crate_of_nominal_types_only() {
    let db = vec_db();
    assert_eq!(def_crate(&db, &vec_of_i32()), Some(0));
    assert_eq!(def_crate(&db, &Ty::Bool), None);
    assert_eq!(
        def_crate(&db, &Ty::Ref(Box::new(vec_of_i32()), Mutability::Shared)),
        None
    );
}

#[test]
fn lookup_method_after_one_autoderef() {
    let db = vec_db();
    let receiver = Ty::Ref(Box::new(vec_of_i32()), Mutability::Shared);
    let found = receiver.lookup_method(&db, &Name(LEN_NAME));
    assert_eq!(found, Some((vec_of_i32(), FunctionId(0))));
}

#[test]
fn lookup_method_without_deref() {
    let db = vec_db();
    let found = vec_of_i32().lookup_method(&db, &Name(LEN_NAME));
    assert_eq!(found, Some((vec_of_i32(), FunctionId(0))));
}

#[test]
fn lookup_method_skips_methods_without_self() {
    let db = vec_db();
    let found = vec_of_i32().lookup_method(&db, &Name(FREE_NAME));
    assert_eq!(found, None);
}

#[test]
fn lookup_method_on_unindexed_type_is_none() {
    let db = vec_db();
    let found = Ty::Ref(Box::new(Ty::Str), Mutability::Shared).lookup_method(&db, &Name(LEN_NAME));
    assert_eq!(found, None);
}

#[test]
fn rebuilding_the_index_gives_equal_indices() {
    let db = vec_db();
    let first = CrateImplBlocks::impls_in_crate_query(&db, 0);
    let second = CrateImplBlocks::impls_in_crate_query(&db, 0);
    assert_eq!(first, second);
}

#[test]
fn lookup_impl_blocks_finds_the_impl() {
    let db = vec_db();
    let cib = CrateImplBlocks::impls_in_crate_query(&db, 0);
    let blocks = cib.lookup_impl_blocks(&vec_of_i32());
    assert_eq!(blocks.len(), 1);
    assert_eq!(blocks[0].module_id, 0);
    assert_eq!(blocks[0].impl_id, 0);
    assert_eq!(cib.lookup_impl_blocks(&Ty::Bool).len(), 0);
}

#[test]
fn module_walk_order_is_parent_before_child() {
    // Two impls of the same struct, one in the root module and one in
    // a child module: the root's comes first in the bucket.
    let mut db = vec_db();
    db.impls.push(ImplData {
        target_type_ref: TypeRef::Path(ident_path(VEC_NAME)),
        target_trait: None,
        resolver: 0,
        items: vec![],
    });
    db.modules.push(ModuleData { children: vec![], impls: vec![1] });
    db.modules[0].children.push(1);
    let cib = CrateImplBlocks::impls_in_crate_query(&db, 0);
    let blocks = cib.lookup_impl_blocks(&vec_of_i32());
    assert_eq!(blocks.len(), 2);
    assert_eq!((blocks[0].module_id, blocks[0].impl_id), (0, 0));
    assert_eq!((blocks[1].module_id, blocks[1].impl_id), (1, 1));
}

#[test]
fn trait_impls_are_indexed_by_trait() {
    let mut db = vec_db();
    db.traits.push(TraitData { name: Name(FREE_NAME) });
    db.impls.push(ImplData {
        target_type_ref: TypeRef::Path(ident_path(VEC_NAME)),
        target_trait: Some(TraitId(0)),
        resolver: 0,
        items: vec![],
    });
    db.modules[0].impls.push(1);
    let cib = CrateImplBlocks::impls_in_crate_query(&db, 0);
    // The trait impl appears in both buckets: trait-keyed and, since
    // its self type has a fingerprint, type-keyed.
    let by_trait = cib.lookup_impl_blocks_for_trait(TraitId(0));
    assert_eq!(by_trait.len(), 1);
    assert_eq!(by_trait[0].impl_id, 1);
    let by_type = cib.lookup_impl_blocks(&vec_of_i32());
    assert_eq!(by_type.len(), 2);
}

#[test]
fn iterate_methods_visits_in_order_and_stops() {
    let db = vec_db();
    let receiver = Ty::Ref(Box::new(vec_of_i32()), Mutability::Shared);
    let first = receiver.iterate_methods(&db, |_ty: &Ty, f: FunctionId| Some(f));
    // The impl lists `free` before `len`.
    assert_eq!(first, Some(FunctionId(1)));
    let none = vec_of_i32().iterate_methods(&db, |_ty: &Ty, _f: FunctionId| None::<u32>);
    assert_eq!(none, None);
}

#[test]
fn iterate_impl_items_returns_the_first_answer() {
    // The callback answers on every item; the first item of the first
    // indexed impl wins.
    let db = vec_db();
    let first = vec_of_i32().iterate_impl_items(&db, |it: ImplItem| Some(it));
    assert_eq!(first, Some(ImplItem::Method(FunctionId(1))));
}

#[test]
fn iterate_impl_items_sees_every_item() {
    let db = vec_db();
    let item = vec_of_i32().iterate_impl_items(&db, |it: ImplItem| match it {
        ImplItem::Method(f) if f == FunctionId(0) => Some(f),
        _ => None,
    });
    assert_eq!(item, Some(FunctionId(0)));
    let nothing = Ty::Bool.iterate_impl_items(&db, |_it: ImplItem| None::<u32>);
    assert_eq!(nothing, None);
}

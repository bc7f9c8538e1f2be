use hir_ty::hir::{
    ConstData, ConstId, CrateData, EnumData, EnumId, EnumVariantData, EnumVariantId, FunctionData,
    FunctionId, GenericParam, GenericParams, HirDatabase, IntTy, Name, Namespace, Path,
    PathSegment, PerNs, Resolution, ResolverData, ResolverEntry, StaticData, StaticId, StructData,
    StructField, StructId, TypeRef, UncertainIntTy, VariantData, VariantDef, ModuleDef,
    FIRST_PLAIN_NAME, NAME_BOOL, NAME_I32, NAME_U32,
};
use hir_ty::lower::{
    callable_item_sig, fn_sig_for_enum_variant_constructor, fn_sig_for_struct_constructor,
    type_for_def, type_for_field, typable_from_module_def, TypableDef,
};
use hir_ty::hir::TraitId;
use hir_ty::ty::{AdtDef, CallableDef, FnSig, Substs, Ty};

fn ident_path(name: u32) -> Path {
    Path { segments: vec![PathSegment { name: Name(name), args_and_bindings: None }] }
}

fn no_generics() -> GenericParams {
    GenericParams { parent_params: None, params: vec![] }
}

fn base_db() -> HirDatabase {
    HirDatabase {
        functions: vec![],
        structs: vec![],
        enums: vec![],
        enum_variants: vec![],
        type_aliases: vec![],
        consts: vec![],
        statics: vec![],
        traits: vec![],
        impls: vec![],
        modules: vec![],
        crates: vec![CrateData { root_module: None }],
        resolvers: vec![ResolverData { entries: vec![], all_names: vec![] }],
    }
}

fn int_ty(k: IntTy) -> Ty {
    Ty::Int(UncertainIntTy::Known(k))
}

#[test]
fn function_signature_is_params_then_return() {
    let mut db = base_db();
    db.functions.push(FunctionData {
        name: Name(FIRST_PLAIN_NAME),
        has_self_param: false,
        params: vec![TypeRef::Path(ident_path(NAME_BOOL))],
        ret_type: TypeRef::Path(ident_path(NAME_U32)),
        generics: no_generics(),
        resolver: 0,
    });
    let sig = callable_item_sig(&db, CallableDef::Function(FunctionId(0)));
    assert_eq!(
        sig,
        FnSig { params_and_return: vec![Ty::Bool, int_ty(IntTy::U32)] }
    );
}

#[test]
fn tuple_struct_constructor_signature_returns_the_struct() {
    let mut db = base_db();
    db.structs.push(StructData {
        name: Name(FIRST_PLAIN_NAME + 8),
        krate: 0,
        variant_data: VariantData::Tuple(vec![
            TypeRef::Path(ident_path(NAME_BOOL)),
            TypeRef::Path(ident_path(NAME_I32)),
        ]),
        generics: no_generics(),
        resolver: 0,
    });
    let sig = fn_sig_for_struct_constructor(&db, StructId(0));
    assert_eq!(
        sig,
        FnSig {
            params_and_return: vec![
                Ty::Bool,
                int_ty(IntTy::I32),
                Ty::Adt { def_id: AdtDef::Struct(StructId(0)), substs: Substs(vec![]) },
            ],
        }
    );
    // The constructor's own type is the zero-sized item type.
    assert_eq!(
        type_for_def(&db, TypableDef::Struct(StructId(0)), Namespace::Values),
        Ty::FnDef { def: CallableDef::Struct(StructId(0)), substs: Substs(vec![]) }
    );
}

#[test]
fn unit_and_record_struct_names_are_the_struct_type() {
    let mut db = base_db();
    db.structs.push(StructData {
        name: Name(FIRST_PLAIN_NAME + 8),
        krate: 0,
        variant_data: VariantData::Unit,
        generics: no_generics(),
        resolver: 0,
    });
    db.structs.push(StructData {
        name: Name(FIRST_PLAIN_NAME + 8),
        krate: 0,
        variant_data: VariantData::Record(vec![TypeRef::Path(ident_path(NAME_BOOL))]),
        generics: no_generics(),
        resolver: 0,
    });
    let unit_ty = type_for_def(&db, TypableDef::Struct(StructId(0)), Namespace::Values);
    assert_eq!(
        unit_ty,
        Ty::Adt { def_id: AdtDef::Struct(StructId(0)), substs: Substs(vec![]) }
    );
    let record_ty = type_for_def(&db, TypableDef::Struct(StructId(1)), Namespace::Values);
    assert_eq!(
        record_ty,
        Ty::Adt { def_id: AdtDef::Struct(StructId(1)), substs: Substs(vec![]) }
    );
}

/// `enum Option<T> { Some(T) }` with `T` resolvable in the enum's own
/// scope.
fn option_db() -> HirDatabase {
    let t_name = FIRST_PLAIN_NAME;
    let mut db = base_db();
    db.enums.push(EnumData {
        name: Name(FIRST_PLAIN_NAME + 8),
        krate: 0,
        generics: GenericParams {
            parent_params: None,
            params: vec![GenericParam { idx: 0, name: Name(t_name) }],
        },
        resolver: 0,
    });
    db.enum_variants.push(EnumVariantData {
        parent_enum: 0,
        variant_data: VariantData::Tuple(vec![TypeRef::Path(ident_path(t_name))]),
    });
    db.resolvers[0].entries.push(ResolverEntry {
        key: vec![Name(t_name)],
        resolution: PerNs { types: Some(Resolution::GenericParam(0)), values: None },
    });
    db
}

#[test]
fn tuple_variant_constructor_signature_returns_the_enum() {
    let db = option_db();
    let t_name = FIRST_PLAIN_NAME;
    let sig = fn_sig_for_enum_variant_constructor(&db, EnumVariantId(0));
    let param_t = Ty::Param { idx: 0, name: Name(t_name) };
    assert_eq!(
        sig,
        FnSig {
            params_and_return: vec![
                param_t.duplicate(),
                Ty::Adt {
                    def_id: AdtDef::Enum(EnumId(0)),
                    substs: Substs(vec![param_t]),
                },
            ],
        }
    );
}

#[test]
fn tuple_variant_constructor_type_is_a_fn_def() {
    let db = option_db();
    let t_name = FIRST_PLAIN_NAME;
    let ty = type_for_def(&db, TypableDef::EnumVariant(EnumVariantId(0)), Namespace::Values);
    assert_eq!(
        ty,
        Ty::FnDef {
            def: CallableDef::EnumVariant(EnumVariantId(0)),
            substs: Substs(vec![Ty::Param { idx: 0, name: Name(t_name) }]),
        }
    );
}

#[test]
fn field_types_lower_under_the_owner_scope() {
    let mut db = base_db();
    db.structs.push(StructData {
        name: Name(FIRST_PLAIN_NAME + 8),
        krate: 0,
        variant_data: VariantData::Record(vec![
            TypeRef::Path(ident_path(NAME_BOOL)),
            TypeRef::Path(ident_path(NAME_I32)),
        ]),
        generics: no_generics(),
        resolver: 0,
    });
    let field1 = StructField { parent: VariantDef::Struct(StructId(0)), id: 1 };
    assert_eq!(type_for_field(&db, field1), int_ty(IntTy::I32));

    let db2 = option_db();
    let field0 = StructField { parent: VariantDef::EnumVariant(EnumVariantId(0)), id: 0 };
    assert_eq!(
        type_for_field(&db2, field0),
        Ty::Param { idx: 0, name: Name(FIRST_PLAIN_NAME) }
    );
}

#[test]
fn const_and_static_types_are_their_annotations() {
    let mut db = base_db();
    db.consts.push(ConstData { resolver: 0, type_ref: TypeRef::Path(ident_path(NAME_BOOL)) });
    db.statics.push(StaticData { resolver: 0, type_ref: TypeRef::Path(ident_path(NAME_U32)) });
    assert_eq!(
        type_for_def(&db, TypableDef::Const(ConstId(0)), Namespace::Values),
        Ty::Bool
    );
    assert_eq!(
        type_for_def(&db, TypableDef::Static(StaticId(0)), Namespace::Values),
        int_ty(IntTy::U32)
    );
}

#[test]
fn modules_and_traits_have_no_type() {
    assert_eq!(typable_from_module_def(ModuleDef::Module(0)), None);
    assert_eq!(typable_from_module_def(ModuleDef::Trait(TraitId(0))), None);
    assert_eq!(
        typable_from_module_def(ModuleDef::Struct(StructId(3))),
        Some(TypableDef::Struct(StructId(3)))
    );
}

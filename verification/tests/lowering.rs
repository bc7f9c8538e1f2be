use hir_ty::hir::{
    ConstData, CrateData, EnumData, EnumVariantData, FunctionData, GenericArg, GenericArgs,
    GenericParam, GenericParams, HirDatabase, ImplData, ModuleData, ModuleDef, Mutability, Name,
    Namespace, Path, PathSegment, PerNs, Resolution, ResolverData, ResolverEntry, StaticData,
    StructData, TypeAliasData, TypeRef, UncertainIntTy, IntTy, VariantData, NAME_BOOL, NAME_CHAR,
    NAME_STR, NAME_U32, NAME_U64, NAME_I32, NAME_U8, FIRST_PLAIN_NAME, EnumId, StructId,
    EnumVariantId, TypeAliasId, ConstId, FunctionId, StaticId,
};
use hir_ty::lower::{make_substs, type_for_def, TypableDef};
use hir_ty::ty::{AdtDef, Substs, Ty};

fn no_generics() -> GenericParams {
    GenericParams { parent_params: None, params: vec![] }
}

fn one_param(idx: u32, name: u32) -> GenericParams {
    GenericParams { parent_params: None, params: vec![GenericParam { idx, name: Name(name) }] }
}

fn empty_resolver() -> ResolverData {
    ResolverData { entries: vec![], all_names: vec![] }
}

fn empty_db() -> HirDatabase {
    HirDatabase {
        functions: vec![],
        structs: vec![],
        enums: vec![],
        enum_variants: vec![],
        type_aliases: vec![],
        consts: vec![],
        statics: vec![],
        traits: vec![],
        impls: vec![],
        modules: vec![],
        crates: vec![],
        resolvers: vec![empty_resolver()],
    }
}

fn ident_path(name: u32) -> Path {
    Path { segments: vec![PathSegment { name: Name(name), args_and_bindings: None }] }
}

fn seg(name: u32, args: Option<Vec<TypeRef>>) -> PathSegment {
    PathSegment {
        name: Name(name),
        args_and_bindings: args.map(|trs| GenericArgs {
            args: trs.into_iter().map(GenericArg::Type).collect(),
        }),
    }
}

fn type_entry(key: Vec<u32>, res: Resolution) -> ResolverEntry {
    ResolverEntry {
        key: key.into_iter().map(Name).collect(),
        resolution: PerNs { types: Some(res), values: None },
    }
}

#[test]
fn path_bool_lowers_to_bool() {
    let db = empty_db();
    let ty = Ty::from_hir_path(&db, 0, &ident_path(NAME_BOOL));
    assert_eq!(ty, Ty::Bool);
}

#[test]
fn path_u64_lowers_to_int() {
    let db = empty_db();
    let ty = Ty::from_hir_path(&db, 0, &ident_path(NAME_U64));
    assert_eq!(ty, Ty::Int(UncertainIntTy::Known(IntTy::U64)));
}

#[test]
fn primitive_name_wins_over_resolver() {
    // Even a scope that resolves `u32` to a struct does not shadow the
    // primitive: the resolver is never consulted.
    let mut db = empty_db();
    db.structs.push(StructData {
        name: Name(NAME_U32),
        krate: 0,
        variant_data: VariantData::Unit,
        generics: no_generics(),
        resolver: 0,
    });
    db.crates.push(CrateData { root_module: None });
    db.resolvers[0]
        .entries
        .push(type_entry(vec![NAME_U32], Resolution::Def(ModuleDef::Struct(StructId(0)))));
    let ty = Ty::from_hir_path(&db, 0, &ident_path(NAME_U32));
    assert_eq!(ty, Ty::Int(UncertainIntTy::Known(IntTy::U32)));
}

#[test]
fn reference_to_str_lowers_to_ref_str() {
    let db = empty_db();
    let tr = TypeRef::Reference(
        Box::new(TypeRef::Path(ident_path(NAME_STR))),
        Mutability::Shared,
    );
    let ty = Ty::from_hir(&db, 0, &tr);
    assert_eq!(ty, Ty::Ref(Box::new(Ty::Str), Mutability::Shared));
}

#[test]
fn structural_forms_lower() {
    let db = empty_db();
    assert_eq!(Ty::from_hir(&db, 0, &TypeRef::Never), Ty::Never);
    assert_eq!(Ty::from_hir(&db, 0, &TypeRef::Placeholder), Ty::Unknown);
    assert_eq!(Ty::from_hir(&db, 0, &TypeRef::Error), Ty::Unknown);
    let tup = TypeRef::Tuple(vec![
        TypeRef::Path(ident_path(NAME_BOOL)),
        TypeRef::Path(ident_path(NAME_CHAR)),
    ]);
    assert_eq!(Ty::from_hir(&db, 0, &tup), Ty::Tuple(vec![Ty::Bool, Ty::Char]));
    let unresolved = Ty::from_hir_path(&db, 0, &ident_path(FIRST_PLAIN_NAME));
    assert_eq!(unresolved, Ty::Unknown);
}

/// A database with `struct S<T, U>` known to the resolver under the
/// plain name `S`.
fn db_with_generic_struct() -> (HirDatabase, u32) {
    let s_name = FIRST_PLAIN_NAME;
    let mut db = empty_db();
    db.structs.push(StructData {
        name: Name(s_name),
        krate: 0,
        variant_data: VariantData::Unit,
        generics: GenericParams {
            parent_params: None,
            params: vec![
                GenericParam { idx: 0, name: Name(FIRST_PLAIN_NAME + 1) },
                GenericParam { idx: 1, name: Name(FIRST_PLAIN_NAME + 2) },
            ],
        },
        resolver: 0,
    });
    db.crates.push(CrateData { root_module: None });
    db.resolvers[0]
        .entries
        .push(type_entry(vec![s_name], Resolution::Def(ModuleDef::Struct(StructId(0)))));
    (db, s_name)
}

#[test]
fn missing_generic_args_pad_with_unknown() {
    let (db, s_name) = db_with_generic_struct();
    let p = Path {
        segments: vec![seg(s_name, Some(vec![TypeRef::Path(ident_path(NAME_I32))]))],
    };
    let ty = Ty::from_hir_path(&db, 0, &p);
    assert_eq!(
        ty,
        Ty::Adt {
            def_id: AdtDef::Struct(StructId(0)),
            substs: Substs(vec![Ty::Int(UncertainIntTy::Known(IntTy::I32)), Ty::Unknown]),
        }
    );
}

#[test]
fn excess_generic_args_are_ignored() {
    let (db, s_name) = db_with_generic_struct();
    let p = Path {
        segments: vec![seg(
            s_name,
            Some(vec![
                TypeRef::Path(ident_path(NAME_I32)),
                TypeRef::Path(ident_path(NAME_U8)),
                TypeRef::Path(ident_path(NAME_BOOL)),
            ]),
        )],
    };
    let ty = Ty::from_hir_path(&db, 0, &p);
    assert_eq!(
        ty,
        Ty::Adt {
            def_id: AdtDef::Struct(StructId(0)),
            substs: Substs(vec![
                Ty::Int(UncertainIntTy::Known(IntTy::I32)),
                Ty::Int(UncertainIntTy::Known(IntTy::U8)),
            ]),
        }
    );
}

#[test]
fn wrong_namespace_yields_unknown() {
    let mut db = empty_db();
    db.functions.push(FunctionData {
        name: Name(FIRST_PLAIN_NAME),
        has_self_param: false,
        params: vec![],
        ret_type: TypeRef::Path(ident_path(NAME_BOOL)),
        generics: no_generics(),
        resolver: 0,
    });
    db.enums.push(EnumData { name: Name(FIRST_PLAIN_NAME + 1), krate: 0, generics: no_generics(), resolver: 0 });
    db.enum_variants
        .push(EnumVariantData { parent_enum: 0, variant_data: VariantData::Unit });
    db.type_aliases.push(TypeAliasData {
        generics: no_generics(),
        resolver: 0,
        type_ref: TypeRef::Path(ident_path(NAME_BOOL)),
    });
    db.consts.push(ConstData { resolver: 0, type_ref: TypeRef::Path(ident_path(NAME_BOOL)) });
    db.statics.push(StaticData { resolver: 0, type_ref: TypeRef::Path(ident_path(NAME_BOOL)) });
    db.crates.push(CrateData { root_module: None });
    assert_eq!(
        type_for_def(&db, TypableDef::Function(FunctionId(0)), Namespace::Types),
        Ty::Unknown
    );
    assert_eq!(type_for_def(&db, TypableDef::Enum(EnumId(0)), Namespace::Values), Ty::Unknown);
    assert_eq!(
        type_for_def(&db, TypableDef::EnumVariant(EnumVariantId(0)), Namespace::Types),
        Ty::Unknown
    );
    assert_eq!(
        type_for_def(&db, TypableDef::TypeAlias(TypeAliasId(0)), Namespace::Values),
        Ty::Unknown
    );
    assert_eq!(type_for_def(&db, TypableDef::Const(ConstId(0)), Namespace::Types), Ty::Unknown);
    assert_eq!(type_for_def(&db, TypableDef::Static(StaticId(0)), Namespace::Types), Ty::Unknown);
    // And in the declared namespace the same items are not `Unknown`.
    assert_ne!(
        type_for_def(&db, TypableDef::Function(FunctionId(0)), Namespace::Values),
        Ty::Unknown
    );
    assert_ne!(type_for_def(&db, TypableDef::Enum(EnumId(0)), Namespace::Types), Ty::Unknown);
}

#[test]
fn make_substs_is_the_identity_substitution() {
    let gp = GenericParams {
        parent_params: Some(Box::new(one_param(0, FIRST_PLAIN_NAME))),
        params: vec![GenericParam { idx: 1, name: Name(FIRST_PLAIN_NAME + 1) }],
    };
    let s = make_substs(&gp);
    assert_eq!(s.0.len(), 2);
    assert_eq!(s.0[0], Ty::Param { idx: 0, name: Name(FIRST_PLAIN_NAME) });
    assert_eq!(s.0[1], Ty::Param { idx: 1, name: Name(FIRST_PLAIN_NAME + 1) });
}

#[test]
fn subst_replaces_params_and_fixes_unknown() {
    let s = Substs(vec![Ty::Bool, Ty::Char]);
    assert_eq!(Ty::Unknown.subst(&s), Ty::Unknown);
    assert_eq!(Ty::Param { idx: 0, name: Name(FIRST_PLAIN_NAME) }.subst(&s), Ty::Bool);
    assert_eq!(Ty::Param { idx: 1, name: Name(FIRST_PLAIN_NAME) }.subst(&s), Ty::Char);
    let nested = Ty::Tuple(vec![
        Ty::Param { idx: 1, name: Name(FIRST_PLAIN_NAME) },
        Ty::Ref(Box::new(Ty::Param { idx: 0, name: Name(FIRST_PLAIN_NAME) }), Mutability::Mut),
    ]);
    assert_eq!(
        nested.subst(&s),
        Ty::Tuple(vec![Ty::Char, Ty::Ref(Box::new(Ty::Bool), Mutability::Mut)])
    );
}

#[test]
fn identity_substitution_is_a_fixpoint() {
    // The declared type of `S<T, U>` mentions its own parameters;
    // substituting the identity substitution back in changes nothing.
    let (db, _s_name) = db_with_generic_struct();
    let declared = type_for_def(&db, TypableDef::Struct(StructId(0)), Namespace::Types);
    let identity = make_substs(&db.structs[0].generics);
    assert_eq!(declared.subst(&identity), declared);
}

/// A database with `enum Option<T> { None }` resolvable both as
/// `Option::None` and through the enum segment.
fn db_with_option_enum() -> (HirDatabase, u32, u32) {
    let opt_name = FIRST_PLAIN_NAME;
    let none_name = FIRST_PLAIN_NAME + 1;
    let mut db = empty_db();
    db.enums.push(EnumData {
        name: Name(opt_name),
        krate: 0,
        generics: one_param(0, FIRST_PLAIN_NAME + 2),
        resolver: 0,
    });
    db.enum_variants
        .push(EnumVariantData { parent_enum: 0, variant_data: VariantData::Unit });
    db.crates.push(CrateData { root_module: None });
    db.resolvers[0]
        .entries
        .push(type_entry(vec![opt_name], Resolution::Def(ModuleDef::Enum(EnumId(0)))));
    db.resolvers[0].entries.push(type_entry(
        vec![opt_name, none_name],
        Resolution::Def(ModuleDef::EnumVariant(EnumVariantId(0))),
    ));
    (db, opt_name, none_name)
}

#[test]
fn variant_path_with_enum_args_yields_enum_type() {
    // The unit-variant constructor named by `Option::<i32>::None`
    // returns the enum's type with the path's arguments substituted.
    // In the type namespace the same path has no type: a variant is
    // not a type of its own.
    let (db, opt_name, none_name) = db_with_option_enum();
    let p = Path {
        segments: vec![
            seg(opt_name, Some(vec![TypeRef::Path(ident_path(NAME_I32))])),
            seg(none_name, None),
        ],
    };
    let constructor =
        type_for_def(&db, TypableDef::EnumVariant(EnumVariantId(0)), Namespace::Values);
    let substs = Ty::substs_from_path(&db, 0, &p, TypableDef::EnumVariant(EnumVariantId(0)));
    assert_eq!(
        constructor.subst(&substs),
        Ty::Adt {
            def_id: AdtDef::Enum(EnumId(0)),
            substs: Substs(vec![Ty::Int(UncertainIntTy::Known(IntTy::I32))]),
        }
    );
    assert_eq!(Ty::from_hir_path(&db, 0, &p), Ty::Unknown);
}

#[test]
fn variant_args_on_either_segment_agree() {
    let (db, opt_name, none_name) = db_with_option_enum();
    let on_enum = Path {
        segments: vec![
            seg(opt_name, Some(vec![TypeRef::Path(ident_path(NAME_I32))])),
            seg(none_name, None),
        ],
    };
    let on_variant = Path {
        segments: vec![
            seg(opt_name, None),
            seg(none_name, Some(vec![TypeRef::Path(ident_path(NAME_I32))])),
        ],
    };
    let v = TypableDef::EnumVariant(EnumVariantId(0));
    assert_eq!(
        Ty::substs_from_path(&db, 0, &on_enum, v),
        Ty::substs_from_path(&db, 0, &on_variant, v)
    );
    assert_eq!(
        Ty::substs_from_path(&db, 0, &on_enum, v),
        Substs(vec![Ty::Int(UncertainIntTy::Known(IntTy::I32))])
    );
    assert_eq!(
        Ty::from_hir_path(&db, 0, &on_enum),
        Ty::from_hir_path(&db, 0, &on_variant)
    );
}

#[test]
fn self_type_in_impl_is_the_target_type() {
    // `impl Vec<T> { .. }`: `Self` lowers to `Vec<T>` with `T` still a
    // bound parameter of the impl's scope.
    let vec_name = FIRST_PLAIN_NAME;
    let t_name = FIRST_PLAIN_NAME + 1;
    let self_name = FIRST_PLAIN_NAME + 2;
    let mut db = empty_db();
    db.structs.push(StructData {
        name: Name(vec_name),
        krate: 0,
        variant_data: VariantData::Record(vec![]),
        generics: one_param(0, t_name),
        resolver: 0,
    });
    db.crates.push(CrateData { root_module: None });
    // Resolver 0: the outer scope naming `Vec`.
    db.resolvers[0]
        .entries
        .push(type_entry(vec![vec_name], Resolution::Def(ModuleDef::Struct(StructId(0)))));
    // Resolver 1: inside the impl; `Vec` and `T` are visible, `Self`
    // names the impl block.
    db.resolvers.push(ResolverData {
        entries: vec![
            type_entry(vec![vec_name], Resolution::Def(ModuleDef::Struct(StructId(0)))),
            type_entry(vec![t_name], Resolution::GenericParam(0)),
            type_entry(vec![self_name], Resolution::SelfType(0)),
        ],
        all_names: vec![],
    });
    db.impls.push(ImplData {
        target_type_ref: TypeRef::Path(Path {
            segments: vec![seg(vec_name, Some(vec![TypeRef::Path(ident_path(t_name))]))],
        }),
        target_trait: None,
        resolver: 1,
        items: vec![],
    });
    db.modules.push(ModuleData { children: vec![], impls: vec![0] });
    db.crates[0].root_module = Some(0);

    let ty = Ty::from_hir_path(&db, 1, &ident_path(self_name));
    assert_eq!(
        ty,
        Ty::Adt {
            def_id: AdtDef::Struct(StructId(0)),
            substs: Substs(vec![Ty::Param { idx: 0, name: Name(t_name) }]),
        }
    );
}

#[test]
fn type_alias_lowers_its_body() {
    // `type Pair<T> = (T, bool)` in the types namespace.
    let t_name = FIRST_PLAIN_NAME;
    let mut db = empty_db();
    db.resolvers.push(ResolverData {
        entries: vec![type_entry(vec![t_name], Resolution::GenericParam(0))],
        all_names: vec![],
    });
    db.type_aliases.push(TypeAliasData {
        generics: one_param(0, t_name),
        resolver: 1,
        type_ref: TypeRef::Tuple(vec![
            TypeRef::Path(ident_path(t_name)),
            TypeRef::Path(ident_path(NAME_BOOL)),
        ]),
    });
    let ty = type_for_def(&db, TypableDef::TypeAlias(TypeAliasId(0)), Namespace::Types);
    assert_eq!(
        ty,
        Ty::Tuple(vec![Ty::Param { idx: 0, name: Name(t_name) }, Ty::Bool])
    );
}

#[test]
fn readback_of_first_order_types_round_trips() {
    // A first-order type, read back into syntax and lowered again,
    // comes out unchanged — whatever the scope resolves.
    let db = empty_db();
    let tau = Ty::Tuple(vec![
        Ty::Bool,
        Ty::Ref(Box::new(Ty::Int(UncertainIntTy::Known(IntTy::U8))), Mutability::Mut),
        Ty::FnPtr(hir_ty::ty::FnSig { params_and_return: vec![Ty::Char, Ty::Never] }),
        Ty::Slice(Box::new(Ty::Str)),
    ]);
    let read_back = hir_ty::lower::ref_of(&db, &tau);
    assert_eq!(Ty::from_hir(&db, 0, &read_back), tau);
}

#[test]
fn readback_of_nominal_types_round_trips() {
    // A nominal application reads back as its definition's name with
    // the arguments read back in order, and lowers to itself in a
    // scope that resolves the name.
    let (db, _s_name) = db_with_generic_struct();
    let tau = Ty::Adt {
        def_id: AdtDef::Struct(StructId(0)),
        substs: Substs(vec![Ty::Bool, Ty::Ref(Box::new(Ty::Str), Mutability::Shared)]),
    };
    let read_back = hir_ty::lower::ref_of(&db, &tau);
    assert_eq!(Ty::from_hir(&db, 0, &read_back), tau);
}

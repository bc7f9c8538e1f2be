use hir_ty::completion::complete_pattern;
use hir_ty::hir::{
    ConstData, ConstId, CrateData, EnumData, EnumVariantData, EnumVariantId, EnumId, HirDatabase,
    GenericParams, ModuleDef, Name, PerNs, Resolution, ResolverData, StructData, StructId,
    TypeRef, VariantData, FIRST_PLAIN_NAME, NAME_BOOL,
};
use hir_ty::project::{
    config_file_candidates, CargoWorkspace, JsonCrate, JsonProject, JsonRoot, PackageRoot,
    ProjectWorkspace, Sysroot, SysrootCrateData, Edition,
};

fn s(text: &str) -> String {
    text.to_string()
}

#[test]
fn json_workspace_roots_and_count() {
    let ws = ProjectWorkspace::Json {
        project: JsonProject {
            roots: vec![JsonRoot { path: s("/a") }, JsonRoot { path: s("/b") }],
            crates: vec![JsonCrate {
                root_module: s("/a/lib.rs"),
                edition: Edition::Edition2018,
                deps: vec![],
            }],
        },
    };
    assert_eq!(ws.to_roots(), vec![s("/a"), s("/b")]);
    assert_eq!(ws.count(), 1);
}

#[test]
fn cargo_workspace_roots_and_count() {
    let ws = ProjectWorkspace::Cargo {
        cargo: CargoWorkspace {
            packages: vec![PackageRoot { root: s("/w/one") }, PackageRoot { root: s("/w/two") }],
        },
        sysroot: Sysroot { crates: vec![SysrootCrateData { root_dir: s("/sysroot/core") }] },
    };
    assert_eq!(ws.to_roots(), vec![s("/w/one"), s("/w/two"), s("/sysroot/core")]);
    assert_eq!(ws.count(), 2);
}

#[test]
fn config_candidates_walk_the_ancestors() {
    let path = vec![s("home"), s("proj")];
    let cands = config_file_candidates(&path, &s("rust-project.json"));
    assert_eq!(
        cands,
        vec![
            vec![s("home"), s("proj"), s("rust-project.json")],
            vec![s("home"), s("rust-project.json")],
            vec![s("rust-project.json")],
        ]
    );
}

#[test]
fn config_candidates_accept_the_file_itself() {
    let path = vec![s("proj"), s("rust-project.json")];
    let cands = config_file_candidates(&path, &s("rust-project.json"));
    assert_eq!(cands, vec![vec![s("proj"), s("rust-project.json")]]);
}

const E_NAME: u32 = FIRST_PLAIN_NAME;
const X_NAME: u32 = FIRST_PLAIN_NAME + 1;
const Z_NAME: u32 = FIRST_PLAIN_NAME + 2;
const M_NAME: u32 = FIRST_PLAIN_NAME + 3;
const BAR_NAME: u32 = FIRST_PLAIN_NAME + 4;
const FOO_NAME: u32 = FIRST_PLAIN_NAME + 5;

fn types_only(r: Resolution) -> PerNs {
    PerNs { types: Some(r), values: None }
}

fn values_only(r: Resolution) -> PerNs {
    PerNs { types: None, values: Some(r) }
}

#[test]
fn completes_enum_variants_consts_and_modules() {
    // A scope seeing `enum E { X }`, `use self::E::X`, `const Z`,
    // `mod m`, `struct Bar` and `fn foo`: a pattern offers E, X, Z and
    // m, in scope order, and nothing else.
    let db = HirDatabase {
        functions: vec![],
        structs: vec![StructData {
            name: Name(BAR_NAME),
            krate: 0,
            variant_data: VariantData::Record(vec![]),
            generics: GenericParams { parent_params: None, params: vec![] },
            resolver: 0,
        }],
        enums: vec![EnumData {
            name: Name(E_NAME),
            krate: 0,
            generics: GenericParams { parent_params: None, params: vec![] },
            resolver: 0,
        }],
        enum_variants: vec![EnumVariantData { parent_enum: 0, variant_data: VariantData::Unit }],
        type_aliases: vec![],
        consts: vec![ConstData { resolver: 0, type_ref: TypeRef::Error }],
        statics: vec![],
        traits: vec![],
        impls: vec![],
        modules: vec![hir_ty::hir::ModuleData { children: vec![], impls: vec![] }],
        crates: vec![CrateData { root_module: None }],
        resolvers: vec![ResolverData {
            entries: vec![],
            all_names: vec![
                (Name(E_NAME), types_only(Resolution::Def(ModuleDef::Enum(EnumId(0))))),
                (
                    Name(X_NAME),
                    values_only(Resolution::Def(ModuleDef::EnumVariant(EnumVariantId(0)))),
                ),
                (Name(Z_NAME), values_only(Resolution::Def(ModuleDef::Const(ConstId(0))))),
                (Name(M_NAME), types_only(Resolution::Def(ModuleDef::Module(0)))),
                (Name(BAR_NAME), types_only(Resolution::Def(ModuleDef::Struct(StructId(0))))),
                (Name(FOO_NAME), values_only(Resolution::LocalBinding(0))),
            ],
        }],
    };
    let offered = complete_pattern(&db, 0, true);
    assert_eq!(offered, vec![Name(E_NAME), Name(X_NAME), Name(Z_NAME), Name(M_NAME)]);
    let outside = complete_pattern(&db, 0, false);
    assert_eq!(outside, Vec::<Name>::new());
}

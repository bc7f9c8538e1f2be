//! The syntactic side of the core: interned names, item identities,
//! type references, paths, generic-parameter lists, and the snapshot
//! database that the lowering consults.
//!
//! Names are interned symbols. The symbols of the primitive type names
//! are fixed small values, so that recognising `bool` or `u32` in a
//! path is a comparison of symbols; an interner that maps source text
//! to symbols lives outside this crate.

use vstd::prelude::*;

verus! {

/// An interned name (symbol). Two names are the same name exactly when
/// their symbols are equal.
#[derive(Clone, Copy, Debug, PartialEq, Eq, Hash, Structural)]
pub struct Name(pub u32);

pub const NAME_BOOL: u32 = 1;
pub const NAME_CHAR: u32 = 2;
pub const NAME_STR: u32 = 3;
pub const NAME_ISIZE: u32 = 4;
pub const NAME_I8: u32 = 5;
pub const NAME_I16: u32 = 6;
pub const NAME_I32: u32 = 7;
pub const NAME_I64: u32 = 8;
pub const NAME_I128: u32 = 9;
pub const NAME_USIZE: u32 = 10;
pub const NAME_U8: u32 = 11;
pub const NAME_U16: u32 = 12;
pub const NAME_U32: u32 = 13;
pub const NAME_U64: u32 = 14;
pub const NAME_U128: u32 = 15;
pub const NAME_F32: u32 = 16;
pub const NAME_F64: u32 = 17;
/// First symbol that the interner may hand out for ordinary names.
pub const FIRST_PLAIN_NAME: u32 = 32;

// Identities of items. Each wraps an index into the corresponding
// table of `HirDatabase`.

#[derive(Clone, Copy, Debug, PartialEq, Eq, Hash, Structural)]
pub struct FunctionId(pub usize);

#[derive(Clone, Copy, Debug, PartialEq, Eq, Hash, Structural)]
pub struct StructId(pub usize);

#[derive(Clone, Copy, Debug, PartialEq, Eq, Hash, Structural)]
pub struct EnumId(pub usize);

#[derive(Clone, Copy, Debug, PartialEq, Eq, Hash, Structural)]
pub struct EnumVariantId(pub usize);

#[derive(Clone, Copy, Debug, PartialEq, Eq, Hash, Structural)]
pub struct TypeAliasId(pub usize);

#[derive(Clone, Copy, Debug, PartialEq, Eq, Hash, Structural)]
pub struct ConstId(pub usize);

#[derive(Clone, Copy, Debug, PartialEq, Eq, Hash, Structural)]
pub struct StaticId(pub usize);

#[derive(Clone, Copy, Debug, PartialEq, Eq, Hash, Structural)]
pub struct TraitId(pub usize);

/// `&T` versus `&mut T`, and `*const T` versus `*mut T`.
#[derive(Clone, Copy, Debug, PartialEq, Eq, Hash, Structural)]
pub enum Mutability {
    Shared,
    Mut,
}

/// Integer type with possibly-unspecified width and signedness.
#[derive(Clone, Copy, Debug, PartialEq, Eq, Hash, Structural)]
pub enum IntTy {
    Isize,
    I8,
    I16,
    I32,
    I64,
    I128,
    Usize,
    U8,
    U16,
    U32,
    U64,
    U128,
}

#[derive(Clone, Copy, Debug, PartialEq, Eq, Hash, Structural)]
pub enum UncertainIntTy {
    Unknown,
    Known(IntTy),
}

/// Float type with possibly-unspecified width. Only the name of the
/// width is carried; no float value ever appears here.
#[derive(Clone, Copy, Debug, PartialEq, Eq, Hash, Structural)]
pub enum FloatTy {
    F32,
    F64,
}

#[derive(Clone, Copy, Debug, PartialEq, Eq, Hash, Structural)]
pub enum UncertainFloatTy {
    Unknown,
    Known(FloatTy),
}

impl UncertainIntTy {
    pub open spec fn spec_from_name(name: Name) -> Option<UncertainIntTy> {
        if name.0 == NAME_ISIZE {
            Some(UncertainIntTy::Known(IntTy::Isize))
        } else if name.0 == NAME_I8 {
            Some(UncertainIntTy::Known(IntTy::I8))
        } else if name.0 == NAME_I16 {
            Some(UncertainIntTy::Known(IntTy::I16))
        } else if name.0 == NAME_I32 {
            Some(UncertainIntTy::Known(IntTy::I32))
        } else if name.0 == NAME_I64 {
            Some(UncertainIntTy::Known(IntTy::I64))
        } else if name.0 == NAME_I128 {
            Some(UncertainIntTy::Known(IntTy::I128))
        } else if name.0 == NAME_USIZE {
            Some(UncertainIntTy::Known(IntTy::Usize))
        } else if name.0 == NAME_U8 {
            Some(UncertainIntTy::Known(IntTy::U8))
        } else if name.0 == NAME_U16 {
            Some(UncertainIntTy::Known(IntTy::U16))
        } else if name.0 == NAME_U32 {
            Some(UncertainIntTy::Known(IntTy::U32))
        } else if name.0 == NAME_U64 {
            Some(UncertainIntTy::Known(IntTy::U64))
        } else if name.0 == NAME_U128 {
            Some(UncertainIntTy::Known(IntTy::U128))
        } else {
            None
        }
    }

    /// Recognise the name of an integer primitive.
    pub fn from_name(name: Name) -> (r: Option<UncertainIntTy>)
        ensures
            r == Self::spec_from_name(name),
    {
        if name.0 == NAME_ISIZE {
            Some(UncertainIntTy::Known(IntTy::Isize))
        } else if name.0 == NAME_I8 {
            Some(UncertainIntTy::Known(IntTy::I8))
        } else if name.0 == NAME_I16 {
            Some(UncertainIntTy::Known(IntTy::I16))
        } else if name.0 == NAME_I32 {
            Some(UncertainIntTy::Known(IntTy::I32))
        } else if name.0 == NAME_I64 {
            Some(UncertainIntTy::Known(IntTy::I64))
        } else if name.0 == NAME_I128 {
            Some(UncertainIntTy::Known(IntTy::I128))
        } else if name.0 == NAME_USIZE {
            Some(UncertainIntTy::Known(IntTy::Usize))
        } else if name.0 == NAME_U8 {
            Some(UncertainIntTy::Known(IntTy::U8))
        } else if name.0 == NAME_U16 {
            Some(UncertainIntTy::Known(IntTy::U16))
        } else if name.0 == NAME_U32 {
            Some(UncertainIntTy::Known(IntTy::U32))
        } else if name.0 == NAME_U64 {
            Some(UncertainIntTy::Known(IntTy::U64))
        } else if name.0 == NAME_U128 {
            Some(UncertainIntTy::Known(IntTy::U128))
        } else {
            None
        }
    }
}

impl UncertainFloatTy {
    pub open spec fn spec_from_name(name: Name) -> Option<UncertainFloatTy> {
        if name.0 == NAME_F32 {
            Some(UncertainFloatTy::Known(FloatTy::F32))
        } else if name.0 == NAME_F64 {
            Some(UncertainFloatTy::Known(FloatTy::F64))
        } else {
            None
        }
    }

    /// Recognise the name of a float primitive.
    pub fn from_name(name: Name) -> (r: Option<UncertainFloatTy>)
        ensures
            r == Self::spec_from_name(name),
    {
        if name.0 == NAME_F32 {
            Some(UncertainFloatTy::Known(FloatTy::F32))
        } else if name.0 == NAME_F64 {
            Some(UncertainFloatTy::Known(FloatTy::F64))
        } else {
            None
        }
    }
}

/// A syntactic type reference, as written in a declaration.
#[derive(Debug)]
pub enum TypeRef {
    Never,
    Placeholder,
    Tuple(Vec<TypeRef>),
    Path(Path),
    RawPtr(Box<TypeRef>, Mutability),
    Array(Box<TypeRef>),
    Slice(Box<TypeRef>),
    Reference(Box<TypeRef>, Mutability),
    Fn(Vec<TypeRef>),
    Error,
}

/// A path: a non-empty sequence of segments.
#[derive(Debug)]
pub struct Path {
    pub segments: Vec<PathSegment>,
}

#[derive(Debug)]
pub struct PathSegment {
    pub name: Name,
    pub args_and_bindings: Option<GenericArgs>,
}

#[derive(Debug)]
pub struct GenericArgs {
    pub args: Vec<GenericArg>,
}

#[derive(Debug)]
pub enum GenericArg {
    Type(TypeRef),
}

impl Path {
    /// The single name of a one-segment path.
    pub open spec fn spec_as_ident(&self) -> Option<Name> {
        if self.segments@.len() == 1 {
            Some(self.segments@[0].name)
        } else {
            None
        }
    }

    pub fn as_ident(&self) -> (r: Option<Name>)
        ensures
            r == self.spec_as_ident(),
    {
        if self.segments.len() == 1 {
            Some(self.segments[0].name)
        } else {
            None
        }
    }
}

/// Size of a type reference: one plus the sizes of its components.
/// Serves as the termination measure of the lowering.
pub open spec fn tr_size(tr: TypeRef) -> nat
    decreases tr, 1int,
    via tr_size_dec
{
    match tr {
        TypeRef::Never => 1,
        TypeRef::Placeholder => 1,
        TypeRef::Error => 1,
        TypeRef::Tuple(ts) => 1 + trs_size(ts@),
        TypeRef::Path(p) => 1 + path_size(p),
        TypeRef::RawPtr(b, m) => 1 + tr_size(*b),
        TypeRef::Array(b) => 1 + tr_size(*b),
        TypeRef::Slice(b) => 1 + tr_size(*b),
        TypeRef::Reference(b, m) => 1 + tr_size(*b),
        TypeRef::Fn(ts) => 1 + trs_size(ts@),
    }
}

#[via_fn]
proof fn tr_size_dec(tr: TypeRef) {
    match tr {
        TypeRef::Tuple(ts) => {
            assert(decreases_to!(tr => ts));
            assert(decreases_to!(ts => ts@));
        }
        TypeRef::Fn(ts) => {
            assert(decreases_to!(tr => ts));
            assert(decreases_to!(ts => ts@));
        }
        _ => {}
    }
}

pub open spec fn trs_size(trs: Seq<TypeRef>) -> nat
    decreases trs, 0int,
{
    if trs.len() == 0 {
        0
    } else {
        trs_size(trs.drop_last()) + tr_size(trs.last()) + 1
    }
}

pub open spec fn path_size(p: Path) -> nat
    decreases p, 1int,
    via path_size_dec
{
    1 + segs_size(p.segments@)
}

#[via_fn]
proof fn path_size_dec(p: Path) {
    assert(decreases_to!(p => p.segments));
    assert(decreases_to!(p.segments => p.segments@));
}

pub open spec fn segs_size(segs: Seq<PathSegment>) -> nat
    decreases segs, 0int,
{
    if segs.len() == 0 {
        0
    } else {
        segs_size(segs.drop_last()) + seg_size(segs.last()) + 1
    }
}

pub open spec fn seg_size(seg: PathSegment) -> nat
    decreases seg, 1int,
    via seg_size_dec
{
    match seg.args_and_bindings {
        Option::None => 1,
        Option::Some(ga) => 1 + args_size(ga.args@),
    }
}

#[via_fn]
proof fn seg_size_dec(seg: PathSegment) {
    match seg.args_and_bindings {
        Option::Some(ga) => {
            assert(decreases_to!(seg => ga));
            assert(decreases_to!(ga => ga.args));
            assert(decreases_to!(ga.args => ga.args@));
        }
        Option::None => {}
    }
}

pub open spec fn arg_size(arg: GenericArg) -> nat
    decreases arg, 1int,
{
    match arg {
        GenericArg::Type(tr) => 1 + tr_size(tr),
    }
}

pub open spec fn args_size(args: Seq<GenericArg>) -> nat
    decreases args, 0int,
{
    if args.len() == 0 {
        0
    } else {
        args_size(args.drop_last()) + arg_size(args.last()) + 1
    }
}

/// An element weighs strictly less than its sequence.
pub proof fn lemma_trs_size_elem(trs: Seq<TypeRef>, i: int)
    requires
        0 <= i < trs.len(),
    ensures
        tr_size(trs[i]) < trs_size(trs),
    decreases trs,
{
    if i == trs.len() - 1 {
        assert(trs.last() == trs[i]);
    } else {
        lemma_trs_size_elem(trs.drop_last(), i);
        assert(trs.drop_last()[i] == trs[i]);
    }
}

/// A segment weighs strictly less than its path.
pub proof fn lemma_segs_size_elem(segs: Seq<PathSegment>, i: int)
    requires
        0 <= i < segs.len(),
    ensures
        seg_size(segs[i]) < segs_size(segs),
    decreases segs,
{
    if i == segs.len() - 1 {
        assert(segs.last() == segs[i]);
    } else {
        lemma_segs_size_elem(segs.drop_last(), i);
        assert(segs.drop_last()[i] == segs[i]);
    }
}

/// An argument weighs strictly less than its list.
pub proof fn lemma_args_size_elem(args: Seq<GenericArg>, i: int)
    requires
        0 <= i < args.len(),
    ensures
        arg_size(args[i]) < args_size(args),
    decreases args,
{
    if i == args.len() - 1 {
        assert(args.last() == args[i]);
    } else {
        lemma_args_size_elem(args.drop_last(), i);
        assert(args.drop_last()[i] == args[i]);
    }
}

/// One declared generic parameter. `idx` is the position in the full
/// parent-including list.
#[derive(Clone, Copy, Debug, PartialEq, Eq, Hash, Structural)]
pub struct GenericParam {
    pub idx: u32,
    pub name: Name,
}

/// The generic parameters declared at one definition, together with
/// the parameters of its parent definition (enum for a variant, impl
/// or trait for a method).
#[derive(Debug)]
pub struct GenericParams {
    pub parent_params: Option<Box<GenericParams>>,
    pub params: Vec<GenericParam>,
}

impl GenericParams {
    /// Number of parameters contributed by ancestors.
    pub open spec fn spec_count_parent(&self) -> nat
        decreases *self, 0int,
    {
        match &self.parent_params {
            Option::None => 0nat,
            Option::Some(p) => p.spec_count_including(),
        }
    }

    /// Number of parameters including every ancestor's.
    pub open spec fn spec_count_including(&self) -> nat
        decreases *self, 1int,
    {
        self.spec_count_parent() + self.params@.len()
    }

    /// The full list: ancestors' parameters first, own parameters last.
    pub open spec fn spec_params_including(&self) -> Seq<GenericParam>
        decreases *self,
    {
        match &self.parent_params {
            Option::None => self.params@,
            Option::Some(p) => p.spec_params_including() + self.params@,
        }
    }

    /// Positions in the full list are the declared indices, and the
    /// whole count fits in a `u32`.
    pub open spec fn wf(&self) -> bool {
        &&& self.spec_count_including() <= u32::MAX
        &&& forall|i: int|
            0 <= i < self.spec_params_including().len()
                ==> (#[trigger] self.spec_params_including()[i]).idx == i
    }

    /// The full parameter list has exactly the full count of entries.
    pub proof fn lemma_counts(&self)
        ensures
            self.spec_params_including().len() == self.spec_count_including(),
        decreases *self,
    {
        match &self.parent_params {
            Option::None => {}
            Option::Some(p) => {
                p.lemma_counts();
            }
        }
    }

    pub fn count_parent_params(&self) -> (r: usize)
        requires
            self.spec_count_including() <= u32::MAX,
        ensures
            r == self.spec_count_parent(),
        decreases *self, 0int,
    {
        match &self.parent_params {
            Option::None => 0,
            Option::Some(p) => p.count_params_including_parent(),
        }
    }

    pub fn count_params_including_parent(&self) -> (r: usize)
        requires
            self.spec_count_including() <= u32::MAX,
        ensures
            r == self.spec_count_including(),
        decreases *self, 1int,
    {
        self.count_parent_params() + self.params.len()
    }

    /// Materialise the full parent-including parameter list.
    pub fn params_including_parent(&self) -> (r: Vec<GenericParam>)
        ensures
            r@ == self.spec_params_including(),
        decreases *self,
    {
        let mut out: Vec<GenericParam> = match &self.parent_params {
            Option::None => Vec::new(),
            Option::Some(p) => p.params_including_parent(),
        };
        let ghost prefix = out@;
        let mut i: usize = 0;
        while i < self.params.len()
            invariant
                i <= self.params@.len(),
                out@ == prefix + self.params@.take(i as int),
            decreases self.params@.len() - i,
        {
            out.push(self.params[i]);
            proof {
                assert(prefix + self.params@.take(i as int) + seq![self.params@[i as int]]
                    =~= prefix + self.params@.take(i + 1));
            }
            i = i + 1;
        }
        proof {
            assert(self.params@.take(self.params@.len() as int) =~= self.params@);
            match &self.parent_params {
                Option::None => {
                    assert(out@ =~= self.spec_params_including());
                }
                Option::Some(p) => {
                    assert(out@ =~= self.spec_params_including());
                }
            }
        }
        out
    }
}

/// Everything a module can hold a definition of.
#[derive(Clone, Copy, Debug, PartialEq, Eq, Hash, Structural)]
pub enum ModuleDef {
    Module(usize),
    Function(FunctionId),
    Struct(StructId),
    Enum(EnumId),
    EnumVariant(EnumVariantId),
    Const(ConstId),
    Static(StaticId),
    Trait(TraitId),
    TypeAlias(TypeAliasId),
}

/// What a path resolves to in one namespace.
#[derive(Clone, Copy, Debug, PartialEq, Eq, Hash, Structural)]
pub enum Resolution {
    /// An item definition.
    Def(ModuleDef),
    /// A local binding: never legal in the type namespace.
    LocalBinding(usize),
    /// A generic parameter, by its parent-including index.
    GenericParam(u32),
    /// `Self` inside the impl block with the given id.
    SelfType(usize),
}

/// A resolution per namespace.
#[derive(Clone, Copy, Debug, PartialEq, Eq, Hash, Structural)]
pub struct PerNs {
    pub types: Option<Resolution>,
    pub values: Option<Resolution>,
}

/// The two item namespaces.
#[derive(Clone, Copy, Debug, PartialEq, Eq, Hash, Structural)]
pub enum Namespace {
    Types,
    Values,
}

/// The fields of a struct or enum variant: none, positional, or named.
/// Only the field types are kept; record-field names play no role here.
#[derive(Debug)]
pub enum VariantData {
    Unit,
    Tuple(Vec<TypeRef>),
    Record(Vec<TypeRef>),
}

/// A struct or an enum variant, as the owner of fields.
#[derive(Clone, Copy, Debug, PartialEq, Eq, Hash, Structural)]
pub enum VariantDef {
    Struct(StructId),
    EnumVariant(EnumVariantId),
}

/// A field, identified by its owner and its position.
#[derive(Clone, Copy, Debug, PartialEq, Eq, Hash, Structural)]
pub struct StructField {
    pub parent: VariantDef,
    pub id: usize,
}

/// An item of an impl block.
#[derive(Clone, Copy, Debug, PartialEq, Eq, Hash, Structural)]
pub enum ImplItem {
    Method(FunctionId),
    Const(ConstId),
    TypeAlias(TypeAliasId),
}

pub struct FunctionData {
    pub name: Name,
    pub has_self_param: bool,
    pub params: Vec<TypeRef>,
    pub ret_type: TypeRef,
    pub generics: GenericParams,
    pub resolver: usize,
}

pub struct StructData {
    pub name: Name,
    pub krate: usize,
    pub variant_data: VariantData,
    pub generics: GenericParams,
    pub resolver: usize,
}

pub struct EnumData {
    pub name: Name,
    pub krate: usize,
    pub generics: GenericParams,
    pub resolver: usize,
}

pub struct EnumVariantData {
    pub parent_enum: usize,
    pub variant_data: VariantData,
}

pub struct TypeAliasData {
    pub generics: GenericParams,
    pub resolver: usize,
    pub type_ref: TypeRef,
}

pub struct ConstData {
    pub resolver: usize,
    pub type_ref: TypeRef,
}

pub struct StaticData {
    pub resolver: usize,
    pub type_ref: TypeRef,
}

pub struct TraitData {
    pub name: Name,
}

pub struct ImplData {
    pub target_type_ref: TypeRef,
    pub target_trait: Option<TraitId>,
    pub resolver: usize,
    pub items: Vec<ImplItem>,
}

pub struct ModuleData {
    /// Child modules, in declaration order. Each child id is greater
    /// than the parent's id: module ids are assigned in a preorder walk.
    pub children: Vec<usize>,
    /// Impl blocks declared in this module, in declaration order.
    pub impls: Vec<usize>,
}

pub struct CrateData {
    pub root_module: Option<usize>,
}

/// One scope's answer for one path, keyed by the segment names.
pub struct ResolverEntry {
    pub key: Vec<Name>,
    pub resolution: PerNs,
}

/// A resolver: the name-resolution answers of one scope.
pub struct ResolverData {
    /// Path resolutions; the first entry whose key matches wins.
    pub entries: Vec<ResolverEntry>,
    /// Every name visible in the scope, for consumers that enumerate.
    pub all_names: Vec<(Name, PerNs)>,
}

/// An immutable snapshot of the analysed input: every item's data,
/// the module trees of every crate, and the resolver of every scope.
pub struct HirDatabase {
    pub functions: Vec<FunctionData>,
    pub structs: Vec<StructData>,
    pub enums: Vec<EnumData>,
    pub enum_variants: Vec<EnumVariantData>,
    pub type_aliases: Vec<TypeAliasData>,
    pub consts: Vec<ConstData>,
    pub statics: Vec<StaticData>,
    pub traits: Vec<TraitData>,
    pub impls: Vec<ImplData>,
    pub modules: Vec<ModuleData>,
    pub crates: Vec<CrateData>,
    pub resolvers: Vec<ResolverData>,
}

impl HirDatabase {
    pub open spec fn resolver_in_range(&self, r: usize) -> bool {
        r < self.resolvers@.len()
    }

    /// Every id stored in a resolution points into the snapshot.
    pub open spec fn wf_module_def(&self, d: ModuleDef) -> bool {
        match d {
            ModuleDef::Module(m) => m < self.modules@.len(),
            ModuleDef::Function(f) => f.0 < self.functions@.len(),
            ModuleDef::Struct(s) => s.0 < self.structs@.len(),
            ModuleDef::Enum(e) => e.0 < self.enums@.len(),
            ModuleDef::EnumVariant(v) => v.0 < self.enum_variants@.len(),
            ModuleDef::Const(c) => c.0 < self.consts@.len(),
            ModuleDef::Static(s) => s.0 < self.statics@.len(),
            ModuleDef::Trait(t) => true,
            ModuleDef::TypeAlias(t) => t.0 < self.type_aliases@.len(),
        }
    }

    pub open spec fn wf_resolution(&self, r: Resolution) -> bool {
        match r {
            Resolution::Def(d) => self.wf_module_def(d),
            Resolution::LocalBinding(b) => true,
            Resolution::GenericParam(idx) => true,
            Resolution::SelfType(im) => im < self.impls@.len(),
        }
    }

    /// The resolver invariants: ids in range; no local binding in the
    /// type namespace; a generic-param answer only under a single-name
    /// key (the lowering treats either breach as a fatal collaborator
    /// bug, so a well-formed snapshot excludes them).
    pub open spec fn wf_resolver_entry(&self, e: ResolverEntry) -> bool {
        &&& match e.resolution.types {
            Option::None => true,
            Option::Some(r) => {
                &&& self.wf_resolution(r)
                &&& !(r is LocalBinding)
                &&& (r is GenericParam ==> e.key@.len() == 1)
            }
        }
        &&& match e.resolution.values {
            Option::None => true,
            Option::Some(r) => self.wf_resolution(r),
        }
    }

    pub open spec fn wf_resolver(&self, rd: ResolverData) -> bool {
        &&& forall|i: int|
            0 <= i < rd.entries@.len() ==> self.wf_resolver_entry(#[trigger] rd.entries@[i])
        &&& forall|i: int|
            0 <= i < rd.all_names@.len() ==> match (#[trigger] rd.all_names@[i]).1.types {
                Option::None => true,
                Option::Some(r) => self.wf_resolution(r),
            } && match rd.all_names@[i].1.values {
                Option::None => true,
                Option::Some(r) => self.wf_resolution(r),
            }
    }

    /// Well-formedness of the whole snapshot.
    pub open spec fn wf(&self) -> bool {
        &&& forall|i: int|
            0 <= i < self.functions@.len() ==> {
                let f = #[trigger] self.functions@[i];
                &&& f.resolver < self.resolvers@.len()
                &&& f.generics.wf()
            }
        &&& forall|i: int|
            0 <= i < self.structs@.len() ==> {
                let s = #[trigger] self.structs@[i];
                &&& s.krate < self.crates@.len()
                &&& s.resolver < self.resolvers@.len()
                &&& s.generics.wf()
            }
        &&& forall|i: int|
            0 <= i < self.enums@.len() ==> {
                let e = #[trigger] self.enums@[i];
                &&& e.krate < self.crates@.len()
                &&& e.resolver < self.resolvers@.len()
                &&& e.generics.wf()
            }
        &&& forall|i: int|
            0 <= i < self.enum_variants@.len()
                ==> (#[trigger] self.enum_variants@[i]).parent_enum < self.enums@.len()
        &&& forall|i: int|
            0 <= i < self.type_aliases@.len() ==> {
                let t = #[trigger] self.type_aliases@[i];
                &&& t.resolver < self.resolvers@.len()
                &&& t.generics.wf()
            }
        &&& forall|i: int|
            0 <= i < self.consts@.len()
                ==> (#[trigger] self.consts@[i]).resolver < self.resolvers@.len()
        &&& forall|i: int|
            0 <= i < self.statics@.len()
                ==> (#[trigger] self.statics@[i]).resolver < self.resolvers@.len()
        &&& forall|i: int|
            0 <= i < self.impls@.len() ==> {
                let im = #[trigger] self.impls@[i];
                &&& im.resolver < self.resolvers@.len()
                &&& match im.target_trait {
                    Option::None => true,
                    Option::Some(t) => t.0 < self.traits@.len(),
                }
                &&& forall|j: int|
                    0 <= j < im.items@.len() ==> match #[trigger] im.items@[j] {
                        ImplItem::Method(f) => f.0 < self.functions@.len(),
                        ImplItem::Const(c) => true,
                        ImplItem::TypeAlias(t) => true,
                    }
            }
        &&& forall|i: int|
            0 <= i < self.modules@.len() ==> {
                let m = #[trigger] self.modules@[i];
                &&& forall|j: int|
                    0 <= j < m.children@.len()
                        ==> i < #[trigger] m.children@[j] && m.children@[j] < self.modules@.len()
                &&& forall|j: int|
                    0 <= j < m.impls@.len() ==> #[trigger] m.impls@[j] < self.impls@.len()
            }
        &&& forall|i: int|
            0 <= i < self.crates@.len() ==> match (#[trigger] self.crates@[i]).root_module {
                Option::None => true,
                Option::Some(m) => m < self.modules@.len(),
            }
        &&& forall|i: int|
            0 <= i < self.resolvers@.len() ==> self.wf_resolver(#[trigger] self.resolvers@[i])
        &&& self.type_aliases@.len() + self.impls@.len() + 1 <= usize::MAX
    }

    /// The recursion budget of the lowering on this snapshot: one unit
    /// per indirection through a stored type reference (a type alias
    /// body or an impl's self type), so any acyclic chain fits.
    pub open spec fn spec_lowering_fuel(&self) -> nat {
        (self.type_aliases@.len() + self.impls@.len() + 1) as nat
    }

    pub fn lowering_fuel(&self) -> (r: usize)
        requires
            self.wf(),
        ensures
            r == self.spec_lowering_fuel(),
    {
        self.type_aliases.len() + self.impls.len() + 1
    }

    /// Whether a key names the same path: the same names in the same
    /// order. Generic arguments play no part in resolution.
    pub open spec fn spec_key_matches(key: Seq<Name>, path: Path) -> bool {
        &&& key.len() == path.segments@.len()
        &&& forall|i: int| 0 <= i < key.len() ==> (#[trigger] key[i]) == path.segments@[i].name
    }

    /// The first matching entry of the resolver, if any.
    pub open spec fn spec_resolve_from(rd: ResolverData, path: Path, i: int) -> Option<PerNs>
        decreases rd.entries@.len() - i,
    {
        if i < 0 || i >= rd.entries@.len() {
            None
        } else if Self::spec_key_matches(rd.entries@[i].key@, path) {
            Some(rd.entries@[i].resolution)
        } else {
            Self::spec_resolve_from(rd, path, i + 1)
        }
    }

    /// Resolve a path in the given scope: the first entry whose key
    /// has the path's segment names wins.
    pub open spec fn spec_resolve_path(&self, resolver: usize, path: Path) -> Option<PerNs> {
        Self::spec_resolve_from(self.resolvers@[resolver as int], path, 0)
    }

    pub fn resolve_path(&self, resolver: usize, path: &Path) -> (r: Option<PerNs>)
        requires
            self.wf(),
            self.resolver_in_range(resolver),
        ensures
            r == self.spec_resolve_path(resolver, *path),
            match r {
                Option::None => true,
                Option::Some(p) => {
                    &&& match p.types {
                        Option::None => true,
                        Option::Some(t) => {
                            &&& self.wf_resolution(t)
                            &&& !(t is LocalBinding)
                            &&& (t is GenericParam ==> path.segments@.len() == 1)
                        }
                    }
                    &&& match p.values {
                        Option::None => true,
                        Option::Some(v) => self.wf_resolution(v),
                    }
                },
            },
    {
        let rd = &self.resolvers[resolver];
        let mut i: usize = 0;
        while i < rd.entries.len()
            invariant
                self.wf(),
                resolver < self.resolvers@.len(),
                rd == &self.resolvers@[resolver as int],
                i <= rd.entries@.len(),
                Self::spec_resolve_from(*rd, *path, 0) == Self::spec_resolve_from(
                    *rd,
                    *path,
                    i as int,
                ),
            decreases rd.entries@.len() - i,
        {
            let e = &rd.entries[i];
            if Self::key_matches(&e.key, path) {
                proof {
                    assert(self.wf_resolver(self.resolvers@[resolver as int]));
                    assert(self.wf_resolver_entry(rd.entries@[i as int]));
                }
                return Some(e.resolution);
            }
            i = i + 1;
        }
        None
    }

    /// Whether a key spells a run of names.
    pub open spec fn spec_key_matches_names(key: Seq<Name>, names: Seq<Name>) -> bool {
        &&& key.len() == names.len()
        &&& forall|i: int| 0 <= i < key.len() ==> (#[trigger] key[i]) == names[i]
    }

    /// Resolution by segment names alone: the same first-match walk as
    /// `spec_resolve_path`, phrased over the names a path spells.
    pub open spec fn spec_resolve_names_from(rd: ResolverData, names: Seq<Name>, i: int) -> Option<
        PerNs,
    >
        decreases rd.entries@.len() - i,
    {
        if i < 0 || i >= rd.entries@.len() {
            None
        } else if Self::spec_key_matches_names(rd.entries@[i].key@, names) {
            Some(rd.entries@[i].resolution)
        } else {
            Self::spec_resolve_names_from(rd, names, i + 1)
        }
    }

    pub open spec fn spec_resolve_names(&self, resolver: usize, names: Seq<Name>) -> Option<
        PerNs,
    > {
        Self::spec_resolve_names_from(self.resolvers@[resolver as int], names, 0)
    }

    /// The names a path spells.
    pub open spec fn spec_path_names(path: Path) -> Seq<Name> {
        Seq::new(path.segments@.len(), |i: int| path.segments@[i].name)
    }

    /// Resolving a path is resolving the names it spells.
    pub proof fn lemma_resolve_path_by_names(rd: ResolverData, path: Path, i: int)
        ensures
            Self::spec_resolve_from(rd, path, i) == Self::spec_resolve_names_from(
                rd,
                Self::spec_path_names(path),
                i,
            ),
        decreases rd.entries@.len() - i,
    {
        if 0 <= i < rd.entries@.len() {
            let key = rd.entries@[i].key@;
            let names = Self::spec_path_names(path);
            assert(Self::spec_key_matches(key, path) == Self::spec_key_matches_names(
                key,
                names,
            )) by {
                if Self::spec_key_matches(key, path) {
                    assert forall|j: int| 0 <= j < key.len() implies (#[trigger] key[j])
                        == names[j] by {
                        assert(key[j] == path.segments@[j].name);
                    }
                }
                if Self::spec_key_matches_names(key, names) {
                    assert forall|j: int| 0 <= j < key.len() implies (#[trigger] key[j])
                        == path.segments@[j].name by {
                        assert(key[j] == names[j]);
                    }
                }
            }
            Self::lemma_resolve_path_by_names(rd, path, i + 1);
        }
    }

    /// Resolution reads only the segment names of a path: two paths
    /// with the same names resolve alike, whatever arguments they
    /// carry.
    pub proof fn lemma_resolve_only_names(rd: ResolverData, p1: Path, p2: Path, i: int)
        requires
            p1.segments@.len() == p2.segments@.len(),
            forall|j: int|
                0 <= j < p1.segments@.len() ==> (#[trigger] p1.segments@[j]).name
                    == p2.segments@[j].name,
        ensures
            Self::spec_resolve_from(rd, p1, i) == Self::spec_resolve_from(rd, p2, i),
        decreases rd.entries@.len() - i,
    {
        if 0 <= i < rd.entries@.len() {
            let key = rd.entries@[i].key@;
            assert(Self::spec_key_matches(key, p1) == Self::spec_key_matches(key, p2)) by {
                if Self::spec_key_matches(key, p1) {
                    assert forall|j: int| 0 <= j < key.len() implies (#[trigger] key[j])
                        == p2.segments@[j].name by {
                        assert(key[j] == p1.segments@[j].name);
                    }
                }
                if Self::spec_key_matches(key, p2) {
                    assert forall|j: int| 0 <= j < key.len() implies (#[trigger] key[j])
                        == p1.segments@[j].name by {
                        assert(key[j] == p2.segments@[j].name);
                    }
                }
            }
            Self::lemma_resolve_only_names(rd, p1, p2, i + 1);
        }
    }

    fn key_matches(key: &Vec<Name>, path: &Path) -> (r: bool)
        ensures
            r == Self::spec_key_matches(key@, *path),
    {
        if key.len() != path.segments.len() {
            return false;
        }
        let mut i: usize = 0;
        while i < key.len()
            invariant
                key@.len() == path.segments@.len(),
                i <= key@.len(),
                forall|j: int| 0 <= j < i ==> (#[trigger] key@[j]) == path.segments@[j].name,
            decreases key@.len() - i,
        {
            if key[i].0 != path.segments[i].name.0 {
                return false;
            }
            i = i + 1;
        }
        true
    }
}

} // verus!

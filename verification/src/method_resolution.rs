//! The per-crate index of impl blocks, and method lookup on a receiver
//! type along its autoderef chain.
//!
//! The index is built once per crate by walking the module tree depth
//! first, parent before children, in declaration order. Inherent impls
//! are keyed by the coarse fingerprint of the lowered self type; trait
//! impls by the trait. The order within a bucket is the walk order,
//! and it is observable through the lookups.

use vstd::prelude::*;

use crate::hir::{FunctionId, HirDatabase, ImplItem, Name, TraitId};
use crate::lower::spec_from_hir;
use crate::ty::{ty_view, AdtDef, Ty, TySpec};

verus! {

/// Coarse key for indexing impls: only a nominal ADT type has one.
#[derive(Clone, Copy, Debug, PartialEq, Eq, Hash, Structural)]
pub enum TyFingerprint {
    Adt(AdtDef),
}

/// The fingerprint of a type: its ADT head, if it has one. A struct
/// `S` can carry an `impl S`, but `&S` or a tuple cannot carry an
/// inherent impl, so every other shape has no key.
pub open spec fn spec_for_impl(t: TySpec) -> Option<TyFingerprint> {
    match t {
        TySpec::Adt { def_id, substs } => Some(TyFingerprint::Adt(def_id)),
        _ => None,
    }
}

impl TyFingerprint {
    /// Key a type for impl lookup; `None` for every non-ADT shape.
    pub fn for_impl(ty: &Ty) -> (r: Option<TyFingerprint>)
        ensures
            r == spec_for_impl(ty@),
            (r is Some) <==> (ty@ is Adt),
    {
        match ty {
            Ty::Adt { def_id, substs } => Some(TyFingerprint::Adt(*def_id)),
            _ => None,
        }
    }
}

/// A type has a fingerprint exactly when it is an ADT application.
pub proof fn lemma_fingerprint_iff_adt(t: TySpec)
    ensures
        (spec_for_impl(t) is Some) <==> (t is Adt),
        t matches TySpec::Adt { def_id, substs } ==> spec_for_impl(t) == Some(
            TyFingerprint::Adt(def_id),
        ),
{
}

/// An impl block, located by its module and its id within the crate.
#[derive(Clone, Copy, Debug, PartialEq, Eq, Hash, Structural)]
pub struct ImplBlock {
    pub krate: usize,
    pub module_id: usize,
    pub impl_id: usize,
}

/// The lowered self type of an impl block.
pub open spec fn spec_target_ty(db: HirDatabase, impl_id: int) -> TySpec {
    spec_from_hir(
        db,
        db.impls@[impl_id].resolver,
        db.impls@[impl_id].target_type_ref,
        db.spec_lowering_fuel(),
    )
}

/// The crate a nominal type's definition lives in; `None` for every
/// non-nominal type.
pub open spec fn spec_def_crate(db: HirDatabase, t: TySpec) -> Option<usize> {
    match t {
        TySpec::Adt { def_id: AdtDef::Struct(s), substs } => if s.0 < db.structs@.len() {
            Some(db.structs@[s.0 as int].krate)
        } else {
            None
        },
        TySpec::Adt { def_id: AdtDef::Enum(e), substs } => if e.0 < db.enums@.len() {
            Some(db.enums@[e.0 as int].krate)
        } else {
            None
        },
        _ => None,
    }
}

/// The crate of a type's definition.
pub fn def_crate(db: &HirDatabase, ty: &Ty) -> (r: Option<usize>)
    requires
        db.wf(),
    ensures
        r == spec_def_crate(*db, ty@),
        r matches Some(k) ==> k < db.crates@.len(),
    {
    match ty {
        Ty::Adt { def_id: AdtDef::Struct(s), substs } => {
            if s.0 < db.structs.len() {
                Some(db.structs[s.0].krate)
            } else {
                None
            }
        }
        Ty::Adt { def_id: AdtDef::Enum(e), substs } => {
            if e.0 < db.enums.len() {
                Some(db.enums[e.0].krate)
            } else {
                None
            }
        }
        _ => None,
    }
}

/// The fingerprint under which the index records an impl: the ADT head
/// of its lowered self type, provided that head's definition lies in
/// the snapshot.
pub open spec fn spec_indexable_fp(db: HirDatabase, impl_id: int) -> Option<TyFingerprint> {
    match spec_for_impl(spec_target_ty(db, impl_id)) {
        Some(TyFingerprint::Adt(AdtDef::Struct(s))) => if s.0 < db.structs@.len() {
            Some(TyFingerprint::Adt(AdtDef::Struct(s)))
        } else {
            None
        },
        Some(TyFingerprint::Adt(AdtDef::Enum(e))) => if e.0 < db.enums@.len() {
            Some(TyFingerprint::Adt(AdtDef::Enum(e)))
        } else {
            None
        },
        None => None,
    }
}

/// The (module, impl) pairs of one module, in declaration order.
pub open spec fn spec_module_pairs(db: HirDatabase, m: int) -> Seq<(usize, usize)> {
    Seq::new(db.modules@[m].impls@.len(), |i: int| (m as usize, db.modules@[m].impls@[i]))
}

/// The (module, impl) pairs of a module subtree: the module's own
/// impls first, then each child subtree in order.
pub open spec fn spec_impl_walk(db: HirDatabase, m: int) -> Seq<(usize, usize)>
    decreases db.modules@.len() - m, 1int, 0int,
{
    if 0 <= m < db.modules@.len() {
        spec_module_pairs(db, m) + spec_walk_children(db, m, 0)
    } else {
        Seq::empty()
    }
}

pub open spec fn spec_walk_children(db: HirDatabase, m: int, j: int) -> Seq<(usize, usize)>
    decreases db.modules@.len() - m, 0int, db.modules@[m].children@.len() - j,
{
    if 0 <= m < db.modules@.len() && 0 <= j < db.modules@[m].children@.len() {
        let c = db.modules@[m].children@[j] as int;
        (if m < c < db.modules@.len() {
            spec_impl_walk(db, c)
        } else {
            Seq::empty()
        }) + spec_walk_children(db, m, j + 1)
    } else {
        Seq::empty()
    }
}

/// The pairs of a sequence whose impl is recorded under fingerprint
/// `f`.
pub open spec fn spec_inherent_of(db: HirDatabase, pairs: Seq<(usize, usize)>, f: TyFingerprint) -> Seq<
    (usize, usize),
> {
    pairs.filter(|pr: (usize, usize)| spec_indexable_fp(db, pr.1 as int) == Some(f))
}

/// The pairs of a sequence whose impl implements trait `t`.
pub open spec fn spec_trait_of(db: HirDatabase, pairs: Seq<(usize, usize)>, t: TraitId) -> Seq<
    (usize, usize),
> {
    pairs.filter(|pr: (usize, usize)| db.impls@[pr.1 as int].target_trait == Some(t))
}

/// The inherent-impl bucket of a subtree for one fingerprint: the walk
/// restricted to impls recorded under that key.
pub open spec fn spec_inherent_pairs(db: HirDatabase, m: int, f: TyFingerprint) -> Seq<
    (usize, usize),
> {
    spec_inherent_of(db, spec_impl_walk(db, m), f)
}

/// The trait-impl bucket of a subtree for one trait.
pub open spec fn spec_trait_pairs(db: HirDatabase, m: int, t: TraitId) -> Seq<(usize, usize)> {
    spec_trait_of(db, spec_impl_walk(db, m), t)
}

proof fn lemma_inherent_of_empty(db: HirDatabase, f: TyFingerprint)
    ensures
        spec_inherent_of(db, Seq::empty(), f) == Seq::<(usize, usize)>::empty(),
{
    reveal(Seq::filter);
}

proof fn lemma_trait_of_empty(db: HirDatabase, t: TraitId)
    ensures
        spec_trait_of(db, Seq::empty(), t) == Seq::<(usize, usize)>::empty(),
{
    reveal(Seq::filter);
}

proof fn lemma_inherent_of_add(
    db: HirDatabase,
    a: Seq<(usize, usize)>,
    b: Seq<(usize, usize)>,
    f: TyFingerprint,
)
    ensures
        spec_inherent_of(db, a + b, f) == spec_inherent_of(db, a, f) + spec_inherent_of(db, b, f),
{
    broadcast use vstd::prelude::Seq::filter_distributes_over_add;

    assert(spec_inherent_of(db, a + b, f) == spec_inherent_of(db, a, f) + spec_inherent_of(
        db,
        b,
        f,
    ));
}

proof fn lemma_trait_of_add(
    db: HirDatabase,
    a: Seq<(usize, usize)>,
    b: Seq<(usize, usize)>,
    t: TraitId,
)
    ensures
        spec_trait_of(db, a + b, t) == spec_trait_of(db, a, t) + spec_trait_of(db, b, t),
{
    broadcast use vstd::prelude::Seq::filter_distributes_over_add;

    assert(spec_trait_of(db, a + b, t) == spec_trait_of(db, a, t) + spec_trait_of(db, b, t));
}

proof fn lemma_inherent_of_push(
    db: HirDatabase,
    pairs: Seq<(usize, usize)>,
    pr: (usize, usize),
    f: TyFingerprint,
)
    ensures
        spec_indexable_fp(db, pr.1 as int) == Some(f) ==> spec_inherent_of(db, pairs.push(pr), f)
            == spec_inherent_of(db, pairs, f).push(pr),
        spec_indexable_fp(db, pr.1 as int) != Some(f) ==> spec_inherent_of(db, pairs.push(pr), f)
            == spec_inherent_of(db, pairs, f),
{
    reveal_with_fuel(Seq::filter, 2);
    assert(pairs.push(pr).drop_last() =~= pairs);
    assert(pairs.push(pr).last() == pr);
}

proof fn lemma_trait_of_push(
    db: HirDatabase,
    pairs: Seq<(usize, usize)>,
    pr: (usize, usize),
    t: TraitId,
)
    ensures
        db.impls@[pr.1 as int].target_trait == Some(t) ==> spec_trait_of(db, pairs.push(pr), t)
            == spec_trait_of(db, pairs, t).push(pr),
        db.impls@[pr.1 as int].target_trait != Some(t) ==> spec_trait_of(db, pairs.push(pr), t)
            == spec_trait_of(db, pairs, t),
{
    reveal_with_fuel(Seq::filter, 2);
    assert(pairs.push(pr).drop_last() =~= pairs);
    assert(pairs.push(pr).last() == pr);
}

/// Per-crate index of impl blocks: inherent impls keyed by the
/// fingerprint of the self type, trait impls keyed by the trait. The
/// buckets are dense: one per struct, enum and trait of the snapshot.
#[derive(Debug, PartialEq, Eq)]
pub struct CrateImplBlocks {
    krate: usize,
    impls_for_struct: Vec<Vec<(usize, usize)>>,
    impls_for_enum: Vec<Vec<(usize, usize)>>,
    impls_by_trait: Vec<Vec<(usize, usize)>>,
}

impl CrateImplBlocks {
    pub closed spec fn spec_krate(&self) -> usize {
        self.krate
    }

    /// The recorded bucket for a fingerprint.
    pub closed spec fn spec_inherent_bucket(&self, f: TyFingerprint) -> Seq<(usize, usize)> {
        match f {
            TyFingerprint::Adt(AdtDef::Struct(s)) => if s.0 < self.impls_for_struct@.len() {
                self.impls_for_struct@[s.0 as int]@
            } else {
                Seq::empty()
            },
            TyFingerprint::Adt(AdtDef::Enum(e)) => if e.0 < self.impls_for_enum@.len() {
                self.impls_for_enum@[e.0 as int]@
            } else {
                Seq::empty()
            },
        }
    }

    /// The recorded bucket for a trait.
    pub closed spec fn spec_trait_bucket(&self, t: TraitId) -> Seq<(usize, usize)> {
        if t.0 < self.impls_by_trait@.len() {
            self.impls_by_trait@[t.0 as int]@
        } else {
            Seq::empty()
        }
    }
}

/// What it means for an index value to be the impl index of a crate:
/// every bucket holds exactly the matching impls of the crate's module
/// tree, in walk order.
pub open spec fn is_impl_index_for(db: HirDatabase, krate: usize, cib: CrateImplBlocks) -> bool {
    &&& cib.spec_krate() == krate
    &&& forall|f: TyFingerprint| #[trigger]
        cib.spec_inherent_bucket(f) == (match db.crates@[krate as int].root_module {
            Some(root) => spec_inherent_pairs(db, root as int, f),
            None => Seq::<(usize, usize)>::empty(),
        })
    &&& forall|t: TraitId| #[trigger]
        cib.spec_trait_bucket(t) == (match db.crates@[krate as int].root_module {
            Some(root) => spec_trait_pairs(db, root as int, t),
            None => Seq::<(usize, usize)>::empty(),
        })
}

/// Building the index is deterministic: any two indices of the same
/// snapshot and crate agree on every bucket.
pub proof fn lemma_impl_index_deterministic(
    db: HirDatabase,
    krate: usize,
    c1: CrateImplBlocks,
    c2: CrateImplBlocks,
)
    requires
        is_impl_index_for(db, krate, c1),
        is_impl_index_for(db, krate, c2),
    ensures
        forall|f: TyFingerprint| #[trigger] c1.spec_inherent_bucket(f) == c2.spec_inherent_bucket(
            f,
        ),
        forall|t: TraitId| #[trigger] c1.spec_trait_bucket(t) == c2.spec_trait_bucket(t),
{
}

impl CrateImplBlocks {
    /// Look up the inherent impls recorded for a type: empty unless
    /// the type has a fingerprint.
    pub fn lookup_impl_blocks(&self, ty: &Ty) -> (r: Vec<ImplBlock>)
        ensures
            r@.len() == (match spec_for_impl(ty@) {
                Some(f) => self.spec_inherent_bucket(f).len(),
                None => 0int as nat,
            }),
            match spec_for_impl(ty@) {
                Some(f) => forall|i: int|
                    0 <= i < r@.len() ==> (#[trigger] r@[i]) == (ImplBlock {
                        krate: self.spec_krate(),
                        module_id: self.spec_inherent_bucket(f)[i].0,
                        impl_id: self.spec_inherent_bucket(f)[i].1,
                    }),
                None => true,
            },
    {
        let fp = TyFingerprint::for_impl(ty);
        match fp {
            Option::None => Vec::new(),
            Option::Some(TyFingerprint::Adt(AdtDef::Struct(s))) => {
                if s.0 < self.impls_for_struct.len() {
                    self.pairs_to_blocks(&self.impls_for_struct[s.0])
                } else {
                    Vec::new()
                }
            }
            Option::Some(TyFingerprint::Adt(AdtDef::Enum(e))) => {
                if e.0 < self.impls_for_enum.len() {
                    self.pairs_to_blocks(&self.impls_for_enum[e.0])
                } else {
                    Vec::new()
                }
            }
        }
    }

    /// Look up the impls of a trait.
    pub fn lookup_impl_blocks_for_trait(&self, tr: TraitId) -> (r: Vec<ImplBlock>)
        ensures
            r@.len() == self.spec_trait_bucket(tr).len(),
            forall|i: int|
                0 <= i < r@.len() ==> (#[trigger] r@[i]) == (ImplBlock {
                    krate: self.spec_krate(),
                    module_id: self.spec_trait_bucket(tr)[i].0,
                    impl_id: self.spec_trait_bucket(tr)[i].1,
                }),
    {
        if tr.0 < self.impls_by_trait.len() {
            self.pairs_to_blocks(&self.impls_by_trait[tr.0])
        } else {
            Vec::new()
        }
    }

    fn pairs_to_blocks(&self, pairs: &Vec<(usize, usize)>) -> (r: Vec<ImplBlock>)
        ensures
            r@.len() == pairs@.len(),
            forall|i: int|
                0 <= i < r@.len() ==> (#[trigger] r@[i]) == (ImplBlock {
                    krate: self.krate,
                    module_id: pairs@[i].0,
                    impl_id: pairs@[i].1,
                }),
    {
        let mut out: Vec<ImplBlock> = Vec::new();
        let mut i: usize = 0;
        while i < pairs.len()
            invariant
                i <= pairs@.len(),
                out@.len() == i as int,
                forall|j: int|
                    0 <= j < i ==> (#[trigger] out@[j]) == (ImplBlock {
                        krate: self.krate,
                        module_id: pairs@[j].0,
                        impl_id: pairs@[j].1,
                    }),
            decreases pairs@.len() - i,
        {
            let pr = pairs[i];
            out.push(ImplBlock { krate: self.krate, module_id: pr.0, impl_id: pr.1 });
            i = i + 1;
        }
        out
    }

    fn collect_recursive(&mut self, db: &HirDatabase, module_id: usize)
        requires
            db.wf(),
            module_id < db.modules@.len(),
            old(self).impls_for_struct@.len() == db.structs@.len(),
            old(self).impls_for_enum@.len() == db.enums@.len(),
            old(self).impls_by_trait@.len() == db.traits@.len(),
        ensures
            final(self).krate == old(self).krate,
            final(self).impls_for_struct@.len() == db.structs@.len(),
            final(self).impls_for_enum@.len() == db.enums@.len(),
            final(self).impls_by_trait@.len() == db.traits@.len(),
            forall|f: TyFingerprint| #[trigger] final(self).spec_inherent_bucket(f) == old(
                self,
            ).spec_inherent_bucket(f) + spec_inherent_pairs(*db, module_id as int, f),
            forall|t: TraitId| #[trigger] final(self).spec_trait_bucket(t) == old(
                self,
            ).spec_trait_bucket(t) + spec_trait_pairs(*db, module_id as int, t),
        decreases db.modules@.len() - module_id,
    {
        let ghost orig = *self;
        let ghost m = module_id as int;
        let impl_count = db.modules[module_id].impls.len();
        let mut i: usize = 0;
        while i < impl_count
            invariant
                db.wf(),
                module_id < db.modules@.len(),
                impl_count == db.modules@[module_id as int].impls@.len(),
                m == module_id as int,
                i <= impl_count,
                self.krate == orig.krate,
                self.impls_for_struct@.len() == db.structs@.len(),
                self.impls_for_enum@.len() == db.enums@.len(),
                self.impls_by_trait@.len() == db.traits@.len(),
                orig.impls_for_struct@.len() == db.structs@.len(),
                orig.impls_for_enum@.len() == db.enums@.len(),
                orig.impls_by_trait@.len() == db.traits@.len(),
                forall|f: TyFingerprint| #[trigger] self.spec_inherent_bucket(f)
                    == orig.spec_inherent_bucket(f) + spec_inherent_of(
                    *db,
                    spec_module_pairs(*db, m).take(i as int),
                    f,
                ),
                forall|t: TraitId| #[trigger] self.spec_trait_bucket(t) == orig.spec_trait_bucket(
                    t,
                ) + spec_trait_of(*db, spec_module_pairs(*db, m).take(i as int), t),
            decreases impl_count - i,
        {
            let ghost before = *self;
            let impl_id = db.modules[module_id].impls[i];
            let impl_data = &db.impls[impl_id];
            let target_ty = Ty::from_hir(db, impl_data.resolver, &impl_data.target_type_ref);
            let ghost pair = (module_id, impl_id);
            let ghost prefix = spec_module_pairs(*db, m).take(i as int);
            let fp = TyFingerprint::for_impl(&target_ty);
            match fp {
                Option::Some(TyFingerprint::Adt(AdtDef::Struct(s))) => {
                    if s.0 < self.impls_for_struct.len() {
                        let bucket = &mut self.impls_for_struct[s.0];
                        bucket.push((module_id, impl_id));
                    }
                }
                Option::Some(TyFingerprint::Adt(AdtDef::Enum(e))) => {
                    if e.0 < self.impls_for_enum.len() {
                        let bucket = &mut self.impls_for_enum[e.0];
                        bucket.push((module_id, impl_id));
                    }
                }
                Option::None => {}
            }
            let ghost mid = *self;
            let tr = impl_data.target_trait;
            match tr {
                Option::Some(t) => {
                    let bucket = &mut self.impls_by_trait[t.0];
                    bucket.push((module_id, impl_id));
                }
                Option::None => {}
            }
            proof {
                assert(spec_target_ty(*db, impl_id as int) == target_ty@);
                assert(spec_module_pairs(*db, m).take(i + 1) =~= prefix.push(pair));
                assert forall|f: TyFingerprint| #[trigger] self.spec_inherent_bucket(f)
                    == orig.spec_inherent_bucket(f) + spec_inherent_of(
                    *db,
                    prefix.push(pair),
                    f,
                ) by {
                    lemma_inherent_of_push(*db, prefix, pair, f);
                    lemma_inherent_of_add(*db, prefix, Seq::empty().push(pair), f);
                    assert(self.spec_inherent_bucket(f) == mid.spec_inherent_bucket(f));
                    if spec_indexable_fp(*db, pair.1 as int) == Some(f) {
                        assert(mid.spec_inherent_bucket(f) == before.spec_inherent_bucket(f).push(
                            pair,
                        ));
                    } else {
                        assert(mid.spec_inherent_bucket(f) == before.spec_inherent_bucket(f));
                    }
                }
                assert forall|t2: TraitId| #[trigger] self.spec_trait_bucket(t2)
                    == orig.spec_trait_bucket(t2) + spec_trait_of(*db, prefix.push(pair), t2) by {
                    lemma_trait_of_push(*db, prefix, pair, t2);
                    assert(mid.spec_trait_bucket(t2) == before.spec_trait_bucket(t2));
                    if db.impls@[pair.1 as int].target_trait == Some(t2) {
                        assert(self.spec_trait_bucket(t2) == mid.spec_trait_bucket(t2).push(pair));
                    } else {
                        assert(self.spec_trait_bucket(t2) == mid.spec_trait_bucket(t2));
                    }
                }
            }
            i = i + 1;
        }
        proof {
            assert(spec_module_pairs(*db, m).take(impl_count as int) =~= spec_module_pairs(*db, m));
        }

        let ghost after_own = *self;
        let child_count = db.modules[module_id].children.len();
        let mut j: usize = 0;
        while j < child_count
            invariant
                db.wf(),
                module_id < db.modules@.len(),
                child_count == db.modules@[module_id as int].children@.len(),
                m == module_id as int,
                j <= child_count,
                self.krate == after_own.krate,
                after_own.krate == orig.krate,
                self.impls_for_struct@.len() == db.structs@.len(),
                self.impls_for_enum@.len() == db.enums@.len(),
                self.impls_by_trait@.len() == db.traits@.len(),
                forall|f: TyFingerprint| #[trigger] after_own.spec_inherent_bucket(f)
                    == orig.spec_inherent_bucket(f) + spec_inherent_of(
                    *db,
                    spec_module_pairs(*db, m),
                    f,
                ),
                forall|t: TraitId| #[trigger] after_own.spec_trait_bucket(t)
                    == orig.spec_trait_bucket(t) + spec_trait_of(*db, spec_module_pairs(*db, m), t),
                forall|f: TyFingerprint| #[trigger] self.spec_inherent_bucket(f)
                    + spec_inherent_of(*db, spec_walk_children(*db, m, j as int), f)
                    == after_own.spec_inherent_bucket(f) + spec_inherent_of(
                    *db,
                    spec_walk_children(*db, m, 0),
                    f,
                ),
                forall|t: TraitId| #[trigger] self.spec_trait_bucket(t) + spec_trait_of(
                    *db,
                    spec_walk_children(*db, m, j as int),
                    t,
                ) == after_own.spec_trait_bucket(t) + spec_trait_of(
                    *db,
                    spec_walk_children(*db, m, 0),
                    t,
                ),
            decreases child_count - j,
        {
            let ghost before = *self;
            let child = db.modules[module_id].children[j];
            self.collect_recursive(db, child);
            proof {
                let cseq = spec_impl_walk(*db, child as int);
                assert(spec_walk_children(*db, m, j as int) == cseq + spec_walk_children(
                    *db,
                    m,
                    j + 1,
                ));
                assert forall|f: TyFingerprint| #[trigger] self.spec_inherent_bucket(f)
                    + spec_inherent_of(*db, spec_walk_children(*db, m, j + 1), f)
                    == after_own.spec_inherent_bucket(f) + spec_inherent_of(
                    *db,
                    spec_walk_children(*db, m, 0),
                    f,
                ) by {
                    lemma_inherent_of_add(*db, cseq, spec_walk_children(*db, m, j + 1), f);
                    assert(before.spec_inherent_bucket(f) + (spec_inherent_of(*db, cseq, f)
                        + spec_inherent_of(*db, spec_walk_children(*db, m, j + 1), f))
                        =~= (before.spec_inherent_bucket(f) + spec_inherent_of(*db, cseq, f))
                        + spec_inherent_of(*db, spec_walk_children(*db, m, j + 1), f));
                }
                assert forall|t: TraitId| #[trigger] self.spec_trait_bucket(t) + spec_trait_of(
                    *db,
                    spec_walk_children(*db, m, j + 1),
                    t,
                ) == after_own.spec_trait_bucket(t) + spec_trait_of(
                    *db,
                    spec_walk_children(*db, m, 0),
                    t,
                ) by {
                    lemma_trait_of_add(*db, cseq, spec_walk_children(*db, m, j + 1), t);
                    assert(before.spec_trait_bucket(t) + (spec_trait_of(*db, cseq, t)
                        + spec_trait_of(*db, spec_walk_children(*db, m, j + 1), t))
                        =~= (before.spec_trait_bucket(t) + spec_trait_of(*db, cseq, t))
                        + spec_trait_of(*db, spec_walk_children(*db, m, j + 1), t));
                }
            }
            j = j + 1;
        }
        proof {
            assert(spec_walk_children(*db, m, child_count as int)
                == Seq::<(usize, usize)>::empty());
            assert forall|f: TyFingerprint| #[trigger] final(self).spec_inherent_bucket(f) == orig
                .spec_inherent_bucket(f) + spec_inherent_pairs(*db, m, f) by {
                lemma_inherent_of_empty(*db, f);
                assert(self.spec_inherent_bucket(f) + Seq::<(usize, usize)>::empty()
                    =~= self.spec_inherent_bucket(f));
                lemma_inherent_of_add(*db, spec_module_pairs(*db, m), spec_walk_children(*db, m, 0), f);
                assert(spec_impl_walk(*db, m) == spec_module_pairs(*db, m) + spec_walk_children(
                    *db,
                    m,
                    0,
                ));
                assert(orig.spec_inherent_bucket(f) + (spec_inherent_of(
                    *db,
                    spec_module_pairs(*db, m),
                    f,
                ) + spec_inherent_of(*db, spec_walk_children(*db, m, 0), f)) =~= (
                orig.spec_inherent_bucket(f) + spec_inherent_of(*db, spec_module_pairs(*db, m), f))
                    + spec_inherent_of(*db, spec_walk_children(*db, m, 0), f));
            }
            assert forall|t: TraitId| #[trigger] final(self).spec_trait_bucket(t) == orig
                .spec_trait_bucket(t) + spec_trait_pairs(*db, m, t) by {
                lemma_trait_of_empty(*db, t);
                assert(self.spec_trait_bucket(t) + Seq::<(usize, usize)>::empty()
                    =~= self.spec_trait_bucket(t));
                lemma_trait_of_add(*db, spec_module_pairs(*db, m), spec_walk_children(*db, m, 0), t);
                assert(orig.spec_trait_bucket(t) + (spec_trait_of(
                    *db,
                    spec_module_pairs(*db, m),
                    t,
                ) + spec_trait_of(*db, spec_walk_children(*db, m, 0), t)) =~= (
                orig.spec_trait_bucket(t) + spec_trait_of(*db, spec_module_pairs(*db, m), t))
                    + spec_trait_of(*db, spec_walk_children(*db, m, 0), t));
            }
        }
    }

    /// Build the impl index of a crate by walking its module tree.
    pub fn impls_in_crate_query(db: &HirDatabase, krate: usize) -> (r: CrateImplBlocks)
        requires
            db.wf(),
            krate < db.crates@.len(),
        ensures
            is_impl_index_for(*db, krate, r),
    {
        let mut cib = CrateImplBlocks {
            krate,
            impls_for_struct: empty_buckets(db.structs.len()),
            impls_for_enum: empty_buckets(db.enums.len()),
            impls_by_trait: empty_buckets(db.traits.len()),
        };
        proof {
            assert forall|f: TyFingerprint| #[trigger] cib.spec_inherent_bucket(f) == Seq::<
                (usize, usize),
            >::empty() by {
                match f {
                    TyFingerprint::Adt(AdtDef::Struct(s)) => {}
                    TyFingerprint::Adt(AdtDef::Enum(e)) => {}
                }
            }
        }
        match db.crates[krate].root_module {
            Option::Some(root) => {
                cib.collect_recursive(db, root);
            }
            Option::None => {}
        }
        cib
    }
}

fn empty_buckets(n: usize) -> (r: Vec<Vec<(usize, usize)>>)
    ensures
        r@.len() == n,
        forall|i: int| 0 <= i < n ==> (#[trigger] r@[i])@ == Seq::<(usize, usize)>::empty(),
{
    let mut out: Vec<Vec<(usize, usize)>> = Vec::new();
    let mut i: usize = 0;
    while i < n
        invariant
            i <= n,
            out@.len() == i as int,
            forall|j: int| 0 <= j < i ==> (#[trigger] out@[j])@ == Seq::<(usize, usize)>::empty(),
        decreases n - i,
    {
        out.push(Vec::new());
        i = i + 1;
    }
    out
}


/// Pairs recorded anywhere in a module walk point into the snapshot.
proof fn lemma_walk_in_range(db: HirDatabase, m: int)
    requires
        db.wf(),
    ensures
        forall|k: int|
            0 <= k < spec_impl_walk(db, m).len() ==> (#[trigger] spec_impl_walk(db, m)[k]).1
                < db.impls@.len() && spec_impl_walk(db, m)[k].0 < db.modules@.len(),
    decreases db.modules@.len() - m, 1int, 0int,
{
    if 0 <= m < db.modules@.len() {
        lemma_walk_children_in_range(db, m, 0);
        assert forall|k: int| 0 <= k < spec_impl_walk(db, m).len() implies (
        #[trigger] spec_impl_walk(db, m)[k]).1 < db.impls@.len() && spec_impl_walk(db, m)[k].0
            < db.modules@.len() by {
            if k < spec_module_pairs(db, m).len() {
                assert(spec_impl_walk(db, m)[k] == spec_module_pairs(db, m)[k]);
            } else {
                assert(spec_impl_walk(db, m)[k] == spec_walk_children(db, m, 0)[k
                    - spec_module_pairs(db, m).len()]);
            }
        }
    }
}

proof fn lemma_walk_children_in_range(db: HirDatabase, m: int, j: int)
    requires
        db.wf(),
    ensures
        forall|k: int|
            0 <= k < spec_walk_children(db, m, j).len() ==> (#[trigger] spec_walk_children(
                db,
                m,
                j,
            )[k]).1 < db.impls@.len() && spec_walk_children(db, m, j)[k].0 < db.modules@.len(),
    decreases db.modules@.len() - m, 0int, db.modules@[m].children@.len() - j,
{
    if 0 <= m < db.modules@.len() && 0 <= j < db.modules@[m].children@.len() {
        let c = db.modules@[m].children@[j] as int;
        if m < c < db.modules@.len() {
            lemma_walk_in_range(db, c);
        }
        lemma_walk_children_in_range(db, m, j + 1);
        let head = if m < c < db.modules@.len() {
            spec_impl_walk(db, c)
        } else {
            Seq::<(usize, usize)>::empty()
        };
        assert forall|k: int| 0 <= k < spec_walk_children(db, m, j).len() implies (
        #[trigger] spec_walk_children(db, m, j)[k]).1 < db.impls@.len() && spec_walk_children(
            db,
            m,
            j,
        )[k].0 < db.modules@.len() by {
            if k < head.len() {
                assert(spec_walk_children(db, m, j)[k] == head[k]);
            } else {
                assert(spec_walk_children(db, m, j)[k] == spec_walk_children(db, m, j + 1)[k
                    - head.len()]);
            }
        }
    }
}

/// Every element of a filtered sequence is an element of the original.
proof fn lemma_filter_subset(s: Seq<(usize, usize)>, pred: spec_fn((usize, usize)) -> bool, i: int)
    requires
        0 <= i < s.filter(pred).len(),
    ensures
        exists|k: int| 0 <= k < s.len() && s[k] == #[trigger] s.filter(pred)[i],
    decreases s.len(),
{
    reveal(Seq::filter);
    if s.len() > 0 {
        let sub = s.drop_last().filter(pred);
        if i < sub.len() {
            lemma_filter_subset(s.drop_last(), pred, i);
            let k = choose|k: int| 0 <= k < s.drop_last().len() && s.drop_last()[k] == sub[i];
            assert(s[k] == s.filter(pred)[i]);
        } else {
            assert(s[s.len() - 1] == s.filter(pred)[i]);
        }
    }
}

/// The view of a candidate list.
pub open spec fn cands_view(v: Seq<(Ty, FunctionId)>) -> Seq<(TySpec, FunctionId)> {
    Seq::new(v.len(), |i: int| (ty_view(v[i].0), v[i].1))
}

/// The methods of a run of impl items, in order, paired with the
/// receiver type they were found at.
pub open spec fn spec_items_methods(dty: TySpec, items: Seq<ImplItem>, i: int) -> Seq<
    (TySpec, FunctionId),
>
    decreases items.len() - i,
{
    if 0 <= i < items.len() {
        (match items[i] {
            ImplItem::Method(f) => seq![(dty, f)],
            _ => Seq::<(TySpec, FunctionId)>::empty(),
        }) + spec_items_methods(dty, items, i + 1)
    } else {
        Seq::empty()
    }
}

/// The methods of a run of indexed impls, in bucket order.
pub open spec fn spec_pairs_methods(
    db: HirDatabase,
    dty: TySpec,
    pairs: Seq<(usize, usize)>,
    i: int,
) -> Seq<(TySpec, FunctionId)>
    decreases pairs.len() - i,
{
    if 0 <= i < pairs.len() {
        spec_items_methods(dty, db.impls@[pairs[i].1 as int].items@, 0) + spec_pairs_methods(
            db,
            dty,
            pairs,
            i + 1,
        )
    } else {
        Seq::empty()
    }
}

/// The method candidates contributed by one receiver type: the methods
/// of the inherent impls indexed for it in its defining crate; none
/// when the type is not nominal.
pub open spec fn spec_candidates_for(db: HirDatabase, dty: TySpec) -> Seq<(TySpec, FunctionId)> {
    match spec_def_crate(db, dty) {
        None => Seq::empty(),
        Some(kr) => match db.crates@[kr as int].root_module {
            None => Seq::empty(),
            Some(root) => spec_pairs_methods(
                db,
                dty,
                spec_inherent_pairs(db, root as int, spec_for_impl(dty)->Some_0),
                0,
            ),
        },
    }
}

/// The full candidate run of a receiver: its own candidates, then the
/// candidates of each further type along the autoderef chain. The
/// chain steps through shared and mutable references; the deref even
/// happens when the matched method takes `&self`, mirroring the
/// autoderef-then-autoref protocol; autoref itself is not attempted.
pub open spec fn spec_method_candidates(db: HirDatabase, t: TySpec) -> Seq<(TySpec, FunctionId)>
    decreases t,
{
    spec_candidates_for(db, t) + (match t {
        TySpec::Ref(b, m) => spec_method_candidates(db, *b),
        _ => Seq::<(TySpec, FunctionId)>::empty(),
    })
}

/// The first candidate whose signature has the name and a self
/// parameter.
pub open spec fn spec_first_method_match(
    db: HirDatabase,
    cands: Seq<(TySpec, FunctionId)>,
    name: Name,
    i: int,
) -> Option<(TySpec, FunctionId)>
    decreases cands.len() - i,
{
    if 0 <= i < cands.len() {
        let fd = db.functions@[cands[i].1.0 as int];
        if fd.name == name && fd.has_self_param {
            Some(cands[i])
        } else {
            spec_first_method_match(db, cands, name, i + 1)
        }
    } else {
        None
    }
}

/// The items of a run of indexed impls, in bucket order.
pub open spec fn spec_pairs_items(db: HirDatabase, pairs: Seq<(usize, usize)>, i: int) -> Seq<
    ImplItem,
>
    decreases pairs.len() - i,
{
    if 0 <= i < pairs.len() {
        db.impls@[pairs[i].1 as int].items@ + spec_pairs_items(db, pairs, i + 1)
    } else {
        Seq::empty()
    }
}

/// Every item of every inherent impl indexed for a type, in index
/// order; empty when the type is not nominal.
pub open spec fn spec_impl_items_of(db: HirDatabase, dty: TySpec) -> Seq<ImplItem> {
    match spec_def_crate(db, dty) {
        None => Seq::empty(),
        Some(kr) => match db.crates@[kr as int].root_module {
            None => Seq::empty(),
            Some(root) => spec_pairs_items(
                db,
                spec_inherent_pairs(db, root as int, spec_for_impl(dty)->Some_0),
                0,
            ),
        },
    }
}

/// Gather every item of every inherent impl of a type.
fn gather_impl_items(db: &HirDatabase, dty: &Ty) -> (r: Vec<ImplItem>)
    requires
        db.wf(),
    ensures
        r@ == spec_impl_items_of(*db, ty_view(*dty)),
    {
    let ghost dv = ty_view(*dty);
    let krate = match def_crate(db, dty) {
        Option::None => {
            return Vec::new();
        },
        Option::Some(k) => k,
    };
    let cib = CrateImplBlocks::impls_in_crate_query(db, krate);
    let blocks = cib.lookup_impl_blocks(dty);
    if db.crates[krate].root_module.is_none() {
        proof {
            assert(blocks@.len() == 0);
        }
        return Vec::new();
    }
    let ghost root: int = db.crates@[krate as int].root_module->Some_0 as int;
    let ghost fp = spec_for_impl(dv)->Some_0;
    let ghost bucket = spec_inherent_pairs(*db, root, fp);
    proof {
        assert(cib.spec_inherent_bucket(fp) == bucket);
        lemma_walk_in_range(*db, root);
        assert forall|k: int| 0 <= k < bucket.len() implies (#[trigger] bucket[k]).1
            < db.impls@.len() by {
            lemma_filter_subset(
                spec_impl_walk(*db, root),
                |pr: (usize, usize)| spec_indexable_fp(*db, pr.1 as int) == Some(fp),
                k,
            );
        }
    }
    let mut out: Vec<ImplItem> = Vec::new();
    let mut b: usize = 0;
    while b < blocks.len()
        invariant
            db.wf(),
            b <= blocks@.len(),
            blocks@.len() == bucket.len(),
            forall|k: int| 0 <= k < bucket.len() ==> (#[trigger] bucket[k]).1 < db.impls@.len(),
            forall|k: int|
                0 <= k < blocks@.len() ==> (#[trigger] blocks@[k]).impl_id == bucket[k].1,
            out@ + spec_pairs_items(*db, bucket, b as int) == spec_pairs_items(*db, bucket, 0),
        decreases blocks@.len() - b,
    {
        let ghost before = out@;
        let impl_id = blocks[b].impl_id;
        let items = &db.impls[impl_id].items;
        let mut i: usize = 0;
        while i < items.len()
            invariant
                items@ == db.impls@[bucket[b as int].1 as int].items@,
                i <= items@.len(),
                out@ == before + items@.take(i as int),
            decreases items@.len() - i,
        {
            out.push(items[i]);
            proof {
                assert(before + items@.take(i as int) + seq![items@[i as int]] =~= before
                    + items@.take(i + 1));
            }
            i = i + 1;
        }
        proof {
            assert(items@.take(items@.len() as int) =~= items@);
            assert(before + (items@ + spec_pairs_items(*db, bucket, b + 1)) =~= (before + items@)
                + spec_pairs_items(*db, bucket, b + 1));
        }
        b = b + 1;
    }
    proof {
        assert(out@ + Seq::<ImplItem>::empty() =~= out@);
    }
    out
}

/// Gather the methods of one indexed impl.
fn push_impl_methods(db: &HirDatabase, dty: &Ty, impl_id: usize, out: &mut Vec<(Ty, FunctionId)>)
    requires
        db.wf(),
        impl_id < db.impls@.len(),
    ensures
        cands_view(final(out)@) == cands_view(old(out)@) + spec_items_methods(
            ty_view(*dty),
            db.impls@[impl_id as int].items@,
            0,
        ),
        forall|i: int|
            old(out)@.len() <= i < final(out)@.len() ==> (#[trigger] final(out)@[i]).1.0
                < db.functions@.len(),
        forall|i: int|
            0 <= i < old(out)@.len() ==> (#[trigger] final(out)@[i]) == old(out)@[i],
    {
    let items = &db.impls[impl_id].items;
    let ghost dv = ty_view(*dty);
    let ghost items_seq = items@;
    let mut i: usize = 0;
    while i < items.len()
        invariant
            db.wf(),
            impl_id < db.impls@.len(),
            items_seq == db.impls@[impl_id as int].items@,
            items@ == items_seq,
            i <= items_seq.len(),
            dv == ty_view(*dty),
            cands_view(out@) + spec_items_methods(dv, items_seq, i as int) == cands_view(
                old(out)@,
            ) + spec_items_methods(dv, items_seq, 0),
            old(out)@.len() <= out@.len(),
            forall|j: int|
                old(out)@.len() <= j < out@.len() ==> (#[trigger] out@[j]).1.0
                    < db.functions@.len(),
            forall|j: int| 0 <= j < old(out)@.len() ==> (#[trigger] out@[j]) == old(out)@[j],
        decreases items_seq.len() - i,
    {
        let ghost prev = out@;
        match items[i] {
            ImplItem::Method(f) => {
                proof {
                    assert(db.impls@[impl_id as int].items@[i as int] == ImplItem::Method(f));
                }
                out.push((dty.duplicate(), f));
                proof {
                    assert(cands_view(out@) =~= cands_view(prev).push((dv, f)));
                    assert(cands_view(prev).push((dv, f)) =~= cands_view(prev) + seq![(dv, f)]);
                    assert(cands_view(prev) + (seq![(dv, f)] + spec_items_methods(
                        dv,
                        items_seq,
                        i + 1,
                    )) =~= (cands_view(prev) + seq![(dv, f)]) + spec_items_methods(
                        dv,
                        items_seq,
                        i + 1,
                    ));
                }
            }
            _ => {
                proof {
                    assert(spec_items_methods(dv, items_seq, i as int) == Seq::<
                        (TySpec, FunctionId),
                    >::empty() + spec_items_methods(dv, items_seq, i + 1));
                    assert(Seq::<(TySpec, FunctionId)>::empty() + spec_items_methods(
                        dv,
                        items_seq,
                        i + 1,
                    ) =~= spec_items_methods(dv, items_seq, i + 1));
                }
            }
        }
        i = i + 1;
    }
    proof {
        assert(cands_view(out@) + Seq::<(TySpec, FunctionId)>::empty() =~= cands_view(out@));
    }
}

/// Gather the candidates contributed by one receiver type.
fn candidates_for(db: &HirDatabase, dty: &Ty, out: &mut Vec<(Ty, FunctionId)>)
    requires
        db.wf(),
    ensures
        cands_view(final(out)@) == cands_view(old(out)@) + spec_candidates_for(*db, ty_view(*dty)),
        forall|i: int|
            old(out)@.len() <= i < final(out)@.len() ==> (#[trigger] final(out)@[i]).1.0
                < db.functions@.len(),
        forall|i: int|
            0 <= i < old(out)@.len() ==> (#[trigger] final(out)@[i]) == old(out)@[i],
    {
    let ghost dv = ty_view(*dty);
    let krate = match def_crate(db, dty) {
        Option::None => {
            proof {
                assert(cands_view(out@) + Seq::<(TySpec, FunctionId)>::empty() =~= cands_view(
                    out@,
                ));
            }
            return ;
        },
        Option::Some(k) => k,
    };
    let cib = CrateImplBlocks::impls_in_crate_query(db, krate);
    let blocks = cib.lookup_impl_blocks(dty);
    let ghost root: int = db.crates@[krate as int].root_module->Some_0 as int;
    let ghost fp = spec_for_impl(dv)->Some_0;
    let ghost bucket = spec_inherent_pairs(*db, root, fp);
    if db.crates[krate].root_module.is_none() {
        proof {
            assert(blocks@.len() == 0);
            assert(cands_view(out@) + Seq::<(TySpec, FunctionId)>::empty() =~= cands_view(out@));
        }
        return ;
    }
    proof {
        assert(cib.spec_inherent_bucket(fp) == bucket);
        lemma_walk_in_range(*db, root);
        assert forall|k: int| 0 <= k < bucket.len() implies (#[trigger] bucket[k]).1
            < db.impls@.len() by {
            lemma_filter_subset(
                spec_impl_walk(*db, root),
                |pr: (usize, usize)| spec_indexable_fp(*db, pr.1 as int) == Some(fp),
                k,
            );
        }
    }
    let ghost start = out@;
    let mut b: usize = 0;
    while b < blocks.len()
        invariant
            db.wf(),
            dv == ty_view(*dty),
            b <= blocks@.len(),
            blocks@.len() == bucket.len(),
            forall|k: int|
                0 <= k < bucket.len() ==> (#[trigger] bucket[k]).1 < db.impls@.len(),
            forall|k: int|
                0 <= k < blocks@.len() ==> (#[trigger] blocks@[k]).impl_id == bucket[k].1,
            cands_view(out@) + spec_pairs_methods(*db, dv, bucket, b as int) == cands_view(start)
                + spec_pairs_methods(*db, dv, bucket, 0),
            start.len() <= out@.len(),
            forall|j: int|
                start.len() <= j < out@.len() ==> (#[trigger] out@[j]).1.0 < db.functions@.len(),
            forall|j: int| 0 <= j < start.len() ==> (#[trigger] out@[j]) == start[j],
        decreases blocks@.len() - b,
    {
        let ghost before = out@;
        let block = blocks[b];
        push_impl_methods(db, dty, block.impl_id, out);
        proof {
            assert(cands_view(before) + (spec_items_methods(
                dv,
                db.impls@[bucket[b as int].1 as int].items@,
                0,
            ) + spec_pairs_methods(*db, dv, bucket, b + 1)) =~= (cands_view(before)
                + spec_items_methods(dv, db.impls@[bucket[b as int].1 as int].items@, 0))
                + spec_pairs_methods(*db, dv, bucket, b + 1));
        }
        b = b + 1;
    }
    proof {
        assert(cands_view(out@) + Seq::<(TySpec, FunctionId)>::empty() =~= cands_view(out@));
    }
}

/// Gather the full candidate run of a receiver along its autoderef
/// chain.
fn gather_method_candidates(db: &HirDatabase, ty: Ty, out: &mut Vec<(Ty, FunctionId)>)
    requires
        db.wf(),
    ensures
        cands_view(final(out)@) == cands_view(old(out)@) + spec_method_candidates(
            *db,
            ty_view(ty),
        ),
        forall|i: int|
            old(out)@.len() <= i < final(out)@.len() ==> (#[trigger] final(out)@[i]).1.0
                < db.functions@.len(),
        forall|i: int|
            0 <= i < old(out)@.len() ==> (#[trigger] final(out)@[i]) == old(out)@[i],
    decreases ty,
{
    candidates_for(db, &ty, out);
    let ghost mid = out@;
    match ty {
        Ty::Ref(b, m) => {
            gather_method_candidates(db, *b, out);
            proof {
                assert(cands_view(old(out)@) + (spec_candidates_for(*db, ty_view(Ty::Ref(b, m)))
                    + spec_method_candidates(*db, ty_view(*b))) =~= (cands_view(old(out)@)
                    + spec_candidates_for(*db, ty_view(Ty::Ref(b, m)))) + spec_method_candidates(
                    *db,
                    ty_view(*b),
                ));
            }
        }
        _ => {
            proof {
                assert(cands_view(out@) + Seq::<(TySpec, FunctionId)>::empty() =~= cands_view(
                    out@,
                ));
            }
        }
    }
}

impl Ty {
    /// Look up the method with the given name on this receiver,
    /// returning the autoderefed receiver type it was found at and the
    /// function: the first candidate, in autoderef order then index
    /// order, whose signature has the name and a self parameter.
    pub fn lookup_method(self, db: &HirDatabase, name: &Name) -> (r: Option<(Ty, FunctionId)>)
        requires
            db.wf(),
        ensures
            match spec_first_method_match(
                *db,
                spec_method_candidates(*db, ty_view(self)),
                *name,
                0,
            ) {
                Some(pr) => r matches Some(rr) && ty_view(rr.0) == pr.0 && rr.1 == pr.1,
                None => r is None,
            },
    {
        let ghost sv = ty_view(self);
        let mut cands: Vec<(Ty, FunctionId)> = Vec::new();
        gather_method_candidates(db, self, &mut cands);
        let ghost cv = cands_view(cands@);
        proof {
            assert(cv =~= Seq::<(TySpec, FunctionId)>::empty() + spec_method_candidates(*db, sv));
            assert(cv == spec_method_candidates(*db, sv));
        }
        let mut i: usize = 0;
        while i < cands.len()
            invariant
                db.wf(),
                i <= cands@.len(),
                cv == cands_view(cands@),
                cv == spec_method_candidates(*db, sv),
                sv == ty_view(self),
                forall|j: int|
                    0 <= j < cands@.len() ==> (#[trigger] cands@[j]).1.0 < db.functions@.len(),
                spec_first_method_match(*db, cv, *name, 0) == spec_first_method_match(
                    *db,
                    cv,
                    *name,
                    i as int,
                ),
            decreases cands@.len() - i,
        {
            let f = cands[i].1;
            let fd = &db.functions[f.0];
            if fd.name.0 == name.0 && fd.has_self_param {
                proof {
                    assert(cv[i as int] == (ty_view(cands@[i as int].0), cands@[i as int].1));
                    assert(spec_first_method_match(*db, cv, *name, i as int) == Some(
                        cv[i as int],
                    ));
                }
                let (t, ff) = cands.remove(i);
                proof {
                    assert(cv[i as int] == (ty_view(t), ff));
                }
                return Some((t, ff));
            }
            i = i + 1;
        }
        None
    }

    /// Run a callback over every method candidate along the autoderef
    /// chain, in order, stopping at the first answer: when a result
    /// comes back, some candidate produced it and every candidate
    /// before that one answered nothing.
    pub fn iterate_methods<T, F: Fn(&Ty, FunctionId) -> Option<T>>(
        self,
        db: &HirDatabase,
        callback: F,
    ) -> (r: Option<T>)
        requires
            db.wf(),
            forall|a: (&Ty, FunctionId)| #[trigger] call_requires(callback, a),
        ensures
            exists|cs: Seq<(Ty, FunctionId)>|
                cands_view(cs) == spec_method_candidates(*db, ty_view(self)) && (match r {
                    Some(t) => exists|i: int|
                        0 <= i < cs.len() && #[trigger] call_ensures(
                            callback,
                            (&cs[i].0, cs[i].1),
                            Some(t),
                        ) && (forall|j: int|
                            0 <= j < i ==> #[trigger] call_ensures(
                                callback,
                                (&cs[j].0, cs[j].1),
                                None::<T>,
                            )),
                    None => forall|i: int|
                        0 <= i < cs.len() ==> #[trigger] call_ensures(
                            callback,
                            (&cs[i].0, cs[i].1),
                            None::<T>,
                        ),
                }),
    {
        let ghost sv = ty_view(self);
        let mut cands: Vec<(Ty, FunctionId)> = Vec::new();
        gather_method_candidates(db, self, &mut cands);
        proof {
            assert(cands_view(cands@) =~= Seq::<(TySpec, FunctionId)>::empty()
                + spec_method_candidates(*db, sv));
        }
        let ghost cs = cands@;
        let mut i: usize = 0;
        while i < cands.len()
            invariant
                cs == cands@,
                i <= cands@.len(),
                cands_view(cs) == spec_method_candidates(*db, sv),
                sv == ty_view(self),
                forall|a: (&Ty, FunctionId)| #[trigger] call_requires(callback, a),
                forall|j: int|
                    0 <= j < i ==> #[trigger] call_ensures(
                        callback,
                        (&cands@[j].0, cands@[j].1),
                        None::<T>,
                    ),
            decreases cands@.len() - i,
        {
            let cand = &cands[i];
            let res = callback(&cand.0, cand.1);
            match res {
                Option::Some(t) => {
                    proof {
                        assert(call_ensures(callback, (&cs[i as int].0, cs[i as int].1), Some(t)));
                        assert(cands_view(cs) == spec_method_candidates(*db, ty_view(self))
                            && exists|k: int|
                            0 <= k < cs.len() && #[trigger] call_ensures(
                                callback,
                                (&cs[k].0, cs[k].1),
                                Some(t),
                            ) && (forall|j: int|
                                0 <= j < k ==> #[trigger] call_ensures(
                                    callback,
                                    (&cs[j].0, cs[j].1),
                                    None::<T>,
                                )));
                    }
                    return Some(t);
                }
                Option::None => {}
            }
            i = i + 1;
        }
        proof {
            assert(cands_view(cs) == spec_method_candidates(*db, ty_view(self)));
        }
        None
    }

    /// Run a callback over every item of every inherent impl of this
    /// type, in index order, stopping at the first answer: when a
    /// result comes back, some item produced it and every item before
    /// that one answered nothing. No autoderef happens here.
    pub fn iterate_impl_items<T, F: Fn(ImplItem) -> Option<T>>(
        self,
        db: &HirDatabase,
        callback: F,
    ) -> (r: Option<T>)
        requires
            db.wf(),
            forall|a: (ImplItem,)| #[trigger] call_requires(callback, a),
        ensures
            match r {
                Some(t) => exists|i: int|
                    0 <= i < spec_impl_items_of(*db, ty_view(self)).len() && #[trigger]
                    call_ensures(
                        callback,
                        (spec_impl_items_of(*db, ty_view(self))[i],),
                        Some(t),
                    ) && (forall|j: int|
                        0 <= j < i ==> #[trigger] call_ensures(
                            callback,
                            (spec_impl_items_of(*db, ty_view(self))[j],),
                            None::<T>,
                        )),
                None => forall|i: int|
                    0 <= i < spec_impl_items_of(*db, ty_view(self)).len() ==> #[trigger]
                    call_ensures(
                        callback,
                        (spec_impl_items_of(*db, ty_view(self))[i],),
                        None::<T>,
                    ),
            },
    {
        let ghost sv = ty_view(self);
        let items = gather_impl_items(db, &self);
        let mut i: usize = 0;
        while i < items.len()
            invariant
                items@ == spec_impl_items_of(*db, sv),
                sv == ty_view(self),
                i <= items@.len(),
                forall|a: (ImplItem,)| #[trigger] call_requires(callback, a),
                forall|j: int|
                    0 <= j < i ==> #[trigger] call_ensures(callback, (items@[j],), None::<T>),
            decreases items@.len() - i,
        {
            let item = items[i];
            let res = callback(item);
            match res {
                Option::Some(t) => {
                    proof {
                        assert(call_ensures(callback, (items@[i as int],), Some(t)));
                    }
                    return Some(t);
                }
                Option::None => {}
            }
            i = i + 1;
        }
        None
    }
}

} // verus!

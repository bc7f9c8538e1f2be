//! Completion inside patterns: the names of a scope that a pattern
//! can sensibly mention — enums, enum variants, consts and modules.

use vstd::prelude::*;

use crate::hir::{HirDatabase, ModuleDef, Name, PerNs, Resolution};

verus! {

/// Whether one visible name is offered in a pattern: its resolution,
/// types namespace first, must be an enum, an enum variant, a const or
/// a module.
pub open spec fn spec_offered_in_pattern(per_ns: PerNs) -> bool {
    match (match per_ns.types {
        Some(r) => Some(r),
        None => per_ns.values,
    }) {
        Some(Resolution::Def(d)) => match d {
            ModuleDef::Enum(e) => true,
            ModuleDef::EnumVariant(v) => true,
            ModuleDef::Const(c) => true,
            ModuleDef::Module(m) => true,
            _ => false,
        },
        _ => false,
    }
}

/// The names offered, in scope order, starting at entry `i`.
pub open spec fn spec_pattern_completions(entries: Seq<(Name, PerNs)>, i: int) -> Seq<Name>
    decreases entries.len() - i,
{
    if 0 <= i < entries.len() {
        (if spec_offered_in_pattern(entries[i].1) {
            seq![entries[i].0]
        } else {
            Seq::<Name>::empty()
        }) + spec_pattern_completions(entries, i + 1)
    } else {
        Seq::empty()
    }
}

fn offered_in_pattern(per_ns: &PerNs) -> (r: bool)
    ensures
        r == spec_offered_in_pattern(*per_ns),
{
    let picked = match per_ns.types {
        Option::Some(t) => Option::Some(t),
        Option::None => per_ns.values,
    };
    match picked {
        Option::Some(Resolution::Def(d)) => match d {
            ModuleDef::Enum(e) => true,
            ModuleDef::EnumVariant(v) => true,
            ModuleDef::Const(c) => true,
            ModuleDef::Module(m) => true,
            _ => false,
        },
        _ => false,
    }
}

/// Complete a pattern position: every name visible in the scope whose
/// resolution is an enum, an enum variant, a const or a module, in
/// scope order. Outside a pattern binding nothing is offered.
pub fn complete_pattern(db: &HirDatabase, resolver: usize, is_pat_binding: bool) -> (r: Vec<Name>)
    requires
        db.wf(),
        db.resolver_in_range(resolver),
    ensures
        is_pat_binding ==> r@ == spec_pattern_completions(
            db.resolvers@[resolver as int].all_names@,
            0,
        ),
        !is_pat_binding ==> r@.len() == 0,
{
    if !is_pat_binding {
        return Vec::new();
    }
    let names = &db.resolvers[resolver].all_names;
    let ghost entries = names@;
    let mut out: Vec<Name> = Vec::new();
    let mut i: usize = 0;
    while i < names.len()
        invariant
            entries == names@,
            i <= entries.len(),
            out@ + spec_pattern_completions(entries, i as int) == spec_pattern_completions(
                entries,
                0,
            ),
        decreases entries.len() - i,
    {
        let ghost before = out@;
        let entry = &names[i];
        if offered_in_pattern(&entry.1) {
            out.push(entry.0);
            proof {
                assert(before + (seq![entries[i as int].0] + spec_pattern_completions(
                    entries,
                    i + 1,
                )) =~= (before + seq![entries[i as int].0]) + spec_pattern_completions(
                    entries,
                    i + 1,
                ));
                assert(out@ =~= before + seq![entries[i as int].0]);
            }
        } else {
            proof {
                assert(Seq::<Name>::empty() + spec_pattern_completions(entries, i + 1)
                    =~= spec_pattern_completions(entries, i + 1));
            }
        }
        i = i + 1;
    }
    proof {
        assert(out@ + Seq::<Name>::empty() =~= out@);
    }
    out
}

} // verus!

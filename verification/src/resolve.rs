//! The mathematical model of resolution: expanding an ordered list of
//! requested fabric names into a flat plan of direct fabrics.
//!
//! Expansion is depth-first and pre-order: a direct fabric contributes
//! its own position, a composition contributes the expansion of its
//! subfabric references in declared order. Nothing is deduplicated. A
//! name that is already being expanded on the active path must not be
//! entered again: `avail` carries the names still allowed, and a
//! composition whose name is no longer available is a cycle.

use vstd::prelude::*;

use crate::errors::FabricError;
use crate::instruction::{names_of, Instruction, Work};

verus! {

/// The declared fabric names, in declaration order.
pub open spec fn instr_names(fabrics: Seq<Instruction>) -> Seq<Seq<char>> {
    fabrics.map_values(|t: Instruction| t.name@)
}

/// The subfabric references of one fabric: empty for a direct fabric.
pub open spec fn subfabric_names(instr: Instruction) -> Seq<Seq<char>> {
    match instr.work {
        Work::Composition { subfabrics } => names_of(subfabrics@),
        Work::Command { .. } => Seq::empty(),
    }
}

/// All declared names are distinct.
pub open spec fn unique_names_seq(fabrics: Seq<Instruction>) -> bool {
    forall|p: int, q: int|
        0 <= p < q < fabrics.len() ==> fabrics[p].name@ != fabrics[q].name@
}

/// Every subfabric reference of every composition resolves to a
/// declared fabric.
pub open spec fn refs_resolve_seq(fabrics: Seq<Instruction>) -> bool {
    forall|i: int, k: int|
        0 <= i < fabrics.len() && 0 <= k < subfabric_names(fabrics[i]).len()
            ==> first_match(instr_names(fabrics), #[trigger] subfabric_names(fabrics[i])[k]) is Some
}

/// The positions of an executable plan as mathematical integers.
pub open spec fn plan_of(v: Seq<usize>) -> Seq<int> {
    v.map_values(|u: usize| u as int)
}

/// The first position of `name` in `names`, scanning left to right.
pub open spec fn first_match(names: Seq<Seq<char>>, name: Seq<char>) -> Option<int>
    decreases names.len(),
{
    if names.len() == 0 {
        None
    } else if names[0] == name {
        Some(0int)
    } else {
        match first_match(names.drop_first(), name) {
            None => None,
            Some(i) => Some(i + 1),
        }
    }
}

/// What `first_match` returns: the first matching position when one
/// exists, nothing when no element matches.
pub proof fn lemma_first_match(names: Seq<Seq<char>>, name: Seq<char>)
    ensures
        match first_match(names, name) {
            Some(i) => 0 <= i < names.len() && names[i] == name && (forall|k: int|
                0 <= k < i ==> names[k] != name),
            None => forall|k: int| 0 <= k < names.len() ==> names[k] != name,
        },
    decreases names.len(),
{
    if names.len() > 0 && names[0] != name {
        let rest = names.drop_first();
        lemma_first_match(rest, name);
        match first_match(rest, name) {
            None => {
                assert forall|k: int| 0 <= k < names.len() implies names[k] != name by {
                    if k > 0 {
                        assert(names[k] == rest[k - 1]);
                    }
                }
            },
            Some(i) => {
                assert(names[i + 1] == rest[i]);
                assert forall|k: int| 0 <= k < i + 1 implies names[k] != name by {
                    if k > 0 {
                        assert(names[k] == rest[k - 1]);
                    }
                }
            },
        }
    }
}

/// The flat plan that expanding `requested` against `fabrics` yields:
/// positions of direct fabrics in pre-order, or the first error met.
/// `avail` holds the names not on the active expansion path; expanding a
/// composition consumes its name for the span of its subfabrics.
pub open spec fn spec_expand(
    fabrics: Seq<Instruction>,
    requested: Seq<Seq<char>>,
    avail: Seq<Seq<char>>,
) -> Result<Seq<int>, FabricError>
    decreases avail.len(), requested.len(),
{
    if requested.len() == 0 {
        Ok(Seq::empty())
    } else {
        let name = requested[0];
        match first_match(instr_names(fabrics), name) {
            None => Err(FabricError::UnknownFabric),
            Some(i) => match fabrics[i].work {
                Work::Command { .. } => match spec_expand(fabrics, requested.drop_first(), avail) {
                    Err(e) => Err(e),
                    Ok(rest) => Ok(seq![i] + rest),
                },
                Work::Composition { subfabrics } => match first_match(avail, name) {
                    None => Err(FabricError::CyclicFabric),
                    Some(j) => {
                        proof {
                            lemma_first_match(avail, name);
                        }
                        match spec_expand(fabrics, names_of(subfabrics@), avail.remove(j)) {
                            Err(e) => Err(e),
                            Ok(sub) => match spec_expand(fabrics, requested.drop_first(), avail) {
                                Err(e) => Err(e),
                                Ok(rest) => Ok(sub + rest),
                            },
                        }
                    },
                },
            },
        }
    }
}

/// Every entry of a successful plan is the position of a direct fabric:
/// compositions never appear in a plan.
pub proof fn lemma_expand_direct(
    fabrics: Seq<Instruction>,
    requested: Seq<Seq<char>>,
    avail: Seq<Seq<char>>,
)
    ensures
        spec_expand(fabrics, requested, avail) matches Ok(plan) ==> forall|k: int|
            0 <= k < plan.len() ==> 0 <= #[trigger] plan[k] < fabrics.len()
                && fabrics[plan[k]].work is Command,
    decreases avail.len(), requested.len(),
{
    if requested.len() > 0 {
        let name = requested[0];
        lemma_first_match(instr_names(fabrics), name);
        match first_match(instr_names(fabrics), name) {
            None => {},
            Some(i) => match fabrics[i].work {
                Work::Command { .. } => {
                    lemma_expand_direct(fabrics, requested.drop_first(), avail);
                },
                Work::Composition { subfabrics } => match first_match(avail, name) {
                    None => {},
                    Some(j) => {
                        lemma_first_match(avail, name);
                        lemma_expand_direct(fabrics, names_of(subfabrics@), avail.remove(j));
                        lemma_expand_direct(fabrics, requested.drop_first(), avail);
                    },
                },
            },
        }
    }
}

/// How many direct fabrics the pre-order expansion of `requested`
/// reaches, counted with multiplicity. Only meaningful where
/// `spec_expand` succeeds; error paths contribute nothing.
pub open spec fn spec_direct_count(
    fabrics: Seq<Instruction>,
    requested: Seq<Seq<char>>,
    avail: Seq<Seq<char>>,
) -> int
    decreases avail.len(), requested.len(),
{
    if requested.len() == 0 {
        0
    } else {
        let name = requested[0];
        match first_match(instr_names(fabrics), name) {
            None => 0,
            Some(i) => match fabrics[i].work {
                Work::Command { .. } => 1 + spec_direct_count(
                    fabrics,
                    requested.drop_first(),
                    avail,
                ),
                Work::Composition { subfabrics } => match first_match(avail, name) {
                    None => 0,
                    Some(j) => {
                        proof {
                            lemma_first_match(avail, name);
                        }
                        spec_direct_count(fabrics, names_of(subfabrics@), avail.remove(j))
                            + spec_direct_count(fabrics, requested.drop_first(), avail)
                    },
                },
            },
        }
    }
}

/// Whenever resolution succeeds, the plan is exactly as long as the
/// count of direct fabrics reached by the pre-order expansion of the
/// requested names.
pub proof fn lemma_expand_length(
    fabrics: Seq<Instruction>,
    requested: Seq<Seq<char>>,
    avail: Seq<Seq<char>>,
)
    ensures
        spec_expand(fabrics, requested, avail) matches Ok(plan) ==> plan.len()
            == spec_direct_count(fabrics, requested, avail),
    decreases avail.len(), requested.len(),
{
    if requested.len() > 0 {
        let name = requested[0];
        match first_match(instr_names(fabrics), name) {
            None => {},
            Some(i) => match fabrics[i].work {
                Work::Command { .. } => {
                    lemma_expand_length(fabrics, requested.drop_first(), avail);
                },
                Work::Composition { subfabrics } => match first_match(avail, name) {
                    None => {},
                    Some(j) => {
                        lemma_first_match(avail, name);
                        lemma_expand_length(fabrics, names_of(subfabrics@), avail.remove(j));
                        lemma_expand_length(fabrics, requested.drop_first(), avail);
                    },
                },
            },
        }
    }
}

/// Resolving a single direct fabric yields the one-element plan that
/// holds exactly that fabric, whatever names are still available.
pub proof fn lemma_expand_single_direct(
    fabrics: Seq<Instruction>,
    name: Seq<char>,
    avail: Seq<Seq<char>>,
    i: int,
)
    requires
        first_match(instr_names(fabrics), name) == Some(i),
        0 <= i < fabrics.len(),
        fabrics[i].work is Command,
    ensures
        spec_expand(fabrics, seq![name], avail) == Ok::<Seq<int>, FabricError>(seq![i]),
{
    let requested = seq![name];
    assert(requested.len() == 1);
    assert(requested[0] == name);
    assert(requested.drop_first() =~= Seq::<Seq<char>>::empty());
    assert(spec_expand(fabrics, requested.drop_first(), avail) == Ok::<Seq<int>, FabricError>(
        Seq::empty(),
    ));
    assert(seq![i] + Seq::<int>::empty() =~= seq![i]);
}

/// Inside a successful expansion, every requested name that resolves
/// to a composition still has its name available: expanding it was
/// allowed at this level.
proof fn lemma_ok_composition_available(
    fabrics: Seq<Instruction>,
    requested: Seq<Seq<char>>,
    avail: Seq<Seq<char>>,
    k: int,
)
    requires
        spec_expand(fabrics, requested, avail) is Ok,
        0 <= k < requested.len(),
    ensures
        ({
            match first_match(instr_names(fabrics), requested[k]) {
                Some(i) => fabrics[i].work is Composition ==> first_match(
                    avail,
                    requested[k],
                ) is Some,
                None => false,
            }
        }),
    decreases k,
{
    let name = requested[0];
    if k == 0 {
    } else {
        match first_match(instr_names(fabrics), name) {
            None => {},
            Some(i) => {
                assert(requested.drop_first()[k - 1] == requested[k]);
                lemma_ok_composition_available(fabrics, requested.drop_first(), avail, k - 1);
            },
        }
    }
}

/// A composition whose first subfabric is its own name is caught at
/// once: requesting it yields exactly the cycle error, never unbounded
/// recursion. Holds for any set with unique names.
pub proof fn lemma_direct_self_cycle(fabrics: Seq<Instruction>, name: Seq<char>, i: int)
    requires
        unique_names_seq(fabrics),
        first_match(instr_names(fabrics), name) == Some(i),
        0 <= i < fabrics.len(),
        fabrics[i].work is Composition,
        subfabric_names(fabrics[i]).len() > 0,
        subfabric_names(fabrics[i])[0] == name,
    ensures
        spec_expand(fabrics, seq![name], instr_names(fabrics)) == Err::<Seq<int>, FabricError>(
            FabricError::CyclicFabric,
        ),
{
    let avail = instr_names(fabrics);
    lemma_first_match(avail, name);
    match first_match(avail, name) {
        None => {},
        Some(j) => {
            let avail2 = avail.remove(j);
            lemma_first_match(avail2, name);
            match first_match(avail2, name) {
                None => {},
                Some(m) => {
                    // `avail2` dropped the single position carrying `name`.
                    assert(avail[i] == name);
                    assert(j == i);
                    if m < i {
                        assert(avail2[m] == avail[m]);
                    } else {
                        assert(avail2[m] == avail[m + 1]);
                    }
                    assert(false);
                },
            }
            match fabrics[i].work {
                Work::Command { .. } => {},
                Work::Composition { subfabrics } => {
                    let sub = names_of(subfabrics@);
                    assert(sub[0] == name);
                    assert(spec_expand(fabrics, sub, avail2) == Err::<Seq<int>, FabricError>(
                        FabricError::CyclicFabric,
                    ));
                },
            }
        },
    }
}

/// A composition that lists its own name among its subfabrics can
/// never resolve: requesting it fails, the cycle is always caught.
/// Holds for any well-formed set, where names are unique.
pub proof fn lemma_self_cycle(fabrics: Seq<Instruction>, name: Seq<char>, i: int, k: int)
    requires
        unique_names_seq(fabrics),
        first_match(instr_names(fabrics), name) == Some(i),
        0 <= k < subfabric_names(fabrics[i]).len(),
        subfabric_names(fabrics[i])[k] == name,
        fabrics[i].work is Composition,
    ensures
        spec_expand(fabrics, seq![name], instr_names(fabrics)) is Err,
{
    let avail = instr_names(fabrics);
    lemma_first_match(avail, name);
    if spec_expand(fabrics, seq![name], avail) is Ok {
        match first_match(avail, name) {
            None => {},
            Some(j) => {
                let avail2 = avail.remove(j);
                match fabrics[i].work {
                    Work::Command { .. } => {},
                    Work::Composition { subfabrics } => {
                        assert(spec_expand(fabrics, names_of(subfabrics@), avail2) is Ok);
                        lemma_ok_composition_available(
                            fabrics,
                            names_of(subfabrics@),
                            avail2,
                            k,
                        );
                        lemma_first_match(avail2, name);
                        match first_match(avail2, name) {
                            None => {},
                            Some(m) => {
                                // `avail2` dropped the single position that
                                // carries `name`, so no position matches.
                                assert(avail[i] == name);
                                assert(j == i);
                                if m < i {
                                    assert(avail2[m] == avail[m]);
                                } else {
                                    assert(avail2[m] == avail[m + 1]);
                                }
                                assert(false);
                            },
                        }
                    },
                }
            },
        }
    }
}

} // verus!

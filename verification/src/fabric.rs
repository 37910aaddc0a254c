//! The fabric set of one project: loading and validating the declared
//! records, name lookup, and the expansion of requested names into a
//! flat execution plan.

use vstd::prelude::*;

use crate::errors::FabricError;
use crate::instruction::{
    classify_all, names_of, raw_names, raw_shape_ok, shapes_ok, spec_classify, Instruction,
    RawInstruction, Work,
};
use crate::resolve::{
    first_match, instr_names, lemma_expand_direct, lemma_first_match, plan_of, refs_resolve_seq,
    spec_expand, subfabric_names, unique_names_seq,
};

verus! {

/// All fabrics declared by a project, in declaration order.
#[derive(Debug, Clone, PartialEq, Eq)]
pub struct Fabric {
    pub fabrics: Vec<Instruction>,
}

/// Scans for the first fabric declared under `name`.
#[verifier::loop_isolation(false)]
fn find_position(fabrics: &Vec<Instruction>, name: &String) -> (r: Option<usize>)
    ensures
        match first_match(instr_names(fabrics@), name@) {
            Some(i) => r matches Some(u) && u as int == i,
            None => r is None,
        },
{
    let mut idx: usize = 0;
    while idx < fabrics.len()
        invariant
            idx <= fabrics@.len(),
            forall|k: int| 0 <= k < idx ==> instr_names(fabrics@)[k] != name@,
        decreases fabrics@.len() - idx,
    {
        if fabrics[idx].name == *name {
            proof {
                assert(instr_names(fabrics@)[idx as int] == name@);
                lemma_first_match(instr_names(fabrics@), name@);
            }
            return Some(idx);
        }
        idx += 1;
    }
    proof {
        lemma_first_match(instr_names(fabrics@), name@);
    }
    None
}

/// Scans a list of names for the first occurrence of `name`.
#[verifier::loop_isolation(false)]
fn position_of(names: &Vec<String>, name: &String) -> (r: Option<usize>)
    ensures
        match first_match(names_of(names@), name@) {
            Some(i) => r matches Some(u) && u as int == i,
            None => r is None,
        },
{
    let mut idx: usize = 0;
    while idx < names.len()
        invariant
            idx <= names@.len(),
            forall|k: int| 0 <= k < idx ==> names_of(names@)[k] != name@,
        decreases names@.len() - idx,
    {
        if names[idx] == *name {
            proof {
                assert(names_of(names@)[idx as int] == name@);
                lemma_first_match(names_of(names@), name@);
            }
            return Some(idx);
        }
        idx += 1;
    }
    proof {
        lemma_first_match(names_of(names@), name@);
    }
    None
}

/// Copies a list of names.
#[verifier::loop_isolation(false)]
fn clone_strings(v: &Vec<String>) -> (r: Vec<String>)
    ensures
        r@ == v@,
{
    let mut r: Vec<String> = Vec::new();
    proof {
        assert(r@ =~= v@.take(0));
    }
    let mut i: usize = 0;
    while i < v.len()
        invariant
            i <= v@.len(),
            r@ == v@.take(i as int),
        decreases v@.len() - i,
    {
        let s = v[i].clone();
        r.push(s);
        proof {
            assert(r@ =~= v@.take(i + 1));
        }
        i += 1;
    }
    proof {
        assert(v@.take(v@.len() as int) =~= v@);
    }
    r
}

impl Fabric {
    /// A well-formed fabric set: all names distinct and every
    /// composition reference resolving. `load` establishes this.
    pub open spec fn wf(self) -> bool {
        unique_names_seq(self.fabrics@) && refs_resolve_seq(self.fabrics@)
    }

    /// Decodes the raw records into a validated fabric set. A record of
    /// invalid shape, a repeated name, and an unresolved composition
    /// reference are each rejected, in that order of checks, with the
    /// first offender (in declaration order) deciding the error.
    #[verifier::loop_isolation(false)]
    pub fn load(records: Vec<RawInstruction>) -> (r: Result<Fabric, FabricError>)
        ensures
            ({
                let rs = records@;
                let cl = classify_all(rs);
                &&& (shapes_ok(rs) && unique_names_seq(cl) && refs_resolve_seq(cl) ==> (
                r matches Ok(f) && f.fabrics@ == cl && f.wf()))
                &&& (!shapes_ok(rs) ==> r == Err::<Fabric, FabricError>(FabricError::InvalidFabric))
                &&& (shapes_ok(rs) && !unique_names_seq(cl) ==> r == Err::<Fabric, FabricError>(
                    FabricError::DuplicateFabric,
                ))
                &&& (shapes_ok(rs) && unique_names_seq(cl) && !refs_resolve_seq(cl) ==> r
                    == Err::<Fabric, FabricError>(FabricError::InvalidSubFabric))
            }),
    {
        let ghost rs = records@;
        let mut remaining = records;
        let mut instrs: Vec<Instruction> = Vec::new();
        while remaining.len() > 0
            invariant
                instrs@.len() + remaining@.len() == rs.len(),
                remaining@ == rs.skip(instrs@.len() as int),
                forall|k: int| 0 <= k < instrs@.len() ==> raw_shape_ok(#[trigger] rs[k]),
                forall|k: int|
                    0 <= k < instrs@.len() ==> instrs@[k] == spec_classify(#[trigger] rs[k]),
            decreases remaining@.len(),
        {
            let ghost done: int = instrs@.len() as int;
            let raw = remaining.remove(0);
            proof {
                assert(raw == rs[done]);
                assert(remaining@ =~= rs.skip(done + 1));
            }
            match Instruction::from_raw(raw) {
                Ok(instr) => {
                    instrs.push(instr);
                },
                Err(_) => {
                    proof {
                        assert(!raw_shape_ok(rs[done]));
                    }
                    return Err(FabricError::InvalidFabric);
                },
            }
        }
        proof {
            assert(instrs@ =~= classify_all(rs));
        }
        let mut p: usize = 1;
        while p < instrs.len()
            invariant
                shapes_ok(rs),
                instrs@ == classify_all(rs),
                1 <= p,
                forall|a: int, b: int|
                    0 <= a < b < p && b < instrs@.len() ==> (#[trigger] instrs@[a]).name@ != (
                    #[trigger] instrs@[b]).name@,
            decreases instrs@.len() - p,
        {
            let mut q: usize = 0;
            while q < p
                invariant
                    shapes_ok(rs),
                    instrs@ == classify_all(rs),
                    q <= p < instrs@.len(),
                    forall|k: int|
                        0 <= k < q ==> (#[trigger] instrs@[k]).name@ != instrs@[p as int].name@,
                decreases p - q,
            {
                if instrs[q].name == instrs[p].name {
                    proof {
                        assert(!unique_names_seq(instrs@));
                    }
                    return Err(FabricError::DuplicateFabric);
                }
                q += 1;
            }
            p += 1;
        }
        proof {
            assert(unique_names_seq(instrs@));
        }
        let mut i: usize = 0;
        while i < instrs.len()
            invariant
                shapes_ok(rs),
                instrs@ == classify_all(rs),
                unique_names_seq(instrs@),
                i <= instrs@.len(),
                forall|a: int, k: int|
                    0 <= a < i && 0 <= k < subfabric_names(instrs@[a]).len() ==> first_match(
                        instr_names(instrs@),
                        #[trigger] subfabric_names(instrs@[a])[k],
                    ) is Some,
            decreases instrs@.len() - i,
        {
            match &instrs[i].work {
                Work::Command { .. } => {},
                Work::Composition { subfabrics } => {
                    let mut k: usize = 0;
                    while k < subfabrics.len()
                        invariant
                            shapes_ok(rs),
                            instrs@ == classify_all(rs),
                            unique_names_seq(instrs@),
                            i < instrs@.len(),
                            subfabric_names(instrs@[i as int]) == names_of(subfabrics@),
                            k <= subfabrics@.len(),
                            forall|a: int, k2: int|
                                0 <= a < i && 0 <= k2 < subfabric_names(instrs@[a]).len()
                                    ==> first_match(
                                    instr_names(instrs@),
                                    #[trigger] subfabric_names(instrs@[a])[k2],
                                ) is Some,
                            forall|k2: int|
                                0 <= k2 < k ==> first_match(
                                    instr_names(instrs@),
                                    #[trigger] subfabric_names(instrs@[i as int])[k2],
                                ) is Some,
                        decreases subfabrics@.len() - k,
                    {
                        match find_position(&instrs, &subfabrics[k]) {
                            Some(_) => {},
                            None => {
                                proof {
                                    assert(subfabric_names(instrs@[i as int])[k as int]
                                        == subfabrics@[k as int]@);
                                    assert(!refs_resolve_seq(instrs@));
                                }
                                return Err(FabricError::InvalidSubFabric);
                            },
                        }
                        k += 1;
                    }
                },
            }
            i += 1;
        }
        proof {
            assert(refs_resolve_seq(instrs@));
        }
        Ok(Fabric { fabrics: instrs })
    }

    /// Looks `name` up, returning the first fabric declared under it;
    /// an unknown name is no error here, callers decide.
    pub fn find_by_name(&self, name: &String) -> (r: Option<&Instruction>)
        ensures
            match first_match(instr_names(self.fabrics@), name@) {
                Some(i) => r matches Some(instr) && *instr == self.fabrics@[i],
                None => r is None,
            },
    {
        proof {
            lemma_first_match(instr_names(self.fabrics@), name@);
        }
        match find_position(&self.fabrics, name) {
            Some(u) => Some(&self.fabrics[u]),
            None => None,
        }
    }

    /// One step of the expansion: appends to `out` the positions that
    /// the names `names[pos..]` contribute, left to right, descending
    /// into compositions first. `avail` holds the names not on the
    /// active expansion path.
    fn expand_into(
        &self,
        names: &Vec<String>,
        pos: usize,
        avail: &Vec<String>,
        out: &mut Vec<usize>,
    ) -> (r: Result<(), FabricError>)
        requires
            pos <= names@.len(),
        ensures
            match spec_expand(self.fabrics@, names_of(names@).skip(pos as int), names_of(avail@)) {
                Ok(plan) => r is Ok && plan_of(final(out)@) == plan_of(old(out)@) + plan,
                Err(e) => r == Err::<(), FabricError>(e),
            },
        decreases avail@.len(), names@.len() - pos,
    {
        let ghost req = names_of(names@).skip(pos as int);
        let ghost av = names_of(avail@);
        if pos >= names.len() {
            proof {
                assert(req =~= Seq::<Seq<char>>::empty());
                assert(plan_of(out@) + Seq::<int>::empty() =~= plan_of(out@));
            }
            return Ok(());
        }
        let name = &names[pos];
        proof {
            assert(req[0] == name@);
            assert(req.drop_first() =~= names_of(names@).skip(pos + 1));
        }
        match find_position(&self.fabrics, name) {
            None => Err(FabricError::UnknownFabric),
            Some(i) => {
                proof {
                    lemma_first_match(instr_names(self.fabrics@), name@);
                }
                match &self.fabrics[i].work {
                    Work::Command { .. } => {
                        out.push(i);
                        let ghost mid = out@;
                        proof {
                            assert(plan_of(mid) =~= plan_of(old(out)@) + seq![i as int]);
                        }
                        let res = self.expand_into(names, pos + 1, avail, out);
                        proof {
                            match spec_expand(self.fabrics@, req.drop_first(), av) {
                                Ok(rest) => {
                                    assert((plan_of(old(out)@) + seq![i as int]) + rest =~= plan_of(
                                        old(out)@,
                                    ) + (seq![i as int] + rest));
                                },
                                Err(_) => {},
                            }
                        }
                        res
                    },
                    Work::Composition { subfabrics } => {
                        match position_of(avail, name) {
                            None => Err(FabricError::CyclicFabric),
                            Some(j) => {
                                proof {
                                    lemma_first_match(av, name@);
                                }
                                let mut avail2 = clone_strings(avail);
                                avail2.remove(j);
                                proof {
                                    assert(names_of(avail2@) =~= av.remove(j as int));
                                    assert(names_of(subfabrics@).skip(0) =~= names_of(
                                        subfabrics@,
                                    ));
                                }
                                let ghost base = out@;
                                let res = self.expand_into(subfabrics, 0, &avail2, out);
                                match res {
                                    Err(e) => Err(e),
                                    Ok(_) => {
                                        let ghost mid = out@;
                                        let res2 = self.expand_into(names, pos + 1, avail, out);
                                        proof {
                                            match (
                                                spec_expand(
                                                    self.fabrics@,
                                                    names_of(subfabrics@),
                                                    av.remove(j as int),
                                                ),
                                                spec_expand(self.fabrics@, req.drop_first(), av),
                                            ) {
                                                (Ok(sub), Ok(rest)) => {
                                                    assert((plan_of(base) + sub) + rest
                                                        =~= plan_of(base) + (sub + rest));
                                                },
                                                _ => {},
                                            }
                                        }
                                        res2
                                    },
                                }
                            },
                        }
                    },
                }
            },
        }
    }

    /// Resolves the requested names, in order, into a flat plan: the
    /// positions of direct fabrics, compositions expanded depth-first
    /// in declared order, nothing deduplicated. A name that is not
    /// declared is an error, as is a composition that reaches back to a
    /// name still being expanded.
    pub fn expand_all(&self, tasks: &Vec<String>) -> (r: Result<Vec<usize>, FabricError>)
        ensures
            ({
                let outcome = spec_expand(
                    self.fabrics@,
                    names_of(tasks@),
                    instr_names(self.fabrics@),
                );
                &&& (outcome matches Ok(plan) ==> (r matches Ok(v) && plan_of(v@) == plan))
                &&& (outcome matches Err(e) ==> r == Err::<Vec<usize>, FabricError>(e))
                &&& (r matches Ok(v) ==> forall|k: int|
                    0 <= k < v@.len() ==> #[trigger] v@[k] < self.fabrics@.len()
                        && self.fabrics@[v@[k] as int].work is Command)
            }),
    {
        let avail = self.names();
        let mut out: Vec<usize> = Vec::new();
        let res = self.expand_into(tasks, 0, &avail, &mut out);
        proof {
            assert(names_of(tasks@).skip(0) =~= names_of(tasks@));
            lemma_expand_direct(self.fabrics@, names_of(tasks@), instr_names(self.fabrics@));
            match spec_expand(self.fabrics@, names_of(tasks@), instr_names(self.fabrics@)) {
                Ok(plan) => {
                    assert(plan_of(Seq::<usize>::empty()) + plan =~= plan);
                },
                Err(_) => {},
            }
        }
        match res {
            Ok(_) => {
                proof {
                    match spec_expand(self.fabrics@, names_of(tasks@), instr_names(self.fabrics@)) {
                        Ok(plan) => {
                            assert forall|k: int| 0 <= k < out@.len() implies #[trigger] out@[k]
                                < self.fabrics@.len() && self.fabrics@[out@[k] as int].work
                                is Command by {
                                assert(plan[k] == plan_of(out@)[k]);
                                assert(plan_of(out@)[k] == out@[k] as int);
                            }
                        },
                        Err(_) => {},
                    }
                }
                Ok(out)
            },
            Err(e) => Err(e),
        }
    }

    /// Resolves one fabric into a flat plan: a direct fabric resolves
    /// to itself alone, a composition to the depth-first expansion of
    /// its subfabrics.
    pub fn expand(&self, instruction: &Instruction) -> (r: Result<Vec<usize>, FabricError>)
        ensures
            ({
                let outcome = spec_expand(
                    self.fabrics@,
                    seq![instruction.name@],
                    instr_names(self.fabrics@),
                );
                &&& (outcome matches Ok(plan) ==> (r matches Ok(v) && plan_of(v@) == plan))
                &&& (outcome matches Err(e) ==> r == Err::<Vec<usize>, FabricError>(e))
                &&& (r matches Ok(v) ==> forall|k: int|
                    0 <= k < v@.len() ==> #[trigger] v@[k] < self.fabrics@.len()
                        && self.fabrics@[v@[k] as int].work is Command)
            }),
    {
        let mut requested: Vec<String> = Vec::new();
        requested.push(instruction.name.clone());
        proof {
            assert(names_of(requested@) =~= seq![instruction.name@]);
        }
        self.expand_all(&requested)
    }

    /// The declared names, in declaration order.
    #[verifier::loop_isolation(false)]
    pub fn names(&self) -> (r: Vec<String>)
        ensures
            names_of(r@) == instr_names(self.fabrics@),
    {
        let mut r: Vec<String> = Vec::new();
        proof {
            assert(names_of(r@) =~= instr_names(self.fabrics@).take(0));
        }
        let mut i: usize = 0;
        while i < self.fabrics.len()
            invariant
                i <= self.fabrics@.len(),
                names_of(r@) == instr_names(self.fabrics@).take(i as int),
            decreases self.fabrics@.len() - i,
        {
            let s = self.fabrics[i].name.clone();
            r.push(s);
            proof {
                assert(names_of(r@) =~= instr_names(self.fabrics@).take(i + 1));
            }
            i += 1;
        }
        proof {
            assert(instr_names(self.fabrics@).take(self.fabrics@.len() as int) =~= instr_names(
                self.fabrics@,
            ));
        }
        r
    }
}

/// Loading preserves the declared names exactly, in declaration order:
/// listing a loaded set re-derives the names of the source records.
/// Together with `load`'s contract, a loaded `Fabric` satisfies
/// `names_of(f.names()@) == raw_names(records@)`.
pub proof fn lemma_load_preserves_names(rs: Seq<RawInstruction>)
    requires
        shapes_ok(rs),
    ensures
        instr_names(classify_all(rs)) == raw_names(rs),
{
    assert forall|i: int| 0 <= i < rs.len() implies instr_names(classify_all(rs))[i] == raw_names(
        rs,
    )[i] by {
        assert(raw_shape_ok(rs[i]));
    }
    assert(instr_names(classify_all(rs)) =~= raw_names(rs));
}

} // verus!

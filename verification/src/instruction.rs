//! The shape of one named unit of work. A fabric is either a direct
//! command (program plus argument list) or a composition: an ordered,
//! non-empty list of references to other fabric names.
//!
//! Documents are decoded into the neutral [`RawInstruction`] shape first;
//! [`Instruction::from_raw`] then classifies each record into exactly one
//! of the two kinds, rejecting records that fit neither.

use vstd::prelude::*;
use vstd::string::StringExecFns;

use crate::errors::FabricError;

verus! {

/// The views of a sequence of strings, in order.
pub open spec fn names_of(v: Seq<String>) -> Seq<Seq<char>> {
    v.map_values(|s: String| s@)
}

/// What a fabric does: run one command, or defer to other fabrics.
#[derive(Debug, Clone, PartialEq, Eq)]
pub enum Work {
    /// Run `command` with `args`, in a child process.
    Command { command: String, args: Vec<String> },
    /// Expand to the named fabrics, in the declared order.
    Composition { subfabrics: Vec<String> },
}

/// One named fabric of the project.
#[derive(Debug, Clone, PartialEq, Eq)]
pub struct Instruction {
    /// The project-wide key under which the fabric is requested.
    pub name: String,
    /// Hidden from listings when true; never affects resolution or execution.
    pub private: bool,
    /// The direct or composed work this fabric stands for.
    pub work: Work,
}

/// A fabric record as it appears in the document, before classification:
/// the optional fields are still unconstrained.
#[derive(Debug, Clone, PartialEq, Eq)]
pub struct RawInstruction {
    pub name: String,
    pub private: bool,
    pub command: Option<String>,
    pub args: Option<Vec<String>>,
    pub subfabrics: Option<Vec<String>>,
}

/// A raw record has a valid shape when it is either composed (a present,
/// non-empty `subfabrics` list, which takes precedence over any other
/// fields) or direct (`command` and `args` both present).
pub open spec fn raw_shape_ok(r: RawInstruction) -> bool {
    match r.subfabrics {
        Some(subs) => subs@.len() > 0,
        None => r.command is Some && r.args is Some,
    }
}

/// The classification of a well-shaped raw record into its kind.
pub open spec fn spec_classify(r: RawInstruction) -> Instruction {
    match r.subfabrics {
        Some(subs) => Instruction {
            name: r.name,
            private: r.private,
            work: Work::Composition { subfabrics: subs },
        },
        None => match (r.command, r.args) {
            (Some(c), Some(a)) => Instruction {
                name: r.name,
                private: r.private,
                work: Work::Command { command: c, args: a },
            },
            _ => arbitrary(),
        },
    }
}

/// Every raw record of the document has a valid shape.
pub open spec fn shapes_ok(rs: Seq<RawInstruction>) -> bool {
    forall|i: int| 0 <= i < rs.len() ==> raw_shape_ok(#[trigger] rs[i])
}

/// The classification of every record, in declaration order.
pub open spec fn classify_all(rs: Seq<RawInstruction>) -> Seq<Instruction> {
    rs.map_values(|r: RawInstruction| spec_classify(r))
}

/// The declared names of the raw records, in declaration order.
pub open spec fn raw_names(rs: Seq<RawInstruction>) -> Seq<Seq<char>> {
    rs.map_values(|r: RawInstruction| r.name@)
}

/// `parts` joined with `sep` between consecutive elements.
pub open spec fn spec_join(parts: Seq<Seq<char>>, sep: Seq<char>) -> Seq<char>
    decreases parts.len(),
{
    if parts.len() == 0 {
        Seq::empty()
    } else if parts.len() == 1 {
        parts[0]
    } else {
        spec_join(parts.drop_last(), sep) + sep + parts.last()
    }
}

/// Joins the strings of `parts` with `sep` between consecutive elements.
fn join_names(parts: &Vec<String>, sep: &str) -> (r: String)
    ensures
        r@ == spec_join(names_of(parts@), sep@),
{
    let ghost ps = names_of(parts@);
    let mut r = String::new();
    let mut i: usize = 0;
    while i < parts.len()
        invariant
            i <= parts@.len(),
            ps == names_of(parts@),
            r@ == spec_join(ps.take(i as int), sep@),
        decreases parts@.len() - i,
    {
        if i > 0 {
            r.append(sep);
        }
        r.append(parts[i].as_str());
        proof {
            assert(ps.take(i + 1).drop_last() =~= ps.take(i as int));
            assert(ps.take(i + 1).last() == ps[i as int]);
            if i == 0 {
                assert(Seq::<char>::empty() + ps[0] =~= ps[0]);
            }
        }
        i += 1;
    }
    proof {
        assert(ps.take(parts@.len() as int) =~= ps);
    }
    r
}

impl Instruction {
    /// Whether this fabric is a composition of other fabrics.
    pub fn is_composed(&self) -> (r: bool)
        ensures
            r == (self.work is Composition),
    {
        match &self.work {
            Work::Composition { .. } => true,
            Work::Command { .. } => false,
        }
    }

    /// The human-readable description of what this fabric stands for.
    pub open spec fn explanation(self) -> Seq<char> {
        match self.work {
            Work::Composition { subfabrics } => "composition of commands: "@ + spec_join(
                names_of(subfabrics@),
                ", "@,
            ),
            Work::Command { command, args } => command@ + " "@ + spec_join(
                names_of(args@),
                " "@,
            ),
        }
    }

    /// Describes the fabric for listings and progress lines: the command
    /// with its arguments, or the names the composition expands to.
    pub fn explain(&self) -> (r: String)
        ensures
            r@ == self.explanation(),
    {
        match &self.work {
            Work::Composition { subfabrics } => {
                let mut r = String::from_str("composition of commands: ");
                let joined = join_names(subfabrics, ", ");
                r.append(joined.as_str());
                r
            },
            Work::Command { command, args } => {
                let mut r = command.clone();
                r.append(" ");
                let joined = join_names(args, " ");
                r.append(joined.as_str());
                r
            },
        }
    }

    /// Classifies a decoded record: a present, non-empty `subfabrics`
    /// list makes a composition (taking precedence over `command` and
    /// `args`); otherwise `command` and `args` must both be present and
    /// make a direct fabric. Anything else is rejected at load time.
    pub fn from_raw(raw: RawInstruction) -> (r: Result<Instruction, FabricError>)
        ensures
            raw_shape_ok(raw) ==> (r matches Ok(i) && i == spec_classify(raw)),
            !raw_shape_ok(raw) ==> r == Err::<Instruction, FabricError>(FabricError::InvalidFabric),
    {
        let RawInstruction { name, private, command, args, subfabrics } = raw;
        match subfabrics {
            Some(subs) => {
                if subs.len() > 0 {
                    Ok(Instruction { name, private, work: Work::Composition { subfabrics: subs } })
                } else {
                    Err(FabricError::InvalidFabric)
                }
            },
            None => match (command, args) {
                (Some(c), Some(a)) => Ok(
                    Instruction { name, private, work: Work::Command { command: c, args: a } },
                ),
                _ => Err(FabricError::InvalidFabric),
            },
        }
    }
}

} // verus!

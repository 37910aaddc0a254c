use fabric::errors::FabricError;
use fabric::execution::Execution;
use fabric::fabric::Fabric;
use fabric::instruction::{Instruction, RawInstruction, Work};

fn raw_direct(name: &str, command: &str, args: &[&str]) -> RawInstruction {
    RawInstruction {
        name: String::from(name),
        private: false,
        command: Some(String::from(command)),
        args: Some(args.iter().map(|a| String::from(*a)).collect()),
        subfabrics: None,
    }
}

fn raw_composed(name: &str, subs: &[&str]) -> RawInstruction {
    RawInstruction {
        name: String::from(name),
        private: false,
        command: None,
        args: None,
        subfabrics: Some(subs.iter().map(|s| String::from(*s)).collect()),
    }
}

fn names(strs: &[&str]) -> Vec<String> {
    strs.iter().map(|s| String::from(*s)).collect()
}

#[test]
fn load_single_direct() {
    let f = Fabric::load(vec![raw_direct("build", "make", &["all"])]).unwrap();
    assert_eq!(f.fabrics.len(), 1);
    assert_eq!(f.fabrics[0].name, "build");
    assert!(!f.fabrics[0].is_composed());
}

#[test]
fn load_classifies_composition_with_precedence() {
    // `subtasks` present: composite, even though command and args are too.
    let mut r = raw_direct("both", "make", &[]);
    r.subfabrics = Some(names(&["build"]));
    let f = Fabric::load(vec![raw_direct("build", "make", &[]), r]).unwrap();
    assert!(f.fabrics[1].is_composed());
}

#[test]
fn load_rejects_shapeless_record() {
    let r = RawInstruction {
        name: String::from("nothing"),
        private: false,
        command: None,
        args: None,
        subfabrics: None,
    };
    assert_eq!(Fabric::load(vec![r]), Err(FabricError::InvalidFabric));
}

#[test]
fn load_rejects_empty_composition() {
    assert_eq!(
        Fabric::load(vec![raw_composed("empty", &[])]),
        Err(FabricError::InvalidFabric)
    );
}

#[test]
fn load_rejects_command_without_args() {
    let r = RawInstruction {
        name: String::from("half"),
        private: false,
        command: Some(String::from("make")),
        args: None,
        subfabrics: None,
    };
    assert_eq!(Fabric::load(vec![r]), Err(FabricError::InvalidFabric));
}

#[test]
fn load_rejects_duplicate_names() {
    let records = vec![
        raw_direct("build", "make", &[]),
        raw_direct("test", "cargo", &["test"]),
        raw_direct("build", "gcc", &[]),
    ];
    assert_eq!(Fabric::load(records), Err(FabricError::DuplicateFabric));
}

#[test]
fn load_rejects_dangling_reference() {
    let records = vec![
        raw_direct("build", "make", &[]),
        raw_composed("all", &["build", "missing"]),
    ];
    assert_eq!(Fabric::load(records), Err(FabricError::InvalidSubFabric));
}

#[test]
fn load_shape_error_wins_over_duplicate() {
    let records = vec![
        raw_composed("empty", &[]),
        raw_direct("build", "make", &[]),
        raw_direct("build", "gcc", &[]),
    ];
    assert_eq!(Fabric::load(records), Err(FabricError::InvalidFabric));
}

#[test]
fn round_trip_preserves_declared_names_in_order() {
    let records = vec![
        raw_direct("build", "make", &[]),
        raw_composed("all", &["build", "test"]),
        raw_direct("test", "cargo", &["test"]),
    ];
    let f = Fabric::load(records).unwrap();
    assert_eq!(f.names(), names(&["build", "all", "test"]));
}

#[test]
fn find_by_name_returns_declared_fabric() {
    let f = Fabric::load(vec![
        raw_direct("build", "make", &[]),
        raw_direct("test", "cargo", &["test"]),
    ])
    .unwrap();
    let t = f.find_by_name(&String::from("test")).unwrap();
    assert_eq!(t.name, "test");
    assert!(f.find_by_name(&String::from("deploy")).is_none());
}

#[test]
fn find_by_name_takes_first_declaration() {
    // Built directly, bypassing load's duplicate check.
    let f = Fabric {
        fabrics: vec![
            Instruction {
                name: String::from("x"),
                private: false,
                work: Work::Command { command: String::from("first"), args: vec![] },
            },
            Instruction {
                name: String::from("x"),
                private: true,
                work: Work::Command { command: String::from("second"), args: vec![] },
            },
        ],
    };
    let hit = f.find_by_name(&String::from("x")).unwrap();
    assert!(matches!(&hit.work, Work::Command { command, .. } if command == "first"));
}

#[test]
fn expand_single_direct_yields_that_task() {
    let f = Fabric::load(vec![raw_direct("build", "make", &[])]).unwrap();
    let plan = f.expand_all(&names(&["build"])).unwrap();
    assert_eq!(plan, vec![0]);
    assert_eq!(f.fabrics[plan[0]].name, "build");
}

#[test]
fn expand_nested_composition_pre_order() {
    // top -> [a, b], a direct, b -> [c]: the plan is [a, c].
    let records = vec![
        raw_composed("top", &["a", "b"]),
        raw_direct("a", "echo", &["a"]),
        raw_composed("b", &["c"]),
        raw_direct("c", "echo", &["c"]),
    ];
    let f = Fabric::load(records).unwrap();
    let plan = f.expand_all(&names(&["top"])).unwrap();
    assert_eq!(plan, vec![1, 3]);
    assert_eq!(f.fabrics[plan[0]].name, "a");
    assert_eq!(f.fabrics[plan[1]].name, "c");
}

#[test]
fn expand_keeps_request_order_and_multiplicity() {
    let records = vec![
        raw_composed("x", &["y", "y"]),
        raw_direct("y", "echo", &["y"]),
    ];
    let f = Fabric::load(records).unwrap();
    let plan = f.expand_all(&names(&["x", "y"])).unwrap();
    assert_eq!(plan, vec![1, 1, 1]);
}

#[test]
fn expand_allows_repeated_sibling_compositions() {
    // Expanding b twice is no cycle: its name leaves the path in between.
    let records = vec![
        raw_composed("top", &["b", "b"]),
        raw_composed("b", &["c"]),
        raw_direct("c", "true", &[]),
    ];
    let f = Fabric::load(records).unwrap();
    let plan = f.expand_all(&names(&["top"])).unwrap();
    assert_eq!(plan, vec![2, 2]);
}

#[test]
fn expand_rejects_unknown_request() {
    let f = Fabric::load(vec![raw_direct("build", "make", &[])]).unwrap();
    assert_eq!(
        f.expand_all(&names(&["deploy"])),
        Err(FabricError::UnknownFabric)
    );
}

#[test]
fn expand_rejects_direct_self_cycle() {
    let records = vec![raw_composed("loop", &["loop"])];
    let f = Fabric::load(records).unwrap();
    assert_eq!(
        f.expand_all(&names(&["loop"])),
        Err(FabricError::CyclicFabric)
    );
}

#[test]
fn expand_rejects_transitive_cycle() {
    let records = vec![
        raw_composed("x", &["y"]),
        raw_composed("y", &["x"]),
    ];
    let f = Fabric::load(records).unwrap();
    assert_eq!(f.expand_all(&names(&["x"])), Err(FabricError::CyclicFabric));
}

#[test]
fn expand_one_instruction() {
    let records = vec![
        raw_composed("all", &["build", "build"]),
        raw_direct("build", "make", &[]),
    ];
    let f = Fabric::load(records).unwrap();
    let top = f.find_by_name(&String::from("all")).unwrap().clone();
    assert_eq!(f.expand(&top), Ok(vec![1, 1]));
    let build = f.find_by_name(&String::from("build")).unwrap().clone();
    assert_eq!(f.expand(&build), Ok(vec![1]));
}

#[test]
fn explain_direct_command() {
    let f = Fabric::load(vec![raw_direct("build", "make", &["all", "install"])]).unwrap();
    assert_eq!(f.fabrics[0].explain(), "make all install");
}

#[test]
fn explain_direct_command_without_args() {
    // The separating space is kept even with no arguments.
    let f = Fabric::load(vec![raw_direct("build", "make", &[])]).unwrap();
    assert_eq!(f.fabrics[0].explain(), "make ");
}

#[test]
fn explain_composition() {
    let records = vec![
        raw_composed("all", &["build", "test"]),
        raw_direct("build", "make", &[]),
        raw_direct("test", "cargo", &["test"]),
    ];
    let f = Fabric::load(records).unwrap();
    assert_eq!(f.fabrics[0].explain(), "composition of commands: build, test");
}

#[test]
fn execution_runs_plan_in_order() {
    let mut e = Execution::new(vec![4, 7]);
    assert_eq!(e.current(), Some(4));
    e.record(true);
    assert_eq!(e.current(), Some(7));
    e.record(true);
    assert_eq!(e.current(), None);
    assert!(e.finished());
    assert_eq!(e.failure(), None);
}

#[test]
fn execution_failure_halts_and_identifies_task() {
    let mut e = Execution::new(vec![4, 7]);
    assert_eq!(e.current(), Some(4));
    e.record(false);
    // The second entry is never offered; the failure names the first.
    assert_eq!(e.current(), None);
    assert_eq!(e.failure(), Some(4));
    assert!(!e.finished());
}

#[test]
fn load_accepts_empty_document() {
    let f = Fabric::load(vec![]).unwrap();
    assert!(f.fabrics.is_empty());
    assert!(f.names().is_empty());
}

#[test]
fn expand_of_no_requests_is_empty_plan() {
    let f = Fabric::load(vec![raw_direct("build", "make", &[])]).unwrap();
    assert_eq!(f.expand_all(&vec![]), Ok(vec![]));
}

#[test]
fn execution_of_empty_plan_is_finished_at_once() {
    let e = Execution::new(vec![]);
    assert_eq!(e.current(), None);
    assert!(e.finished());
    assert_eq!(e.failure(), None);
}

#[test]
fn error_messages_are_fixed() {
    assert_eq!(
        FabricError::NoFabricProject.value(),
        "Current directory is not a fabric project"
    );
    assert_eq!(
        FabricError::NoAccessToFile.value(),
        ".fabric file exists but cannot be read."
    );
    assert_eq!(
        FabricError::InvalidFabric.value(),
        ".fabric file cannot be parsed. JSON not in expected structure."
    );
    assert_eq!(
        FabricError::DuplicateFabric.value(),
        "Two fabrics in .fabric share the same name"
    );
    assert_eq!(
        FabricError::InvalidSubFabric.value(),
        "One or more of the subfabrics in .fabric doesnt exist"
    );
    assert_eq!(
        FabricError::CyclicFabric.value(),
        "One of the subfabric compositions in .fabric refers back to itself"
    );
    assert_eq!(
        FabricError::UnknownFabric.value(),
        "One of the requested fabrics doesnt exist in .fabric"
    );
    assert_eq!(FabricError::ExecutionError.value(), "Command failed to execute");
}

#[test]
fn private_flag_survives_load_and_spares_resolution() {
    let mut r = raw_direct("secretstep", "make", &[]);
    r.private = true;
    let f = Fabric::load(vec![r, raw_composed("all", &["secretstep"])]).unwrap();
    assert!(f.fabrics[0].private);
    // Private fabrics resolve and execute like any other.
    assert_eq!(f.expand_all(&names(&["all"])), Ok(vec![0]));
}

#[test]
fn from_raw_classifies_each_shape() {
    let d = Instruction::from_raw(raw_direct("build", "make", &["all"])).unwrap();
    assert!(matches!(d.work, Work::Command { .. }));
    let c = Instruction::from_raw(raw_composed("all", &["build"])).unwrap();
    assert!(matches!(c.work, Work::Composition { .. }));
    let bad = RawInstruction {
        name: String::from("bad"),
        private: false,
        command: None,
        args: Some(vec![]),
        subfabrics: None,
    };
    assert_eq!(Instruction::from_raw(bad), Err(FabricError::InvalidFabric));
}

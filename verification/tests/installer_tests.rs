use always_online_node::Bundle;
use always_online_node::BundleOutcome;
use always_online_node::CellAddress;
use always_online_node::CellDefinition;
use always_online_node::CellRecord;
use always_online_node::Failure;
use always_online_node::InstallRequest;
use always_online_node::PlanStep;
use always_online_node::Reconcile;
use always_online_node::RejectReason;
use always_online_node::Resource;
use always_online_node::cell_id;

use always_online_node::init_entry_point;
use always_online_node::init_targets;
use always_online_node::reconcile_plan;

fn bundle(name: &str, payload: u8) -> Bundle {
    Bundle {
        app_name: name.as_bytes().to_vec(),
        resources: vec![Resource { path: b"dna".to_vec(), bytes: vec![payload] }],
    }
}

fn parsed(source: &str, name: &str, payload: u8) -> BundleOutcome {
    BundleOutcome::Parsed { source: String::from(source), bundle: bundle(name, payload) }
}

fn install_ids(plan: &[PlanStep]) -> Vec<String> {
    let mut ids = Vec::new();
    for step in plan {
        if let PlanStep::Install { id } = step {
            ids.push(id.clone());
        }
    }
    ids
}

#[test]
fn plan_installs_every_missing_bundle_in_order() {
    let outcomes = vec![parsed("a.happ", "a", 1), parsed("b.happ", "b", 2)];
    let plan = reconcile_plan(outcomes, &vec![]);
    let id_a = always_online_node::ident::derive(&bundle("a", 1)).unwrap();
    let id_b = always_online_node::ident::derive(&bundle("b", 2)).unwrap();
    assert_eq!(plan.len(), 2);
    assert_eq!(install_ids(&plan), vec![id_a, id_b]);
}

#[test]
fn plan_skips_an_already_installed_identifier() {
    let id_a = always_online_node::ident::derive(&bundle("a", 1)).unwrap();
    let outcomes = vec![parsed("a.happ", "a", 1), parsed("b.happ", "b", 2)];
    let plan = reconcile_plan(outcomes, &vec![id_a.clone()]);
    match &plan[0] {
        PlanStep::AlreadyPresent { id } => assert_eq!(id, &id_a),
        other => panic!("expected a skip, got {:?}", std::mem::discriminant(other)),
    }
    assert_eq!(install_ids(&plan).len(), 1);
}

#[test]
fn plan_installs_identical_content_only_once() {
    let outcomes = vec![parsed("one.happ", "a", 1), parsed("two.happ", "a", 1)];
    let plan = reconcile_plan(outcomes, &vec![]);
    assert_eq!(install_ids(&plan).len(), 1);
    assert!(matches!(&plan[1], PlanStep::AlreadyPresent { .. }));
}

#[test]
fn second_run_against_the_grown_set_installs_nothing() {
    let make = || vec![parsed("a.happ", "a", 1), parsed("b.happ", "b", 2)];
    let installed: Vec<String> = vec![];
    let first = reconcile_plan(make(), &installed);
    let mut grown = installed.clone();
    grown.extend(install_ids(&first));
    let second = reconcile_plan(make(), &grown);
    assert_eq!(install_ids(&second).len(), 0);
    assert_eq!(second.len(), 2);
    assert!(matches!(&second[0], PlanStep::AlreadyPresent { .. }));
    assert!(matches!(&second[1], PlanStep::AlreadyPresent { .. }));
}

#[test]
fn one_unreadable_bundle_does_not_block_the_others() {
    let outcomes = vec![
        parsed("a.happ", "a", 1),
        BundleOutcome::Unreadable {
            source: String::from("b.happ"),
            detail: String::from("truncated archive"),
        },
        parsed("c.happ", "c", 3),
    ];
    let plan = reconcile_plan(outcomes, &vec![]);
    let id_a = always_online_node::ident::derive(&bundle("a", 1)).unwrap();
    let id_c = always_online_node::ident::derive(&bundle("c", 3)).unwrap();
    assert_eq!(plan.len(), 3);
    assert_eq!(install_ids(&plan), vec![id_a.clone(), id_c.clone()]);
    match &plan[1] {
        PlanStep::Rejected { source, reason } => {
            assert_eq!(source, "b.happ");
            match reason {
                RejectReason::BundleRead { detail } => assert_eq!(detail, "truncated archive"),
                RejectReason::Encoding => panic!("wrong rejection reason"),
            }
        },
        _ => panic!("the unreadable bundle must be rejected by name"),
    }

    // run the plan: the first and third are newly installed, the second is
    // reported as a failure naming its source
    let mut machine = Reconcile::new(plan);
    match machine.next_request() {
        InstallRequest::Install { id } => assert_eq!(id, id_a),
        _ => panic!("expected an install request"),
    }
    machine.on_install_ok(vec![]);
    match machine.next_request() {
        InstallRequest::Install { id } => assert_eq!(id, id_c),
        _ => panic!("expected an install request"),
    }
    machine.on_install_ok(vec![]);
    assert!(matches!(machine.next_request(), InstallRequest::Finished));
    assert_eq!(machine.newly, vec![id_a, id_c]);
    assert_eq!(machine.failures.len(), 1);
    match &machine.failures[0] {
        Failure::Rejected { source, .. } => assert_eq!(source, "b.happ"),
        _ => panic!("expected the rejection to be recorded"),
    }
}

#[test]
fn malformed_manifest_is_rejected_for_that_bundle_only() {
    let outcomes = vec![parsed("empty.happ", "", 1), parsed("b.happ", "b", 2)];
    let plan = reconcile_plan(outcomes, &vec![]);
    match &plan[0] {
        PlanStep::Rejected { source, reason } => {
            assert_eq!(source, "empty.happ");
            assert!(matches!(reason, RejectReason::Encoding));
        },
        _ => panic!("a bundle without a canonical encoding must be rejected"),
    }
    assert_eq!(install_ids(&plan).len(), 1);
}

#[test]
fn install_refusal_is_recorded_and_stepped_past() {
    let outcomes = vec![parsed("a.happ", "a", 1), parsed("b.happ", "b", 2)];
    let plan = reconcile_plan(outcomes, &vec![]);
    let id_a = always_online_node::ident::derive(&bundle("a", 1)).unwrap();
    let id_b = always_online_node::ident::derive(&bundle("b", 2)).unwrap();
    let mut machine = Reconcile::new(plan);
    assert!(matches!(machine.next_request(), InstallRequest::Install { .. }));
    machine.on_install_failed(String::from("conductor refused"));
    match machine.next_request() {
        InstallRequest::Install { id } => assert_eq!(id, id_b),
        _ => panic!("the run must continue with the next bundle"),
    }
    machine.on_install_ok(vec![]);
    assert!(matches!(machine.next_request(), InstallRequest::Finished));
    assert_eq!(machine.newly, vec![id_b]);
    match &machine.failures[0] {
        Failure::InstallFailed { id, detail } => {
            assert_eq!(id, &id_a);
            assert_eq!(detail, "conductor refused");
        },
        _ => panic!("the refusal must be recorded by identifier"),
    }
}

fn address(tag: u8) -> CellAddress {
    CellAddress { dna_hash: vec![tag; 4], agent_key: vec![0xa0; 4] }
}

#[test]
fn cells_are_initialized_one_by_one_and_stems_are_skipped() {
    let outcomes = vec![parsed("a.happ", "a", 1)];
    let plan = reconcile_plan(outcomes, &vec![]);
    let id_a = always_online_node::ident::derive(&bundle("a", 1)).unwrap();
    let mut machine = Reconcile::new(plan);
    assert!(matches!(machine.next_request(), InstallRequest::Install { .. }));
    machine.on_install_ok(vec![
        CellRecord::Provisioned { cell: address(1) },
        CellRecord::Stem,
        CellRecord::Cloned { cell: address(2) },
    ]);
    match machine.next_request() {
        InstallRequest::Initialize { id, cell } => {
            assert_eq!(id, id_a);
            assert_eq!(cell.dna_hash, vec![1; 4]);
        },
        _ => panic!("the first addressable cell must be initialized"),
    }
    machine.on_cell_done();
    match machine.next_request() {
        InstallRequest::Initialize { id, cell } => {
            assert_eq!(id, id_a);
            assert_eq!(cell.dna_hash, vec![2; 4]);
        },
        _ => panic!("the second addressable cell must be initialized"),
    }
    machine.on_cell_failed(String::from("init call failed"));
    assert!(matches!(machine.next_request(), InstallRequest::Finished));
    // the application stays installed; the cell failure is reported by name
    assert_eq!(machine.newly, vec![id_a.clone()]);
    match &machine.failures[0] {
        Failure::CellInitFailed { id, cell, detail } => {
            assert_eq!(id, &id_a);
            assert_eq!(cell.dna_hash, vec![2; 4]);
            assert_eq!(detail, "init call failed");
        },
        _ => panic!("the cell failure must name the application and the cell"),
    }
}

#[test]
fn cell_id_skips_stem_cells() {
    assert!(cell_id(&CellRecord::Stem).is_none());
    let found = cell_id(&CellRecord::Provisioned { cell: address(7) }).unwrap();
    assert_eq!(found.dna_hash, vec![7; 4]);
    let found = cell_id(&CellRecord::Cloned { cell: address(9) }).unwrap();
    assert_eq!(found.dna_hash, vec![9; 4]);
}

#[test]
fn init_targets_keeps_the_reported_order() {
    let targets = init_targets(&vec![
        CellRecord::Stem,
        CellRecord::Provisioned { cell: address(3) },
        CellRecord::Cloned { cell: address(5) },
    ]);
    assert_eq!(targets.len(), 2);
    assert_eq!(targets[0].dna_hash, vec![3; 4]);
    assert_eq!(targets[1].dna_hash, vec![5; 4]);
}

#[test]
fn init_entry_point_names_the_first_coordinator_zome() {
    let definition = CellDefinition {
        coordinator_zomes: vec![String::from("posts"), String::from("profiles")],
    };
    let call = init_entry_point(&definition).unwrap();
    assert_eq!(call.zome, "posts");
    assert_eq!(call.function, "init");
}

#[test]
fn init_entry_point_skips_a_cell_without_coordinator_zomes() {
    let definition = CellDefinition { coordinator_zomes: vec![] };
    assert!(init_entry_point(&definition).is_none());
}

use rgb20::{
    Asset, AssetTransition, Bytes32, ChainLink, ConsignmentData, ConsistencyError, ContractId,
    Error, GenesisData, InflationMap, InflationState, IssueTransition, NodeId, OutPoint,
    RenominationTransition, RevealedValue, SchemaId, SealDefinition, Txid, ValueAssignment,
};
use rgb20::AttachmentId;

fn h(n: u128) -> Bytes32 {
    Bytes32 { hi: 0, lo: n }
}

fn txid(n: u128) -> Txid {
    Txid(h(n))
}

fn node(n: u128) -> NodeId {
    NodeId(h(n))
}

fn op(n: u128, vout: u32) -> OutPoint {
    OutPoint { txid: txid(n), vout }
}

fn rv(value: u64) -> RevealedValue {
    RevealedValue { value, blinding: h(77) }
}

fn revealed(tx: Option<u128>, vout: u32, value: u64) -> ValueAssignment {
    ValueAssignment::Revealed {
        seal: SealDefinition { txid: tx.map(txid), vout },
        state: rv(value),
    }
}

fn schema() -> SchemaId {
    SchemaId(h(0x20))
}

fn contract() -> ContractId {
    ContractId(h(1))
}

fn inflation(entries: &[(OutPoint, u64, Vec<u16>)]) -> InflationMap {
    let mut m = InflationMap::new();
    for (seal, value, indexes) in entries {
        m.insert(*seal, *value, indexes.clone());
    }
    m
}

fn genesis() -> GenesisData {
    GenesisData {
        schema_id: schema(),
        contract_id: contract(),
        chain: "testnet".to_string(),
        issued_supply: vec![1000],
        timestamps: vec![1_600_000_000],
        tickers: vec!["TKN".to_string()],
        names: vec!["Token".to_string()],
        precisions: vec![2],
        ricardian_contract: None,
        inflation_states: vec![InflationState::Revealed(Some(500))],
        inflation_assignments: Some(inflation(&[(op(50, 0), 500, vec![0])])),
        epoch_seals: Some(vec![SealDefinition { txid: Some(txid(60)), vout: 1 }]),
        asset_assignments: vec![revealed(Some(70), 0, 600), revealed(Some(70), 1, 400)],
    }
}

fn genesis_asset() -> Asset {
    Asset::from_genesis(genesis(), schema()).unwrap()
}

fn link(n: u128, witness: u128, seals: Vec<OutPoint>) -> ChainLink {
    ChainLink { node_id: node(n), witness: txid(witness), closed_seals: Ok(seals) }
}

fn bare(g: GenesisData) -> ConsignmentData {
    ConsignmentData {
        genesis: g,
        burn_chains: vec![],
        epoch_chain: None,
        issues: vec![],
        renominations: vec![],
        asset_transitions: vec![],
    }
}

fn consignment_failure(c: ConsignmentData) -> Error {
    match Asset::from_consignment(c, schema()) {
        Ok(_) => panic!("consignment was read"),
        Err(e) => e,
    }
}

#[test]
fn add_allocation_twice_is_refused() {
    let mut a = genesis_asset();
    assert!(a.add_allocation(op(80, 0), node(5), 0, rv(30)));
    assert_eq!(a.known_allocations().len(), 3);
    assert_eq!(a.known_value(), 1030);
    assert!(!a.add_allocation(op(80, 0), node(5), 0, rv(30)));
    assert_eq!(a.known_allocations().len(), 3);
    assert_eq!(a.known_value(), 1030);
    assert!(a.add_allocation(op(80, 0), node(5), 1, rv(30)));
    assert_eq!(a.known_value(), 1060);
}

#[test]
fn add_allocation_keeps_the_rest_of_the_asset() {
    let mut a = genesis_asset();
    a.add_allocation(op(81, 0), node(5), 0, rv(1));
    assert_eq!(a.known_issues().len(), 1);
    assert_eq!(a.ticker(), "TKN");
    assert_eq!(a.epoch_opening_seal(), Some(op(60, 1)));
    let last = a.known_allocations()[2];
    assert_eq!(last.outpoint, op(81, 0));
    assert_eq!(last.node_id, node(5));
}

#[test]
fn filtered_value_sums_accepted_allocations() {
    let a = genesis_asset();
    assert_eq!(a.known_filtered_value(|al: &rgb20::Allocation| al.index == 1), 400);
    assert_eq!(a.known_filtered_value(|_: &rgb20::Allocation| true), a.known_value());
    assert_eq!(a.known_filtered_value(|_: &rgb20::Allocation| false), 0);
}

#[test]
fn outpoint_allocations_lists_matching_ones() {
    let mut a = genesis_asset();
    a.add_allocation(op(80, 0), node(5), 0, rv(30));
    let at_first = a.outpoint_allocations(op(70, 0));
    assert_eq!(at_first.len(), 1);
    assert_eq!(at_first[0].value(), 600);
    assert_eq!(a.outpoint_allocations(op(80, 0)).len(), 1);
    assert!(a.outpoint_allocations(op(99, 0)).is_empty());
}

#[test]
fn known_inflation_of_genesis_asset() {
    let a = genesis_asset();
    let m = a.known_inflation();
    assert_eq!(m.len(), 1);
    let e = m.get(&op(50, 0)).unwrap();
    assert_eq!(e.value, 500);
    assert_eq!(e.indexes, vec![0]);
}

#[test]
fn bare_consignment_reads_as_its_genesis() {
    let a = Asset::from_consignment(bare(genesis()), schema()).unwrap();
    assert_eq!(a.known_issues().len(), 1);
    assert!(a.epochs().is_empty());
    assert_eq!(a.known_allocations().len(), 2);
    assert_eq!(a.known_value(), 1000);
    let mut g = genesis();
    g.timestamps = vec![];
    assert_eq!(consignment_failure(bare(g)), Error::UnsatisfiedSchemaRequirement);
}

fn full_consignment() -> ConsignmentData {
    ConsignmentData {
        genesis: genesis(),
        burn_chains: vec![vec![
            link(31, 310, vec![]),
            link(21, 210, vec![op(22, 0)]),
            link(11, 110, vec![op(12, 0)]),
        ]],
        epoch_chain: Some(vec![
            link(31, 310, vec![op(32, 0)]),
            link(30, 300, vec![op(60, 1)]),
        ]),
        issues: vec![IssueTransition {
            node_id: node(40),
            witness: txid(400),
            closed_seals: Ok(vec![op(50, 0)]),
            inflation_assignments: Some(inflation(&[
                (op(50, 0), 200, vec![1]),
                (op(51, 0), 100, vec![2]),
            ])),
        }],
        renominations: vec![],
        asset_transitions: vec![
            AssetTransition {
                node_id: node(40),
                witness: txid(400),
                assignments: vec![
                    ValueAssignment::Concealed,
                    revealed(None, 3, 250),
                    revealed(Some(90), 0, 50),
                ],
            },
            AssetTransition {
                node_id: node(41),
                witness: txid(410),
                assignments: vec![revealed(Some(70), 0, 600)],
            },
        ],
    }
}

#[test]
fn consignment_adds_epochs_issues_and_allocations() {
    let a = Asset::from_consignment(full_consignment(), schema()).unwrap();
    let epochs = a.epochs();
    assert_eq!(epochs.len(), 2);
    assert_eq!(epochs[0].id, node(30));
    assert_eq!(epochs[0].no, 0);
    assert_eq!(epochs[0].closes, op(60, 1));
    assert_eq!(epochs[0].witness, txid(300));
    assert!(epochs[0].operations.is_empty());
    assert_eq!(epochs[1].id, node(31));
    assert_eq!(epochs[1].no, 1);
    assert_eq!(epochs[1].closes, op(32, 0));
    assert_eq!(epochs[1].operations.len(), 2);
    assert_eq!(epochs[1].operations[0].id, node(11));
    assert_eq!(epochs[1].operations[0].closes, op(12, 0));
    assert_eq!(epochs[1].operations[1].id, node(21));
    assert_eq!(epochs[1].operations[1].no, 1);
    assert_eq!(epochs[1].operations[1].epoch_id, node(31));

    let issues = a.known_issues();
    assert_eq!(issues.len(), 2);
    assert_eq!(issues[0].id, node(1));
    assert_eq!(issues[1].id, node(40));
    assert_eq!(issues[1].witness, Some(txid(400)));
    assert_eq!(issues[1].closed_seals, vec![op(50, 0)]);

    let allocations = a.known_allocations();
    assert_eq!(allocations.len(), 5);
    assert_eq!(allocations[2].outpoint, op(400, 3));
    assert_eq!(allocations[2].index, 0);
    assert_eq!(allocations[2].node_id, node(40));
    assert_eq!(allocations[3].outpoint, op(90, 0));
    assert_eq!(allocations[3].index, 1);
    assert_eq!(allocations[4].node_id, node(41));
    assert_eq!(allocations[4].index, 0);
    assert_eq!(a.known_value(), 1900);
}

#[test]
fn consignment_known_inflation_prefers_later_issues() {
    let a = Asset::from_consignment(full_consignment(), schema()).unwrap();
    let m = a.known_inflation();
    assert_eq!(m.len(), 2);
    assert_eq!(m.get(&op(50, 0)).unwrap().value, 200);
    assert_eq!(m.get(&op(51, 0)).unwrap().value, 100);
}

#[test]
fn law_transition_allocations_stay_distinct() {
    let mut c = full_consignment();
    c.asset_transitions.push(c.asset_transitions[0].clone());
    let a = Asset::from_consignment(c, schema()).unwrap();
    let allocations = a.known_allocations();
    assert_eq!(allocations.len(), 5);
    for i in 0..allocations.len() {
        for j in 0..i {
            assert_ne!(allocations[i], allocations[j]);
        }
    }
}

#[test]
fn burn_operations_of_unknown_epoch_are_refused() {
    let mut c = full_consignment();
    c.epoch_chain = None;
    assert_eq!(consignment_failure(c), Error::NotAllEpochsExposed);
}

#[test]
fn epoch_without_closed_seal_is_refused() {
    let mut c = full_consignment();
    c.epoch_chain = Some(vec![link(31, 310, vec![op(32, 0)]), link(30, 300, vec![])]);
    assert_eq!(
        consignment_failure(c),
        Error::Inconsistency(ConsistencyError::NoSealsClosed(0xAA, node(30)))
    );
}

#[test]
fn burn_operation_lookup_failure_is_reported() {
    let mut c = full_consignment();
    c.burn_chains = vec![vec![
        link(31, 310, vec![]),
        ChainLink {
            node_id: node(21),
            witness: txid(210),
            closed_seals: Err(ConsistencyError::AnchorAbsent(h(5))),
        },
    ]];
    c.epoch_chain = Some(vec![link(31, 310, vec![])]);
    assert_eq!(
        consignment_failure(c),
        Error::Inconsistency(ConsistencyError::AnchorAbsent(h(5)))
    );
}

#[test]
fn confidential_secondary_issue_is_refused() {
    let mut c = full_consignment();
    c.issues[0].inflation_assignments = None;
    assert_eq!(consignment_failure(c), Error::InflationAssignmentConfidential(node(40)));
}

#[test]
fn secondary_issue_lookup_failure_is_reported() {
    let mut c = full_consignment();
    c.issues.push(IssueTransition {
        node_id: node(42),
        witness: txid(420),
        closed_seals: Err(ConsistencyError::NotEndpoint(node(42))),
        inflation_assignments: Some(InflationMap::new()),
    });
    assert_eq!(
        consignment_failure(c),
        Error::Inconsistency(ConsistencyError::NotEndpoint(node(42)))
    );
}

#[test]
fn genesis_errors_come_first_in_consignments() {
    let mut c = full_consignment();
    c.genesis.schema_id = SchemaId(h(3));
    c.epoch_chain = None;
    assert_eq!(consignment_failure(c), Error::WrongSchemaId);
}

fn renomination(n: u128, ticker: &str, contract: Option<u128>) -> RenominationTransition {
    RenominationTransition {
        node_id: node(n),
        witness: txid(n + 1000),
        ticker: ticker.to_string(),
        name: format!("{} coin", ticker),
        decimal_precision: 4,
        ricardian_contract: contract.map(|c| AttachmentId(h(c))),
    }
}

#[test]
fn consignment_renominations_make_the_last_one_active() {
    let mut c = full_consignment();
    c.renominations = vec![renomination(60, "ONE", Some(1)), renomination(61, "TWO", Some(2))];
    let a = Asset::from_consignment(c, schema()).unwrap();
    assert_eq!(a.known_renominations().len(), 2);
    assert_eq!(a.known_renominations()[0].id, node(60));
    assert_eq!(a.known_renominations()[0].witness, txid(1060));
    assert_eq!(a.known_renominations()[0].nomination.ticker(), "ONE");
    assert_eq!(a.last_nomination().unwrap().ticker(), "TWO");
    assert_eq!(a.ticker(), "TWO");
    assert_eq!(a.name(), "TWO coin");
    assert_eq!(a.decimal_precision(), 4);
    assert_eq!(a.ricardian_contract(), Some(AttachmentId(h(2))));
    assert_eq!(a.genesis_nomination().ticker(), "TKN");
}

#[test]
fn renomination_without_contract_is_refused() {
    let mut c = full_consignment();
    c.renominations = vec![renomination(60, "ONE", Some(1)), renomination(61, "TWO", None)];
    assert_eq!(consignment_failure(c), Error::RicardianContractMissed);
}

#[test]
fn issue_errors_come_before_renomination_errors() {
    let mut c = full_consignment();
    c.issues[0].inflation_assignments = None;
    c.renominations = vec![renomination(61, "TWO", None)];
    assert_eq!(consignment_failure(c), Error::InflationAssignmentConfidential(node(40)));
}

#[test]
fn cloned_asset_equals_the_original() {
    let a = Asset::from_consignment(full_consignment(), schema()).unwrap();
    let b = a.clone();
    assert!(a == b);
    assert_eq!(b.known_inflation().len(), 2);
}

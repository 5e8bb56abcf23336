use rgb20::{
    compute_issue_limit, epoch_opening_seal, genesis_is_unreadable, issue_limit_overflow,
    read_genesis_allocations, Asset, Bytes32, ContractId,
    Error, GenesisData, InflationMap, InflationState, NodeId, Nomination, OutPoint, RevealedValue,
    SchemaId, SealDefinition, SupplyMeasure, Txid, ValueAssignment, MAX_TIMESTAMP, MIN_TIMESTAMP,
};

fn h(n: u128) -> Bytes32 {
    Bytes32 { hi: 0, lo: n }
}

fn txid(n: u128) -> Txid {
    Txid(h(n))
}

fn op(n: u128, vout: u32) -> OutPoint {
    OutPoint { txid: txid(n), vout }
}

fn rv(value: u64) -> RevealedValue {
    RevealedValue { value, blinding: h(77) }
}

fn revealed(tx: Option<u128>, vout: u32, value: u64) -> ValueAssignment {
    ValueAssignment::Revealed {
        seal: SealDefinition { txid: tx.map(txid), vout },
        state: rv(value),
    }
}

fn schema() -> SchemaId {
    SchemaId(h(0x20))
}

fn contract() -> ContractId {
    ContractId(h(1))
}

fn genesis_node() -> NodeId {
    NodeId(h(1))
}

fn inflation() -> InflationMap {
    let mut m = InflationMap::new();
    m.insert(op(50, 0), 500, vec![0]);
    m
}

fn genesis() -> GenesisData {
    GenesisData {
        schema_id: schema(),
        contract_id: contract(),
        chain: "bitcoin".to_string(),
        issued_supply: vec![1000],
        timestamps: vec![1_650_000_000],
        tickers: vec!["TKN".to_string()],
        names: vec!["Token".to_string()],
        precisions: vec![8],
        ricardian_contract: None,
        inflation_states: vec![InflationState::Revealed(Some(500))],
        inflation_assignments: Some(inflation()),
        epoch_seals: Some(vec![SealDefinition { txid: Some(txid(60)), vout: 1 }]),
        asset_assignments: vec![
            revealed(Some(70), 0, 600),
            ValueAssignment::Concealed,
            revealed(Some(71), 2, 400),
        ],
    }
}

fn genesis_failure(g: GenesisData) -> Error {
    match Asset::from_genesis(g, schema()) {
        Ok(_) => panic!("genesis was read"),
        Err(e) => e,
    }
}

#[test]
fn issue_limit_sums_revealed_inflation() {
    let states = vec![InflationState::Revealed(Some(5)), InflationState::Revealed(Some(7))];
    assert_eq!(compute_issue_limit(&states), Ok(12));
    assert_eq!(compute_issue_limit(&vec![]), Ok(0));
}

#[test]
fn issue_limit_is_unbounded_with_concealed_inflation() {
    let states = vec![
        InflationState::Revealed(Some(5)),
        InflationState::Concealed,
        InflationState::Revealed(Some(7)),
        InflationState::Revealed(None),
    ];
    assert_eq!(compute_issue_limit(&states), Ok(u64::MAX));
}

#[test]
fn issue_limit_saturated_by_amounts_stays_at_max() {
    let states = vec![
        InflationState::Revealed(Some(u64::MAX - 1)),
        InflationState::Revealed(Some(1)),
        InflationState::Revealed(Some(9)),
    ];
    assert_eq!(compute_issue_limit(&states), Ok(u64::MAX));
}

#[test]
fn issue_limit_refuses_non_amount_state() {
    let states = vec![InflationState::Revealed(Some(5)), InflationState::Revealed(None)];
    assert_eq!(compute_issue_limit(&states), Err(Error::UnsatisfiedSchemaRequirement));
}

#[test]
fn epoch_opening_seal_cases() {
    let node = genesis_node();
    assert_eq!(epoch_opening_seal(&None, node), Err(Error::EpochSealConfidential(node)));
    assert_eq!(epoch_opening_seal(&Some(vec![]), node), Ok(None));
    let seals = vec![
        SealDefinition { txid: Some(txid(60)), vout: 1 },
        SealDefinition { txid: Some(txid(61)), vout: 2 },
    ];
    assert_eq!(epoch_opening_seal(&Some(seals), node), Ok(Some(op(60, 1))));
    let witness_seal = vec![SealDefinition { txid: None, vout: 1 }];
    assert_eq!(epoch_opening_seal(&Some(witness_seal), node), Err(Error::GenesisSeal));
}

#[test]
fn genesis_allocations_are_indexed_by_assignment_position() {
    let node = genesis_node();
    let allocations = read_genesis_allocations(node, &genesis().asset_assignments).unwrap();
    assert_eq!(allocations.len(), 2);
    assert_eq!(allocations[0].index, 0);
    assert_eq!(allocations[0].outpoint, op(70, 0));
    assert_eq!(allocations[0].value(), 600);
    assert_eq!(allocations[1].index, 2);
    assert_eq!(allocations[1].outpoint, op(71, 2));
    assert_eq!(allocations[1].node_id, node);
}

#[test]
fn genesis_allocation_with_witness_seal_fails() {
    let assignments = vec![revealed(Some(70), 0, 1), revealed(None, 1, 2)];
    assert_eq!(
        read_genesis_allocations(genesis_node(), &assignments),
        Err(Error::GenesisSeal)
    );
}

#[test]
fn nomination_needs_ticker_name_and_precision() {
    let n = Nomination::from_genesis(&genesis()).unwrap();
    assert_eq!(n.ticker(), "TKN");
    assert_eq!(n.name(), "Token");
    assert_eq!(n.decimal_precision(), 8);
    let mut g = genesis();
    g.names = vec![];
    assert!(matches!(Nomination::from_genesis(&g), Err(Error::UnsatisfiedSchemaRequirement)));
}

#[test]
fn asset_read_from_genesis() {
    let a = Asset::from_genesis(genesis(), schema()).unwrap();
    assert_eq!(a.id(), contract());
    assert_eq!(a.chain(), "bitcoin");
    assert_eq!(a.date(), 1_650_000_000);
    assert_eq!(a.ticker(), "TKN");
    assert_eq!(a.name(), "Token");
    assert_eq!(a.ricardian_contract(), None);
    assert_eq!(a.decimal_precision(), 8);
    assert!(a.last_nomination().is_none());
    assert_eq!(a.active_nomination().ticker(), "TKN");
    assert_eq!(a.genesis_nomination().name(), "Token");
    assert!(a.known_renominations().is_empty());
    assert_eq!(a.epoch_opening_seal(), Some(op(60, 1)));
    assert!(a.epochs().is_empty());
    assert_eq!(a.precise_supply(SupplyMeasure::KnownCirculating), Some(1000));
    assert_eq!(a.precise_supply(SupplyMeasure::TotalCirculating), None);
    assert_eq!(a.precise_supply(SupplyMeasure::IssueLimit), Some(500));
    assert_eq!(a.supply().known_circulating(), 1000);
    assert_eq!(a.known_issues().len(), 1);
    let primary = &a.known_issues()[0];
    assert_eq!(primary.id, genesis_node());
    assert_eq!(primary.asset_id, contract());
    assert!(primary.closed_seals.is_empty());
    assert_eq!(primary.witness, None);
    assert_eq!(a.known_allocations().len(), 2);
    assert_eq!(a.known_value(), 1000);
}

#[test]
fn genesis_with_wrong_schema_is_refused() {
    let mut g = genesis();
    g.schema_id = SchemaId(h(0x21));
    g.issued_supply = vec![];
    assert_eq!(genesis_failure(g), Error::WrongSchemaId);
}

#[test]
fn genesis_without_issued_supply_is_refused() {
    let mut g = genesis();
    g.issued_supply = vec![];
    assert_eq!(genesis_failure(g), Error::UnsatisfiedSchemaRequirement);
}

#[test]
fn genesis_with_unreadable_inflation_state_is_refused() {
    let mut g = genesis();
    g.inflation_states = vec![InflationState::Revealed(None)];
    g.epoch_seals = None;
    assert_eq!(genesis_failure(g), Error::UnsatisfiedSchemaRequirement);
}

#[test]
fn genesis_with_confidential_epoch_seal_is_refused() {
    let mut g = genesis();
    g.epoch_seals = None;
    g.inflation_assignments = None;
    assert_eq!(genesis_failure(g), Error::EpochSealConfidential(genesis_node()));
}

#[test]
fn genesis_with_witness_epoch_seal_is_refused() {
    let mut g = genesis();
    g.epoch_seals = Some(vec![SealDefinition { txid: None, vout: 0 }]);
    assert_eq!(genesis_failure(g), Error::GenesisSeal);
}

#[test]
fn genesis_with_confidential_inflation_is_refused() {
    let mut g = genesis();
    g.inflation_assignments = None;
    g.asset_assignments = vec![revealed(None, 0, 1)];
    assert_eq!(genesis_failure(g), Error::InflationAssignmentConfidential(genesis_node()));
}

#[test]
fn genesis_with_witness_allocation_seal_is_refused() {
    let mut g = genesis();
    g.asset_assignments = vec![revealed(None, 0, 1)];
    g.tickers = vec![];
    assert_eq!(genesis_failure(g), Error::GenesisSeal);
}

#[test]
fn genesis_without_ticker_is_refused() {
    let mut g = genesis();
    g.tickers = vec![];
    g.timestamps = vec![];
    assert_eq!(genesis_failure(g), Error::UnsatisfiedSchemaRequirement);
}

#[test]
fn genesis_without_timestamp_is_refused() {
    let mut g = genesis();
    g.timestamps = vec![];
    assert_eq!(genesis_failure(g), Error::UnsatisfiedSchemaRequirement);
}

#[test]
fn genesis_without_epoch_seal_has_no_opening_seal() {
    let mut g = genesis();
    g.epoch_seals = Some(vec![]);
    let a = Asset::from_genesis(g, schema()).unwrap();
    assert_eq!(a.epoch_opening_seal(), None);
}

#[test]
fn genesis_with_concealed_inflation_has_unbounded_limit() {
    let mut g = genesis();
    g.inflation_states = vec![InflationState::Concealed, InflationState::Revealed(Some(3))];
    let a = Asset::from_genesis(g, schema()).unwrap();
    assert_eq!(a.precise_supply(SupplyMeasure::IssueLimit), Some(u64::MAX));
}

#[test]
fn timestamp_bounds_match_calendar_range() {
    assert!(chrono::DateTime::from_timestamp(MAX_TIMESTAMP, 0).is_some());
    assert!(chrono::DateTime::from_timestamp(MAX_TIMESTAMP + 1, 0).is_none());
    assert!(chrono::DateTime::from_timestamp(MIN_TIMESTAMP, 0).is_some());
    assert!(chrono::DateTime::from_timestamp(MIN_TIMESTAMP - 1, 0).is_none());
}

#[test]
fn genesis_at_latest_timestamp_is_read() {
    let mut g = genesis();
    g.timestamps = vec![MAX_TIMESTAMP, 0];
    let a = Asset::from_genesis(g, schema()).unwrap();
    assert_eq!(a.date(), MAX_TIMESTAMP);
}

#[test]
fn issue_limit_overflow_is_detected() {
    let over = vec![InflationState::Revealed(Some(u64::MAX - 1)), InflationState::Revealed(Some(2))];
    assert!(issue_limit_overflow(&over));
    let saturated = vec![InflationState::Revealed(Some(u64::MAX)), InflationState::Revealed(Some(2))];
    assert!(!issue_limit_overflow(&saturated));
    let broken = vec![
        InflationState::Revealed(None),
        InflationState::Revealed(Some(u64::MAX)),
        InflationState::Revealed(Some(u64::MAX)),
    ];
    assert!(!issue_limit_overflow(&broken));
    let fine = vec![InflationState::Revealed(Some(5)), InflationState::Revealed(Some(7))];
    assert!(!issue_limit_overflow(&fine));
}

#[test]
fn unreadable_genesis_is_detected() {
    assert!(!genesis_is_unreadable(&genesis(), schema()));
    let mut late = genesis();
    late.timestamps = vec![MAX_TIMESTAMP + 1];
    assert!(genesis_is_unreadable(&late, schema()));
    let mut early = genesis();
    early.timestamps = vec![MIN_TIMESTAMP - 1];
    assert!(genesis_is_unreadable(&early, schema()));
    let mut refused_first = genesis();
    refused_first.timestamps = vec![MAX_TIMESTAMP + 1];
    refused_first.tickers = vec![];
    assert!(!genesis_is_unreadable(&refused_first, schema()));
    let mut overflowing = genesis();
    overflowing.inflation_states =
        vec![InflationState::Revealed(Some(u64::MAX)), InflationState::Concealed];
    assert!(!genesis_is_unreadable(&overflowing, schema()));
    overflowing.inflation_states =
        vec![InflationState::Revealed(Some(u64::MAX - 3)), InflationState::Revealed(Some(4))];
    assert!(genesis_is_unreadable(&overflowing, schema()));
    assert!(!genesis_is_unreadable(&overflowing, SchemaId(h(0x99))));
}

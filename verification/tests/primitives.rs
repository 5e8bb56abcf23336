use rgb20::{
    closed_seal, collect_epoch_operations, outpoint_precedes, read_burn_operations, Allocation,
    Bytes32, ChainLink, ConsistencyError, ContractId, EpochOperations, Error, InflationMap, NodeId,
    Nomination, OutPoint, OwnedRightType, Renomination, RevealedValue, SealDefinition, Supply,
    Txid,
};

fn h(n: u128) -> Bytes32 {
    Bytes32 { hi: 0, lo: n }
}

fn txid(n: u128) -> Txid {
    Txid(h(n))
}

fn node(n: u128) -> NodeId {
    NodeId(h(n))
}

fn op(n: u128, vout: u32) -> OutPoint {
    OutPoint { txid: txid(n), vout }
}

fn link(n: u128, witness: u128, seals: Vec<OutPoint>) -> ChainLink {
    ChainLink { node_id: node(n), witness: txid(witness), closed_seals: Ok(seals) }
}

#[test]
fn outpoints_order_by_txid_then_output() {
    let low = OutPoint { txid: Txid(Bytes32 { hi: 1, lo: 9 }), vout: 7 };
    let high = OutPoint { txid: Txid(Bytes32 { hi: 2, lo: 0 }), vout: 0 };
    assert!(outpoint_precedes(&low, &high));
    assert!(!outpoint_precedes(&high, &low));
    assert!(outpoint_precedes(&op(5, 0), &op(6, 0)));
    assert!(outpoint_precedes(&op(5, 1), &op(5, 2)));
    assert!(!outpoint_precedes(&op(5, 2), &op(5, 2)));
}

#[test]
fn genesis_node_id_carries_contract_hash() {
    let id = ContractId(Bytes32 { hi: 3, lo: 4 });
    assert_eq!(id.genesis_node_id(), NodeId(Bytes32 { hi: 3, lo: 4 }));
}

#[test]
fn seal_outpoint_needs_a_txid() {
    let named = SealDefinition { txid: Some(txid(8)), vout: 3 };
    let witness_seal = SealDefinition { txid: None, vout: 4 };
    assert_eq!(named.outpoint(), Some(op(8, 3)));
    assert_eq!(witness_seal.outpoint(), None);
    assert_eq!(named.outpoint_or(txid(9)), op(8, 3));
    assert_eq!(witness_seal.outpoint_or(txid(9)), op(9, 4));
}

#[test]
fn allocation_keeps_its_parts() {
    let value = RevealedValue { value: 42, blinding: h(1) };
    let a = Allocation::with(node(2), 3, op(4, 5), value);
    assert_eq!(a.value(), 42);
    assert_eq!(a.node_id(), node(2));
    assert_eq!(a.index(), 3);
    assert_eq!(a.outpoint(), op(4, 5));
    assert_eq!(a.revealed_amount(), value);
}

#[test]
fn nomination_and_supply_getters() {
    let n = Nomination {
        ticker: "TCK".to_string(),
        name: "Ticker coin".to_string(),
        ricardian_contract: None,
        decimal_precision: 2,
    };
    assert_eq!(n.ticker(), "TCK");
    assert_eq!(n.name(), "Ticker coin");
    assert_eq!(n.ricardian_contract(), None);
    assert_eq!(n.decimal_precision(), 2);
    let r = Renomination { id: node(9), witness: txid(10), nomination: n.clone() };
    assert_eq!(r.nomination().ticker(), "TCK");
    let s = Supply::with(10, Some(20), 30);
    assert_eq!(s.known_circulating(), 10);
    assert_eq!(s.total_circulating(), Some(20));
    assert_eq!(s.issue_limit(), 30);
}

#[test]
fn owned_right_type_codes() {
    assert_eq!(OwnedRightType::Inflation.code(), 0xA0);
    assert_eq!(OwnedRightType::Assets.code(), 0xA1);
    assert_eq!(OwnedRightType::OpenEpoch.code(), 0xAA);
    assert_eq!(OwnedRightType::BurnReplace.code(), 0xAB);
    assert_eq!(OwnedRightType::Renomination.code(), 0x01);
}

#[test]
fn inflation_map_keeps_entries_ordered_and_unique() {
    let mut m = InflationMap::new();
    assert_eq!(m.len(), 0);
    m.insert(op(9, 0), 90, vec![1]);
    m.insert(op(3, 1), 30, vec![2, 3]);
    m.insert(op(3, 0), 31, vec![]);
    m.insert(op(9, 0), 91, vec![4]);
    assert_eq!(m.len(), 3);
    let keys: Vec<OutPoint> = m.entries().iter().map(|e| e.seal).collect();
    assert_eq!(keys, vec![op(3, 0), op(3, 1), op(9, 0)]);
    let e = m.get(&op(9, 0)).unwrap();
    assert_eq!(e.value, 91);
    assert_eq!(e.indexes, vec![4]);
    assert_eq!(m.get(&op(3, 1)).unwrap().indexes, vec![2, 3]);
    assert!(m.get(&op(4, 0)).is_none());
}

#[test]
fn law_inflation_insert_then_get() {
    let mut m = InflationMap::new();
    m.insert(op(1, 0), 5, vec![0]);
    m.insert(op(2, 0), 6, vec![1]);
    m.insert(op(1, 0), 7, vec![2]);
    let e = m.get(&op(1, 0)).unwrap();
    assert_eq!((e.value, e.indexes.clone()), (7, vec![2]));
    let other = m.get(&op(2, 0)).unwrap();
    assert_eq!((other.value, other.indexes.clone()), (6, vec![1]));
}

#[test]
fn epoch_operations_group_by_epoch() {
    let mut g = EpochOperations::new();
    assert!(g.is_empty());
    g.insert(node(1), Vec::new());
    assert!(!g.is_empty());
    let removed = g.remove(node(1));
    assert!(removed.is_empty());
    assert!(g.is_empty());
    assert!(g.remove(node(2)).is_empty());
}

#[test]
fn closed_seal_takes_first_seal() {
    let l = link(1, 2, vec![op(5, 0), op(6, 0)]);
    assert_eq!(closed_seal(&l, OwnedRightType::BurnReplace), Ok(op(5, 0)));
    let empty = link(1, 2, vec![]);
    assert_eq!(
        closed_seal(&empty, OwnedRightType::OpenEpoch),
        Err(Error::Inconsistency(ConsistencyError::NoSealsClosed(0xAA, node(1))))
    );
    let broken = ChainLink {
        node_id: node(1),
        witness: txid(2),
        closed_seals: Err(ConsistencyError::TransitionAbsent(node(7))),
    };
    assert_eq!(
        closed_seal(&broken, OwnedRightType::BurnReplace),
        Err(Error::Inconsistency(ConsistencyError::TransitionAbsent(node(7))))
    );
}

#[test]
fn burn_operations_are_read_oldest_first() {
    let asset = ContractId(h(100));
    let chain = vec![
        link(30, 300, vec![op(33, 0)]),
        link(20, 200, vec![op(22, 0)]),
        link(10, 100, vec![op(11, 0)]),
    ];
    let ops = read_burn_operations(asset, &chain).unwrap();
    assert_eq!(ops.len(), 2);
    assert_eq!(ops[0].id, node(10));
    assert_eq!(ops[0].no, 0);
    assert_eq!(ops[0].closes, op(11, 0));
    assert_eq!(ops[0].witness, txid(100));
    assert_eq!(ops[0].epoch_id, node(30));
    assert_eq!(ops[0].asset_id, asset);
    assert_eq!(ops[1].id, node(20));
    assert_eq!(ops[1].no, 1);
    assert_eq!(ops[1].epoch_id, node(30));
}

#[test]
fn burn_operation_without_closed_seal_fails() {
    let chain = vec![link(30, 300, vec![]), link(20, 200, vec![])];
    assert_eq!(
        read_burn_operations(ContractId(h(1)), &chain),
        Err(Error::Inconsistency(ConsistencyError::NoSealsClosed(0xAB, node(20))))
    );
    let single = vec![link(30, 300, vec![])];
    assert_eq!(read_burn_operations(ContractId(h(1)), &single), Ok(vec![]));
}

#[test]
fn grouped_operations_replace_earlier_chains() {
    let asset = ContractId(h(100));
    let chains = vec![
        vec![link(30, 300, vec![]), link(20, 200, vec![op(22, 0)])],
        vec![],
        vec![link(30, 301, vec![]), link(21, 210, vec![op(23, 0)]), link(19, 190, vec![op(24, 0)])],
    ];
    let mut grouped = collect_epoch_operations(asset, &chains).unwrap();
    let ops = grouped.remove(node(30));
    assert_eq!(ops.len(), 2);
    assert_eq!(ops[0].id, node(19));
    assert_eq!(ops[1].id, node(21));
    assert!(grouped.is_empty());
}

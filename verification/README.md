# rgb20

High-level information about RGB20 fungible assets, with its logic verified
by Verus.

An `Asset` is assembled from the data of a contract genesis (`GenesisData`)
or of a consignment (`ConsignmentData`): its nomination and renominations, supply figures,
primary and secondary issues, burn & replace epochs with their operations,
and the allocations of the asset known from the contract's state
transitions. The asset then answers queries (active nomination, supply
measures, known and filtered values, allocations at an outpoint, known
inflation) and accepts new allocations.

Layout:

- `src/` — the verified library. `source.rs` describes the contract data
  read; `genesis.rs` and `consignment.rs` hold the reading rules and their
  specifications; `asset.rs` the asset record; `inflation.rs` the ordered
  inflation map; `laws.rs` properties proved across operations.
- `tests/` — tests of the library on concrete values.
- `app/` — glue to the `rgb` crates: converting RGB genesis and consignment
  structures into the library's plain values, calendar dates, floating-point
  amounts and displayable errors.

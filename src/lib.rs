//! The stateful half of a hierarchical-deterministic wallet: sequential
//! address generation on two chains, recognition of the wallet's own
//! addresses from the encrypted derivation path they carry, and assembly of
//! signed transactions; and the naming rules of the block and pack store.
pub mod addressing;
pub mod address;
pub mod tx;
pub mod keys;
pub mod wallet;
pub mod storage;

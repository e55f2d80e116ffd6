//! Time-based yield program for a fleet of uniquely identified collectible
//! assets ("terminals"): an owner stakes a terminal into custody, accrues
//! reward tokens proportional to elapsed time and a per-asset rarity
//! multiplier, and may later claim accrued rewards or return the terminal to
//! free circulation.
//!
//! The verified core is the staking engine: the pool and per-asset stake
//! records, the reward formula, the stake/unstake/claim state machine, and
//! the synchronization of the internal records with the external asset's
//! key-value attribute set and custody flag. The host environment (ledger,
//! clock, token mint, custody subsystem) performs the effects each operation
//! returns; the engine itself is pure and fully specified.

pub mod attributes;
pub mod engine;
pub mod errors;
pub mod rewards;
pub mod state;
pub mod text;

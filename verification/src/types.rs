//! Plain records that describe a pool's tokens, a position's tick range and
//! the service's settings. They carry data only; reading and writing them is
//! left to the program around the library.

use vstd::prelude::*;

verus! {

/// An ERC20-style token of a pool.
#[derive(Clone, Debug)]
pub struct Token {
    pub address: String,
    pub name: String,
    pub symbol: String,
    /// The number of fractional digits of the token's smallest unit.
    pub decimals: u8,
    /// Whether the token wraps the chain's native currency.
    pub is_native_wrapper: bool,
}

/// A position's tick bounds beside the pool's current tick.
#[derive(Clone, Debug)]
pub struct TickRange {
    pub curent_tick: i32,
    pub lower_tick: i32,
    pub upper_tick: i32,
}

/// The settings read from the network's TOML file.
#[derive(Clone, Debug)]
pub struct TomlConfig {
    pub rpc_url: String,
    pub chain_id: u64,
    pub non_fungible_position_manager_address: String,
    pub hbar_evm_address: String,
    pub vaults: Vec<String>,
}

/// The settings of a running service.
#[derive(Clone, Debug)]
pub struct Config {
    pub private_key: String,
    pub is_mainnet: bool,
    pub toml_config: TomlConfig,
    pub admin_password: String,
}

/// The body of an administrator's request to associate a vault's tokens.
#[derive(Clone, Debug)]
pub struct AdminAssociateVaultTokensRequest {
    pub vault_address: String,
}

} // verus!

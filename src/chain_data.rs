//! The inputs of one proving run, as read from two pools.
use vstd::prelude::*;

verus! {

/// Where to read one pool: its chain endpoint and pool address.
#[derive(Debug, Clone)]
pub struct ChainConfig {
    pub token0_name: String,
    pub token1_name: String,
    pub name: String,
    pub rpc_url: String,
    pub pool_addr: String,
}

/// The two pools to compare and the divergence threshold.
#[derive(Debug, Clone)]
pub struct ChainComparisonConfig {
    pub chain_cfg_1: ChainConfig,
    pub chain_cfg_2: ChainConfig,
    pub diff_threshold: u64,
}

/// The values read from both pools and the encoded threshold.
#[derive(Debug, Clone, Copy, PartialEq, Eq, Structural)]
pub struct PriceDataProvingInputs {
    pub price_proving_pis_1: SingleChainProvingInputs,
    pub price_proving_pis_2: SingleChainProvingInputs,
    pub diff_threshold: u64,
}

/// One pool's snapshot: a block number and the encoded square-root price.
#[derive(Debug, Clone, Copy, PartialEq, Eq, Structural)]
pub struct SingleChainProvingInputs {
    pub block_number: u64,
    pub sqrt_price_x96: u64,
}

} // verus!

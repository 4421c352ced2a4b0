use vstd::prelude::*;

use crate::error::TwapError;
use crate::observation::Address160;

verus! {

/// Supported chains. The network selects the data source and gates task
/// eligibility; it takes no part in the packing or hashing logic.
#[derive(Clone, Copy, Debug, PartialEq, Eq, Hash, Structural)]
pub enum Network {
    Mainnet,
    Goerli,
}

impl Network {
    /// Maps a chain id to its network: 1 is Mainnet, 5 is Goerli, anything
    /// else is unsupported.
    pub fn from_chain_id(chain_id: u64) -> (r: Result<Network, TwapError>)
        ensures
            chain_id == 1 ==> r == Ok::<Network, TwapError>(Network::Mainnet),
            chain_id == 5 ==> r == Ok::<Network, TwapError>(Network::Goerli),
            chain_id != 1 && chain_id != 5 ==> r == Err::<Network, TwapError>(
                TwapError::UnsupportedChainId,
            ),
    {
        match chain_id {
            1 => Ok(Network::Mainnet),
            5 => Ok(Network::Goerli),
            _ => Err(TwapError::UnsupportedChainId),
        }
    }
}

/// A TWAP proof request as it arrives from the outside, with the chain id not
/// yet mapped to a network.
#[derive(Clone, Copy, Debug, PartialEq, Eq, Hash, Structural)]
pub struct Task {
    pub start_block_number: u32,
    pub end_block_number: u32,
    pub pool_address: Address160,
    pub chain_id: u64,
}

/// A validated unit of work: the two block numbers to observe, the oracle
/// contract, and the network the data must come from.
#[derive(Clone, Copy, Debug, PartialEq, Eq, Hash, Structural)]
pub struct UniswapTwapTask {
    pub start_block_number: u32,
    pub end_block_number: u32,
    pub pool_address: Address160,
    pub network: Network,
}

impl UniswapTwapTask {
    pub fn new(
        start_block_number: u32,
        end_block_number: u32,
        pool_address: Address160,
        network: Network,
    ) -> (r: Self)
        ensures
            r.start_block_number == start_block_number,
            r.end_block_number == end_block_number,
            r.pool_address == pool_address,
            r.network == network,
    {
        UniswapTwapTask { start_block_number, end_block_number, pool_address, network }
    }

    pub fn network(&self) -> (r: Network)
        ensures
            r == self.network,
    {
        self.network
    }

    /// Maps an external request to a task, rejecting unsupported chain ids.
    pub fn try_from(task: Task) -> (r: Result<UniswapTwapTask, TwapError>)
        ensures
            r is Ok <==> task.chain_id == 1 || task.chain_id == 5,
            r is Ok ==> r->Ok_0.start_block_number == task.start_block_number
                && r->Ok_0.end_block_number == task.end_block_number
                && r->Ok_0.pool_address == task.pool_address
                && r->Ok_0.network == (if task.chain_id == 1 {
                    Network::Mainnet
                } else {
                    Network::Goerli
                }),
            r is Err ==> r->Err_0 == TwapError::UnsupportedChainId,
    {
        match Network::from_chain_id(task.chain_id) {
            Ok(network) => Ok(
                UniswapTwapTask::new(
                    task.start_block_number,
                    task.end_block_number,
                    task.pool_address,
                    network,
                ),
            ),
            Err(e) => Err(e),
        }
    }
}

/// Validation done at the serving edge before the core runs: the task's
/// network must match the data source's network, and the block range must be
/// ordered. The network check comes first.
pub fn validate_request(task: &UniswapTwapTask, expected_network: Network) -> (r: Result<
    (),
    TwapError,
>)
    ensures
        r is Ok <==> task.network == expected_network && task.start_block_number
            <= task.end_block_number,
        task.network != expected_network ==> r == Err::<(), TwapError>(
            TwapError::NetworkMismatch,
        ),
        task.network == expected_network && task.start_block_number
            > task.end_block_number ==> r == Err::<(), TwapError>(TwapError::InvalidBlockRange),
{
    let network = task.network();
    if network != expected_network {
        return Err(TwapError::NetworkMismatch);
    }
    if task.start_block_number > task.end_block_number {
        return Err(TwapError::InvalidBlockRange);
    }
    Ok(())
}

} // verus!

use uniswap_twap_oracle::error::TwapError;
use uniswap_twap_oracle::observation::Address160;
use uniswap_twap_oracle::task::validate_request;
use uniswap_twap_oracle::task::Network;
use uniswap_twap_oracle::task::Task;
use uniswap_twap_oracle::task::UniswapTwapTask;

fn pool() -> Address160 {
    Address160 { hi: 0x88e6a0c2, lo: 0xddd26feeb64f039a2c41296fcb3f5640 }
}

#[test]
fn chain_id_mapping() {
    assert_eq!(Network::from_chain_id(1).unwrap(), Network::Mainnet);
    assert_eq!(Network::from_chain_id(5).unwrap(), Network::Goerli);
    assert_eq!(Network::from_chain_id(2).unwrap_err(), TwapError::UnsupportedChainId);
    assert_eq!(Network::from_chain_id(0).unwrap_err(), TwapError::UnsupportedChainId);
}

#[test]
fn task_conversion() {
    let t = Task {
        start_block_number: 12376729,
        end_block_number: 16416686,
        pool_address: pool(),
        chain_id: 1,
    };
    let task = UniswapTwapTask::try_from(t).expect("mainnet chain id must map");
    assert_eq!(task.start_block_number, 12376729);
    assert_eq!(task.end_block_number, 16416686);
    assert_eq!(task.pool_address, pool());
    assert_eq!(task.network(), Network::Mainnet);

    let mut unsupported = t;
    unsupported.chain_id = 137;
    assert_eq!(UniswapTwapTask::try_from(unsupported).unwrap_err(), TwapError::UnsupportedChainId);
}

#[test]
fn request_validation() {
    let ok = UniswapTwapTask::new(10, 20, pool(), Network::Mainnet);
    assert!(validate_request(&ok, Network::Mainnet).is_ok());
    assert_eq!(
        validate_request(&ok, Network::Goerli).unwrap_err(),
        TwapError::NetworkMismatch
    );
    let reversed = UniswapTwapTask::new(21, 20, pool(), Network::Mainnet);
    assert_eq!(
        validate_request(&reversed, Network::Mainnet).unwrap_err(),
        TwapError::InvalidBlockRange
    );
    // The network check precedes the range check.
    let both = UniswapTwapTask::new(21, 20, pool(), Network::Goerli);
    assert_eq!(validate_request(&both, Network::Mainnet).unwrap_err(), TwapError::NetworkMismatch);
    // Equal start and end block numbers are a valid range.
    let equal = UniswapTwapTask::new(20, 20, pool(), Network::Mainnet);
    assert!(validate_request(&equal, Network::Mainnet).is_ok());
}

use nft_pipeline::lambda::{Output, TransferPayload};
use nft_pipeline::ratelimit::TokenBucket;
use nft_pipeline::AppError;

#[test]
fn a_fresh_bucket_grants_its_capacity_then_refuses() {
    let mut bucket = TokenBucket::new(3, 500, 0);
    assert!(bucket.try_acquire(0));
    assert!(bucket.try_acquire(0));
    assert!(bucket.try_acquire(0));
    assert!(!bucket.try_acquire(0));
    assert!(!bucket.try_acquire(499));
}

#[test]
fn permits_come_back_one_per_interval() {
    let mut bucket = TokenBucket::new(1, 500, 0);
    assert!(bucket.try_acquire(0));
    assert!(!bucket.try_acquire(250));
    assert!(bucket.try_acquire(500));
    assert!(!bucket.try_acquire(999));
    assert!(bucket.try_acquire(1000));
}

#[test]
fn a_long_pause_never_overfills_the_bucket() {
    let mut bucket = TokenBucket::new(2, 500, 0);
    assert!(bucket.try_acquire(0));
    assert!(bucket.try_acquire(0));
    // Hours later the bucket holds its capacity, not the elapsed time.
    assert!(bucket.try_acquire(10_000_000));
    assert!(bucket.try_acquire(10_000_000));
    assert!(!bucket.try_acquire(10_000_000));
}

#[test]
fn sdk_outcomes_follow_the_result_flag() {
    let ok = Output { message: String::new(), result: 0, ipfs_response: None };
    assert!(ok.into_result().is_ok());
    let failed = Output { message: "insufficient funds".to_string(), result: 7, ipfs_response: None };
    match failed.into_result().unwrap_err() {
        AppError::Internal(m) => assert_eq!(m, "insufficient funds"),
        _ => panic!("a failed call is an internal error"),
    }
}

#[test]
fn transfer_payloads_name_their_standard() {
    let t = TransferPayload::erc721("0xc".to_string(), "9".to_string(), "0xdest".to_string());
    assert_eq!(t.schema_name, "ERC721");
    assert_eq!(t.quantity, 1);
    assert_eq!(t.transfer_address, "0xdest");
    let t = TransferPayload::erc1155("0xc".to_string(), "9".to_string(), "0xdest".to_string());
    assert_eq!(t.schema_name, "ERC1155");
    assert_eq!(t.quantity, 1);
}

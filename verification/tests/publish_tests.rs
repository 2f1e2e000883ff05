use nft_pipeline::domain::work::{Work, WorkStatus};
use nft_pipeline::publish::{
    asset_object_key, check_preparable, mark_listed, prepare_erc1155, prepare_erc721,
    process_mint, NFT_721_ASSET_PATH_PREFIX,
};
use nft_pipeline::reconcile::LedgerAssetInfo;
use nft_pipeline::store::{AssetTable, WorkTable};
use nft_pipeline::task::Task;
use nft_pipeline::AppError;

fn work(id: &str, status: WorkStatus) -> Work {
    Work { id: id.to_string(), video_path: format!("videos/{}.mp4", id), status }
}

fn fetched(name: &str) -> LedgerAssetInfo {
    LedgerAssetInfo {
        work_id: "W1".to_string(),
        contract_address: "0xledger".to_string(),
        token_id: "11".to_string(),
        name: name.to_string(),
        description: "d".to_string(),
        image_url: "i".to_string(),
        image_preview_url: "p".to_string(),
        permalink: "l".to_string(),
    }
}

#[test]
fn prepare_writes_one_placeholder_and_builds_the_mint_task() {
    let mut works = WorkTable::new();
    works.put(&work("W1", WorkStatus::Prepare));
    let mut assets = AssetTable::new();

    let task = prepare_erc721(
        &works,
        &mut assets,
        &"user-1".to_string(),
        &"W1".to_string(),
        "QmHash".to_string(),
        "721_asset/W1.metadata.json".to_string(),
    )
    .unwrap();

    let rows = assets.get_all();
    assert_eq!(rows.len(), 1);
    assert_eq!(rows[0].work_id, "W1");
    assert_eq!(rows[0].contract_address, "");
    assert_eq!(rows[0].token_id, "");

    assert_eq!(task.subject_number(), 3);
    match task {
        Task::MintNFT721(p) => {
            assert_eq!(p.work_id, "W1");
            assert_eq!(p.executor_id, "user-1");
            assert_eq!(p.ipfs_hash, "QmHash");
        },
        _ => panic!("prepare must emit the mint task"),
    }
}

#[test]
fn prepare_1155_carries_the_amount() {
    let mut works = WorkTable::new();
    works.put(&work("W2", WorkStatus::Prepare));
    let mut assets = AssetTable::new();
    let task = prepare_erc1155(
        &works,
        &mut assets,
        &"user-1".to_string(),
        &"W2".to_string(),
        30,
        String::new(),
        "1155_asset/W2.metadata.json".to_string(),
    )
    .unwrap();
    assert_eq!(task.subject_number(), 4);
    match task {
        Task::MintNFT1155(p) => assert_eq!(p.amount, 30),
        _ => panic!("prepare must emit the mint task"),
    }
}

#[test]
fn prepare_for_an_unknown_work_is_not_found() {
    let works = WorkTable::new();
    let mut assets = AssetTable::new();
    let err = prepare_erc721(
        &works,
        &mut assets,
        &"user-1".to_string(),
        &"W1".to_string(),
        String::new(),
        String::new(),
    )
    .unwrap_err();
    assert!(matches!(err, AppError::NotFound));
    assert!(assets.get_all().is_empty());
}

#[test]
fn prepare_for_a_published_work_is_refused() {
    let mut works = WorkTable::new();
    works.put(&work("W1", WorkStatus::PublishNFT));
    let mut assets = AssetTable::new();
    let err = check_preparable(&works, &"W1".to_string()).unwrap_err();
    assert!(matches!(err, AppError::BadRequest(_)));
    let err = prepare_erc721(
        &works,
        &mut assets,
        &"user-1".to_string(),
        &"W1".to_string(),
        String::new(),
        String::new(),
    )
    .unwrap_err();
    assert!(matches!(err, AppError::BadRequest(_)));
    assert!(assets.get_all().is_empty());
}

#[test]
fn processing_the_mint_publishes_the_work_and_fills_the_row() {
    let mut works = WorkTable::new();
    works.put(&work("W1", WorkStatus::Prepare));
    let mut assets = AssetTable::new();
    prepare_erc721(
        &works,
        &mut assets,
        &"user-1".to_string(),
        &"W1".to_string(),
        String::new(),
        "k".to_string(),
    )
    .unwrap();

    process_mint(&mut works, &mut assets, &"W1".to_string(), &fetched("foo")).unwrap();

    let row = assets.get(&"W1".to_string()).unwrap();
    assert_eq!(row.work_id, "W1");
    assert_eq!(row.contract_address, "0xledger");
    assert_eq!(row.token_id, "11");
    assert_eq!(row.name, "foo");
    assert_eq!(works.get(&"W1".to_string()).unwrap().status, WorkStatus::PublishNFT);
}

#[test]
fn processing_a_mint_without_a_placeholder_is_not_found() {
    let mut works = WorkTable::new();
    works.put(&work("W1", WorkStatus::Prepare));
    let mut assets = AssetTable::new();
    let err = process_mint(&mut works, &mut assets, &"W1".to_string(), &fetched("foo"))
        .unwrap_err();
    assert!(matches!(err, AppError::NotFound));
    assert_eq!(works.get(&"W1".to_string()).unwrap().status, WorkStatus::Prepare);
}

#[test]
fn a_duplicate_mint_delivery_is_tolerated() {
    let mut works = WorkTable::new();
    works.put(&work("W1", WorkStatus::Prepare));
    let mut assets = AssetTable::new();
    prepare_erc721(
        &works,
        &mut assets,
        &"u".to_string(),
        &"W1".to_string(),
        String::new(),
        String::new(),
    )
    .unwrap();
    process_mint(&mut works, &mut assets, &"W1".to_string(), &fetched("foo")).unwrap();
    process_mint(&mut works, &mut assets, &"W1".to_string(), &fetched("foo")).unwrap();
    assert_eq!(works.get(&"W1".to_string()).unwrap().status, WorkStatus::PublishNFT);
    assert_eq!(assets.get(&"W1".to_string()).unwrap().name, "foo");
}

#[test]
fn listing_a_published_work_succeeds() {
    let mut works = WorkTable::new();
    works.put(&work("W1", WorkStatus::PublishNFT));
    mark_listed(&mut works, &"W1".to_string()).unwrap();
    assert_eq!(works.get(&"W1".to_string()).unwrap().status, WorkStatus::SellOrder);
}

#[test]
fn listing_a_prepared_work_is_a_bad_request_and_changes_nothing() {
    let mut works = WorkTable::new();
    works.put(&work("W1", WorkStatus::Prepare));
    let err = mark_listed(&mut works, &"W1".to_string()).unwrap_err();
    assert!(matches!(err, AppError::BadRequest(_)));
    assert_eq!(works.get(&"W1".to_string()).unwrap().status, WorkStatus::Prepare);
}

#[test]
fn listing_an_unknown_work_is_not_found() {
    let mut works = WorkTable::new();
    let err = mark_listed(&mut works, &"W1".to_string()).unwrap_err();
    assert!(matches!(err, AppError::NotFound));
}

#[test]
fn artifact_keys_join_prefix_id_and_suffix() {
    let key = asset_object_key(NFT_721_ASSET_PATH_PREFIX, &"W1".to_string(), ".png");
    assert_eq!(key, "721_asset/W1.png");
    let key = asset_object_key(NFT_721_ASSET_PATH_PREFIX, &"W1".to_string(), ".metadata.json");
    assert_eq!(key, "721_asset/W1.metadata.json");
}

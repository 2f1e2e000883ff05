use nft_pipeline::domain::asset::Asset;
use nft_pipeline::domain::work::{Work, WorkStatus};
use nft_pipeline::reconcile::{reconcile, AssetInfoTable, LedgerAssetInfo};
use nft_pipeline::store::{AssetTable, WorkTable};

fn work(id: &str, status: WorkStatus) -> Work {
    Work { id: id.to_string(), video_path: format!("videos/{}.mp4", id), status }
}

fn info(id: &str, name: &str) -> LedgerAssetInfo {
    LedgerAssetInfo {
        work_id: id.to_string(),
        contract_address: "0xledger".to_string(),
        token_id: format!("{}-token", id),
        name: name.to_string(),
        description: "d".to_string(),
        image_url: "i".to_string(),
        image_preview_url: "p".to_string(),
        permalink: "l".to_string(),
    }
}

fn published_row(id: &str, name: &str) -> Asset {
    let mut a = Asset::new(id.to_string());
    a.published(
        "0xledger".to_string(),
        format!("{}-token", id),
        name.to_string(),
        "d".to_string(),
        "i".to_string(),
        "p".to_string(),
        "l".to_string(),
    );
    a
}

fn snapshot(works: &WorkTable, assets: &AssetTable) -> (Vec<(String, String)>, Vec<(String, String, String)>) {
    let w = works
        .get_all()
        .into_iter()
        .map(|w| (w.id, w.status.name()))
        .collect();
    let a = assets
        .get_all()
        .into_iter()
        .map(|a| (a.work_id, a.token_id, a.name))
        .collect();
    (w, a)
}

#[test]
fn reconciliation_backfills_advances_and_deletes() {
    // The ledger reports {W1, W2}; the local store has asset rows for
    // {W1, W3}. W1 is already consistent, W2's row is missing, W3's
    // identifier is no longer reported.
    let mut works = WorkTable::new();
    works.put(&work("W1", WorkStatus::PublishNFT));
    works.put(&work("W2", WorkStatus::Prepare));
    let mut assets = AssetTable::new();
    assets.put(&published_row("W1", "one"));
    assets.put(&published_row("W3", "three"));
    let mut infos = AssetInfoTable::new();
    infos.put(&info("W1", "one"));
    infos.put(&info("W2", "two"));
    let used = vec!["W1".to_string(), "W2".to_string()];

    reconcile(&mut works, &mut assets, &used, &infos);

    // W3 is deleted.
    assert!(assets.get(&"W3".to_string()).is_err());
    // W2 is created from the fetched report and its work advanced.
    let w2 = assets.get(&"W2".to_string()).unwrap();
    assert_eq!(w2.name, "two");
    assert_eq!(w2.contract_address, "0xledger");
    assert_eq!(works.get(&"W2".to_string()).unwrap().status, WorkStatus::PublishNFT);
    // W1 is left as it was.
    let w1 = assets.get(&"W1".to_string()).unwrap();
    assert_eq!(w1.name, "one");
    assert_eq!(works.get(&"W1".to_string()).unwrap().status, WorkStatus::PublishNFT);
}

#[test]
fn a_second_run_with_no_ledger_change_is_a_no_op() {
    let mut works = WorkTable::new();
    works.put(&work("W1", WorkStatus::Prepare));
    works.put(&work("W2", WorkStatus::SellOrder));
    let mut assets = AssetTable::new();
    assets.put(&Asset::new("W1".to_string()));
    assets.put(&published_row("W4", "four"));
    let mut infos = AssetInfoTable::new();
    infos.put(&info("W1", "one"));
    infos.put(&info("W2", "two"));
    let used = vec!["W1".to_string(), "W2".to_string()];

    reconcile(&mut works, &mut assets, &used, &infos);
    let after_first = snapshot(&works, &assets);

    reconcile(&mut works, &mut assets, &used, &infos);
    let after_second = snapshot(&works, &assets);

    assert_eq!(after_first, after_second);
}

#[test]
fn an_identifier_unknown_to_this_store_is_skipped() {
    let mut works = WorkTable::new();
    works.put(&work("W1", WorkStatus::Prepare));
    let mut assets = AssetTable::new();
    let mut infos = AssetInfoTable::new();
    infos.put(&info("W1", "one"));
    infos.put(&info("W9", "nine"));
    let used = vec!["W9".to_string(), "W1".to_string()];

    reconcile(&mut works, &mut assets, &used, &infos);

    // W9 exists on chain but not here: not an error, nothing created.
    assert!(assets.get(&"W9".to_string()).is_err());
    assert_eq!(assets.get(&"W1".to_string()).unwrap().name, "one");
    assert_eq!(works.get(&"W1".to_string()).unwrap().status, WorkStatus::PublishNFT);
}

#[test]
fn a_failed_metadata_fetch_blocks_only_that_identifier() {
    let mut works = WorkTable::new();
    works.put(&work("W1", WorkStatus::Prepare));
    works.put(&work("W2", WorkStatus::Prepare));
    let mut assets = AssetTable::new();
    let mut infos = AssetInfoTable::new();
    // W1's fetch failed: no report for it.
    infos.put(&info("W2", "two"));
    let used = vec!["W1".to_string(), "W2".to_string()];

    reconcile(&mut works, &mut assets, &used, &infos);

    assert!(assets.get(&"W1".to_string()).is_err());
    assert_eq!(works.get(&"W1".to_string()).unwrap().status, WorkStatus::Prepare);
    assert_eq!(assets.get(&"W2".to_string()).unwrap().name, "two");
    assert_eq!(works.get(&"W2".to_string()).unwrap().status, WorkStatus::PublishNFT);
}

#[test]
fn a_placeholder_whose_mint_never_confirmed_is_cleaned_up() {
    let mut works = WorkTable::new();
    works.put(&work("W1", WorkStatus::Prepare));
    let mut assets = AssetTable::new();
    assets.put(&Asset::new("W1".to_string()));
    let infos = AssetInfoTable::new();
    let used: Vec<String> = vec![];

    reconcile(&mut works, &mut assets, &used, &infos);

    assert!(assets.get(&"W1".to_string()).is_err());
    assert_eq!(works.get(&"W1".to_string()).unwrap().status, WorkStatus::Prepare);
}

#[test]
fn upserting_keeps_the_stored_prices() {
    let mut works = WorkTable::new();
    works.put(&work("W1", WorkStatus::PublishNFT));
    let mut assets = AssetTable::new();
    let mut priced = published_row("W1", "old-name");
    priced.usd_price = "12.5".to_string();
    priced.eth_price = "0.004".to_string();
    assets.put(&priced);
    let mut infos = AssetInfoTable::new();
    infos.put(&info("W1", "new-name"));
    let used = vec!["W1".to_string()];

    reconcile(&mut works, &mut assets, &used, &infos);

    let row = assets.get(&"W1".to_string()).unwrap();
    assert_eq!(row.name, "new-name");
    assert_eq!(row.usd_price, "12.5");
    assert_eq!(row.eth_price, "0.004");
}

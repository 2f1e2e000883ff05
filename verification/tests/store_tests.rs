use nft_pipeline::domain::asset::Asset;
use nft_pipeline::domain::work::{Work, WorkStatus};
use nft_pipeline::publish::get_multi_by_status;
use nft_pipeline::store::{AssetTable, TableNameProvider, WorkTable};
use nft_pipeline::AppError;

fn work(id: &str, status: WorkStatus) -> Work {
    Work { id: id.to_string(), video_path: format!("videos/{}.mp4", id), status }
}

#[test]
fn put_then_get_returns_the_row() {
    let mut t = WorkTable::new();
    t.put(&work("W1", WorkStatus::Prepare));
    let w = t.get(&"W1".to_string()).unwrap();
    assert_eq!(w.id, "W1");
    assert_eq!(w.status, WorkStatus::Prepare);
}

#[test]
fn get_of_a_missing_id_is_not_found() {
    let t = WorkTable::new();
    let err = t.get(&"W1".to_string()).unwrap_err();
    assert!(matches!(err, AppError::NotFound));
}

#[test]
fn put_replaces_the_row_with_the_same_id() {
    let mut t = WorkTable::new();
    t.put(&work("W1", WorkStatus::Prepare));
    t.put(&work("W1", WorkStatus::PublishNFT));
    let w = t.get(&"W1".to_string()).unwrap();
    assert_eq!(w.status, WorkStatus::PublishNFT);
    assert_eq!(t.get_all().len(), 1);
}

#[test]
fn delete_removes_the_row() {
    let mut t = WorkTable::new();
    t.put(&work("W1", WorkStatus::Prepare));
    t.delete(&"W1".to_string());
    assert!(t.get(&"W1".to_string()).is_err());
    // Deleting what is absent is quietly fine.
    t.delete(&"W1".to_string());
}

#[test]
fn get_multi_drops_missing_ids_and_keeps_caller_order() {
    let mut t = WorkTable::new();
    t.put(&work("a", WorkStatus::Prepare));
    t.put(&work("c", WorkStatus::PublishNFT));
    let ids = vec!["a".to_string(), "b".to_string(), "c".to_string()];
    let got = t.get_multi(&ids);
    assert_eq!(got.len(), 2);
    assert_eq!(got[0].id, "a");
    assert_eq!(got[1].id, "c");
}

#[test]
fn get_multi_of_no_ids_is_empty() {
    let mut t = WorkTable::new();
    t.put(&work("a", WorkStatus::Prepare));
    assert!(t.get_multi(&vec![]).is_empty());
}

#[test]
fn get_multi_by_status_filters_out_disqualified_works() {
    let mut t = WorkTable::new();
    t.put(&work("a", WorkStatus::SellOrder));
    t.put(&work("b", WorkStatus::Prepare));
    t.put(&work("c", WorkStatus::SellOrder));
    let ids = vec!["a".to_string(), "b".to_string(), "c".to_string(), "d".to_string()];
    let got = get_multi_by_status(&t, &ids, WorkStatus::SellOrder);
    assert_eq!(got.len(), 2);
    assert_eq!(got[0].id, "a");
    assert_eq!(got[1].id, "c");
}

#[test]
fn asset_table_round_trips_rows() {
    let mut t = AssetTable::new();
    let mut a = Asset::new("W1".to_string());
    assert_eq!(a.contract_address, "");
    assert_eq!(a.token_id, "");
    assert_eq!(a.usd_price, "0");
    t.put(&a);
    a.published(
        "0xabc".to_string(),
        "7".to_string(),
        "name".to_string(),
        "desc".to_string(),
        "img".to_string(),
        "prev".to_string(),
        "link".to_string(),
    );
    t.put(&a);
    let got = t.get(&"W1".to_string()).unwrap();
    assert_eq!(got.contract_address, "0xabc");
    assert_eq!(got.token_id, "7");
    assert_eq!(got.usd_price, "0");
    assert_eq!(t.get_all().len(), 1);
}

#[test]
fn table_names_take_the_deployment_prefix() {
    let plain = TableNameProvider::new();
    assert_eq!(plain.with("canvas-nft-work"), "canvas-nft-work");
    let prefixed = TableNameProvider { prefix: "stg-".to_string() };
    assert_eq!(prefixed.with("canvas-nft-work"), "stg-canvas-nft-work");
}

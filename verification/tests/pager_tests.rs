use nft_pipeline::cursor::PagingKey;
use nft_pipeline::domain::work::{Work, WorkStatus};
use nft_pipeline::pager::{filter_by_status, scan_page};
use nft_pipeline::store::WorkTable;
use nft_pipeline::AppError;

fn work(id: &str, status: WorkStatus) -> Work {
    Work { id: id.to_string(), video_path: format!("videos/{}.mp4", id), status }
}

fn seeded() -> WorkTable {
    let mut t = WorkTable::new();
    for (id, st) in [
        ("W1", WorkStatus::Prepare),
        ("W2", WorkStatus::SellOrder),
        ("W3", WorkStatus::Prepare),
        ("W4", WorkStatus::SellOrder),
        ("W5", WorkStatus::SellOrder),
    ] {
        t.put(&work(id, st));
    }
    t
}

fn ids(page: &[Work]) -> Vec<String> {
    page.iter().map(|w| w.id.clone()).collect()
}

#[test]
fn a_scan_pages_through_everything_via_encoded_cursors() {
    let rows = seeded().get_all();

    let (page1, next1) = scan_page(&rows, &PagingKey::from(None), Some(2)).unwrap();
    assert_eq!(ids(&page1), vec!["W1", "W2"]);
    // The continuation key crosses the API boundary as an opaque token.
    let token = next1.encode().expect("a mid-scan cursor is present");
    let resumed = PagingKey::decode(Some(token)).unwrap();

    let (page2, next2) = scan_page(&rows, &resumed, Some(2)).unwrap();
    assert_eq!(ids(&page2), vec!["W3", "W4"]);

    let (page3, next3) = scan_page(&rows, &next2, Some(2)).unwrap();
    assert_eq!(ids(&page3), vec!["W5"]);
    assert!(next3.encode().is_none());
    let _ = page3;
}

#[test]
fn the_default_page_size_covers_a_small_table() {
    let rows = seeded().get_all();
    let (page, next) = scan_page(&rows, &PagingKey::from(None), None).unwrap();
    assert_eq!(page.len(), 5);
    assert!(next.encode().is_none());
}

#[test]
fn a_cursor_naming_a_vanished_row_yields_an_empty_final_page() {
    let mut table = seeded();
    let rows = table.get_all();
    let (_, next) = scan_page(&rows, &PagingKey::from(None), Some(2)).unwrap();
    // The row named by the cursor is deleted between the pages.
    table.delete(&"W2".to_string());
    let rows = table.get_all();
    let (page, next2) = scan_page(&rows, &next, Some(2)).unwrap();
    assert!(ids(&page).is_empty());
    assert!(next2.encode().is_none());
}

#[test]
fn a_foreign_cursor_is_a_bad_request() {
    let rows = seeded().get_all();
    // A cursor of a different query shape must not be silently accepted.
    let foreign = PagingKey::from(Some(vec![(
        "Status".to_string(),
        nft_pipeline::cursor::EncodableAttributeValue::S("Prepare".to_string()),
    )]));
    let err = scan_page(&rows, &foreign, Some(2)).unwrap_err();
    assert!(matches!(err, AppError::BadRequest(_)));
}

#[test]
fn a_non_positive_limit_is_a_bad_request() {
    let rows = seeded().get_all();
    let err = scan_page(&rows, &PagingKey::from(None), Some(0)).unwrap_err();
    assert!(matches!(err, AppError::BadRequest(_)));
    let err = scan_page(&rows, &PagingKey::from(None), Some(-3)).unwrap_err();
    assert!(matches!(err, AppError::BadRequest(_)));
}

#[test]
fn status_queries_page_over_the_filtered_rows() {
    let rows = seeded().get_all();
    let listed = filter_by_status(&rows, WorkStatus::SellOrder);
    assert_eq!(ids(&listed), vec!["W2", "W4", "W5"]);
    let (page, next) = scan_page(&listed, &PagingKey::from(None), Some(2)).unwrap();
    assert_eq!(ids(&page), vec!["W2", "W4"]);
    let (page2, next2) = scan_page(&listed, &next, Some(2)).unwrap();
    assert_eq!(ids(&page2), vec!["W5"]);
    assert!(next2.encode().is_none());
}

use nft_pipeline::domain::user::auth_user_from_claims;
use nft_pipeline::domain::user::AuthUser;
use nft_pipeline::domain::work::Thumbnail;
use nft_pipeline::ethaddr::{is_owner, parse_address};
use nft_pipeline::store::ThumbnailTable;
use nft_pipeline::AppError;

fn thumb(id: &str, work_id: &str, order: i32) -> Thumbnail {
    Thumbnail {
        id: id.to_string(),
        work_id: work_id.to_string(),
        image_path: format!("img/{}.png", id),
        order,
    }
}

#[test]
fn a_works_thumbnails_come_back_ordered() {
    let mut t = ThumbnailTable::new();
    t.put(&thumb("T3", "W1", 3));
    t.put(&thumb("T1", "W1", 1));
    t.put(&thumb("T9", "W2", 0));
    t.put(&thumb("T2", "W1", 2));
    let got = t.get_by_work(&"W1".to_string());
    let ids: Vec<String> = got.iter().map(|x| x.id.clone()).collect();
    assert_eq!(ids, vec!["T1", "T2", "T3"]);
}

#[test]
fn equal_orders_keep_storage_order() {
    let mut t = ThumbnailTable::new();
    t.put(&thumb("Ta", "W1", 5));
    t.put(&thumb("Tb", "W1", 5));
    t.put(&thumb("Tc", "W1", 1));
    let got = t.get_by_work(&"W1".to_string());
    let ids: Vec<String> = got.iter().map(|x| x.id.clone()).collect();
    assert_eq!(ids, vec!["Tc", "Ta", "Tb"]);
}

#[test]
fn an_unknown_work_has_no_thumbnails() {
    let mut t = ThumbnailTable::new();
    t.put(&thumb("T1", "W1", 1));
    assert!(t.get_by_work(&"W9".to_string()).is_empty());
}

#[test]
fn deleting_a_thumbnail_cascades_out_of_the_index() {
    let mut t = ThumbnailTable::new();
    t.put(&thumb("T1", "W1", 1));
    t.put(&thumb("T2", "W1", 2));
    t.delete(&"T1".to_string());
    let got = t.get_by_work(&"W1".to_string());
    assert_eq!(got.len(), 1);
    assert_eq!(got[0].id, "T2");
}

#[test]
fn addresses_parse_with_or_without_the_prefix() {
    let bare = "00a329c0648769a73afac7f9381e08fb43dbea72".to_string();
    let prefixed = format!("0x{}", bare);
    let upper = "0x00A329C0648769A73AFAC7F9381E08FB43DBEA72".to_string();
    let b1 = parse_address(&bare).unwrap();
    let b2 = parse_address(&prefixed).unwrap();
    let b3 = parse_address(&upper).unwrap();
    assert_eq!(b1.len(), 20);
    assert_eq!(b1, b2);
    assert_eq!(b1, b3);
    assert_eq!(b1[0], 0x00);
    assert_eq!(b1[1], 0xa3);
}

#[test]
fn malformed_addresses_do_not_parse() {
    assert!(parse_address(&"0x1234".to_string()).is_none());
    assert!(parse_address(&String::new()).is_none());
    assert!(parse_address(&"0xzza329c0648769a73afac7f9381e08fb43dbea72".to_string()).is_none());
    assert!(parse_address(&"0x00a329c0648769a73afac7f9381e08fb43dbea7".to_string()).is_none());
}

#[test]
fn publisher_claims_authenticate_the_publisher() {
    let r = auth_user_from_claims(Some("user-1".to_string()), Some("0".to_string())).unwrap();
    match r {
        AuthUser::Publisher(id) => assert_eq!(id, "user-1"),
        _ => panic!("an account of publisher type signs in as publisher"),
    }
}

#[test]
fn other_account_types_are_unknown() {
    let r = auth_user_from_claims(Some("user-1".to_string()), Some("7".to_string())).unwrap();
    assert!(matches!(r, AuthUser::Unknown));
}

#[test]
fn missing_claims_cannot_authenticate() {
    let err = auth_user_from_claims(None, Some("0".to_string())).unwrap_err();
    assert!(matches!(err, AppError::UnAuthenticate));
    let err = auth_user_from_claims(Some("user-1".to_string()), None).unwrap_err();
    assert!(matches!(err, AppError::UnAuthenticate));
}

#[test]
fn ownership_is_read_off_the_reported_addresses() {
    let wallet = "0x00a329c0648769a73afac7f9381e08fb43dbea72".to_string();
    let owners = vec![
        "0x1111111111111111111111111111111111111111".to_string(),
        // The marketplace spells the same account without the prefix and in
        // upper case.
        "00A329C0648769A73AFAC7F9381E08FB43DBEA72".to_string(),
    ];
    assert!(is_owner(&owners, &wallet));
    let strangers = vec!["0x2222222222222222222222222222222222222222".to_string()];
    assert!(!is_owner(&strangers, &wallet));
    assert!(!is_owner(&vec![], &wallet));
    assert!(!is_owner(&owners, &"not an address".to_string()));
}

use nft_pipeline::attrmap::{
    asset_from_attrs, asset_to_attrs, thumbnail_from_attrs, thumbnail_to_attrs, user_from_attrs,
    user_to_attrs, work_from_attrs, work_to_attrs, AttrMap,
};
use nft_pipeline::cursor::EncodableAttributeValue;
use nft_pipeline::domain::asset::Asset;
use nft_pipeline::domain::user::User;
use nft_pipeline::domain::work::{Thumbnail, Work, WorkStatus};
use nft_pipeline::AppError;

fn s(v: &str) -> EncodableAttributeValue {
    EncodableAttributeValue::S(v.to_string())
}

fn n(v: &str) -> EncodableAttributeValue {
    EncodableAttributeValue::N(v.to_string())
}

fn attrs(fields: Vec<(&str, EncodableAttributeValue)>) -> AttrMap {
    fields.into_iter().map(|(k, v)| (k.to_string(), v)).collect()
}

#[test]
fn work_rows_round_trip() {
    let w = Work {
        id: "W1".to_string(),
        video_path: "videos/W1.mp4".to_string(),
        status: WorkStatus::PublishNFT,
    };
    let row = work_to_attrs(&w);
    let back = work_from_attrs(&row).unwrap();
    assert_eq!(back.id, "W1");
    assert_eq!(back.video_path, "videos/W1.mp4");
    assert_eq!(back.status, WorkStatus::PublishNFT);
}

#[test]
fn an_unrecognized_status_is_a_hard_internal_error() {
    let row = attrs(vec![
        ("ID", s("W1")),
        ("VideoPath", s("v")),
        ("Status", s("Published")),
    ]);
    let err = work_from_attrs(&row).unwrap_err();
    assert!(matches!(err, AppError::Internal(_)));
}

#[test]
fn a_missing_attribute_is_a_hard_internal_error() {
    let row = attrs(vec![("ID", s("W1")), ("Status", s("Prepare"))]);
    let err = work_from_attrs(&row).unwrap_err();
    assert!(matches!(err, AppError::Internal(_)));
}

#[test]
fn a_wrongly_tagged_attribute_is_a_hard_internal_error() {
    let row = attrs(vec![
        ("ID", n("17")),
        ("VideoPath", s("v")),
        ("Status", s("Prepare")),
    ]);
    let err = work_from_attrs(&row).unwrap_err();
    assert!(matches!(err, AppError::Internal(_)));
}

#[test]
fn user_rows_round_trip() {
    let u = User::new("id-1".to_string(), "0xaddr".to_string(), "secret".to_string());
    let back = user_from_attrs(&user_to_attrs(&u)).unwrap();
    assert_eq!(back.id, "id-1");
    assert_eq!(back.wallet_address, "0xaddr");
    assert_eq!(back.wallet_secret, "secret");
}

#[test]
fn asset_rows_round_trip_with_price_counters() {
    let mut a = Asset::new("W1".to_string());
    a.published(
        "0xc".to_string(),
        "9".to_string(),
        "name".to_string(),
        "desc".to_string(),
        "img".to_string(),
        "prev".to_string(),
        "link".to_string(),
    );
    a.usd_price = "12.5".to_string();
    a.eth_price = "0.004".to_string();
    let back = asset_from_attrs(&asset_to_attrs(&a)).unwrap();
    assert_eq!(back.work_id, "W1");
    assert_eq!(back.contract_address, "0xc");
    assert_eq!(back.token_id, "9");
    assert_eq!(back.name, "name");
    assert_eq!(back.usd_price, "12.5");
    assert_eq!(back.eth_price, "0.004");
}

#[test]
fn thumbnail_rows_round_trip_their_order() {
    for order in [0, 1, 42, -7, i32::MAX, i32::MIN] {
        let t = Thumbnail {
            id: "T1".to_string(),
            work_id: "W1".to_string(),
            image_path: "img/T1.png".to_string(),
            order,
        };
        let back = thumbnail_from_attrs(&thumbnail_to_attrs(&t)).unwrap();
        assert_eq!(back.order, order);
        assert_eq!(back.id, "T1");
    }
}

#[test]
fn an_unreadable_order_is_a_hard_internal_error() {
    let row = attrs(vec![
        ("ID", s("T1")),
        ("WorkID", s("W1")),
        ("ImagePath", s("img")),
        ("Order", n("first")),
    ]);
    let err = thumbnail_from_attrs(&row).unwrap_err();
    assert!(matches!(err, AppError::Internal(_)));
}

#[test]
fn the_stored_order_is_spelled_in_decimal() {
    let t = Thumbnail {
        id: "T1".to_string(),
        work_id: "W1".to_string(),
        image_path: "img".to_string(),
        order: -205,
    };
    let row = thumbnail_to_attrs(&t);
    let stored = row
        .iter()
        .find(|(k, _)| k == "Order")
        .map(|(_, v)| v)
        .unwrap();
    match stored {
        EncodableAttributeValue::N(text) => assert_eq!(text, "-205"),
        _ => panic!("the order travels as a numeric attribute"),
    }
}

#[test]
fn extra_attributes_are_ignored() {
    let row = attrs(vec![
        ("Legacy", s("x")),
        ("ID", s("W1")),
        ("VideoPath", s("v")),
        ("Status", s("Prepare")),
    ]);
    let w = work_from_attrs(&row).unwrap();
    assert_eq!(w.id, "W1");
}

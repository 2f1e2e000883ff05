use nft_pipeline::domain::user::{AuthUser, User};
use nft_pipeline::domain::work::{Thumbnail, Work, WorkStatus};
use nft_pipeline::errors::AppError;
use nft_pipeline::graph::outputs::{User as UserOutput, Work as WorkOutput, NFT};
use nft_pipeline::graph::{FieldErrorCode, FieldErrorWithCode, WorkStatus as ApiWorkStatus};
use nft_pipeline::metadata::Metadata;
use nft_pipeline::notify::notification_for;
use nft_pipeline::task::{CreateWorkPayload, MintNft721Payload, Task};
use nft_pipeline::domain;

#[test]
fn auth_users_answer_for_themselves() {
    let publisher = AuthUser::Publisher("user-1".to_string());
    assert_eq!(publisher.user_id(), Some("user-1".to_string()));
    assert!(publisher.is_publisher());
    assert!(!publisher.is_system());

    let system = AuthUser::System;
    assert_eq!(system.user_id(), None);
    assert!(system.is_system());
    assert!(!system.is_publisher());

    let unknown = AuthUser::Unknown;
    assert_eq!(unknown.user_id(), None);
    assert!(!unknown.is_system());
    assert!(!unknown.is_publisher());
}

#[test]
fn users_carry_their_wallet() {
    let u = User::new("id-1".to_string(), "0xaddr".to_string(), "secret".to_string());
    assert_eq!(u.id, "id-1");
    assert_eq!(u.wallet_address, "0xaddr");
    assert_eq!(u.wallet_secret, "secret");
    let b = u.with_balance(1_000_000_000_000_000_000, 2, vec![("W1".to_string(), 30)]);
    assert_eq!(b.balance_wei, 1_000_000_000_000_000_000);
    assert_eq!(b.nft_721_num, 2);
    assert_eq!(b.nft_1155_num, vec![("W1".to_string(), 30)]);
}

#[test]
fn error_codes_follow_the_taxonomy() {
    let cases = vec![
        (AppError::BadRequest("m".to_string()), FieldErrorCode::BadRequest),
        (AppError::UnAuthenticate, FieldErrorCode::UnAuthenticate),
        (AppError::Forbidden, FieldErrorCode::Forbidden),
        (AppError::NotFound, FieldErrorCode::NotFound),
        (AppError::Internal("m".to_string()), FieldErrorCode::Internal),
    ];
    for (err, code) in cases {
        let with_code = FieldErrorWithCode::from(err);
        assert_eq!(with_code.code, code);
    }
}

#[test]
fn api_status_maps_both_ways() {
    for (api, dom) in [
        (ApiWorkStatus::Prepare, WorkStatus::Prepare),
        (ApiWorkStatus::PublishNFT, WorkStatus::PublishNFT),
        (ApiWorkStatus::SellOrder, WorkStatus::SellOrder),
    ] {
        assert_eq!(api.domain(), dom);
        assert_eq!(ApiWorkStatus::from(dom).domain(), dom);
    }
}

#[test]
fn metadata_links_back_to_the_work_page() {
    let m = Metadata::new("W1".to_string(), "a description".to_string(), "https://img".to_string());
    assert_eq!(m.name, "W1");
    assert_eq!(m.description, "a description");
    assert_eq!(m.image, "https://img");
    assert_eq!(m.external_url, "https://canvas-329810.web.app/W1");
}

#[test]
fn notifications_name_the_task_and_the_outcome() {
    let mint = Task::MintNFT721(MintNft721Payload {
        executor_id: "e".to_string(),
        work_id: "W1".to_string(),
        ipfs_hash: String::new(),
        s3_key: String::new(),
    });
    let ok = notification_for(&mint, true, &String::new());
    assert_eq!(ok.subject, "ERC721 mint succeeded");
    assert_eq!(ok.body, "done.");
    let failed = notification_for(&mint, false, &"ledger refused".to_string());
    assert_eq!(failed.subject, "ERC721 mint failed");
    assert_eq!(failed.body, "failed: ledger refused");

    let import = Task::CreateWork(CreateWorkPayload {
        executor_id: "e".to_string(),
        prefix: "p".to_string(),
        file_name: "f".to_string(),
    });
    assert_eq!(notification_for(&import, true, &String::new()).subject, "work import succeeded");
}

#[test]
fn nft_getters_expose_the_row() {
    let nft = NFT::from(domain::nft::NFT {
        work_id: "W1".to_string(),
        address: "0xa".to_string(),
        token_id: "9".to_string(),
        name: "n".to_string(),
        description: "d".to_string(),
        image_url: "i".to_string(),
        image_preview_url: "p".to_string(),
        permalink: "l".to_string(),
        usd_price: "3.5".to_string(),
        eth_price: "0.001".to_string(),
    });
    assert_eq!(nft.work_id(), "W1");
    assert_eq!(nft.address(), "0xa");
    assert_eq!(nft.token_id(), "9");
    assert_eq!(nft.name(), "n");
    assert_eq!(nft.description(), "d");
    assert_eq!(nft.image_url(), "i");
    assert_eq!(nft.image_preview_url(), "p");
    assert_eq!(nft.permalink(), "l");
}

#[test]
fn work_output_exposes_id_path_and_status() {
    let out = WorkOutput::from(Work {
        id: "W1".to_string(),
        video_path: "videos/W1.mp4".to_string(),
        status: WorkStatus::PublishNFT,
    });
    assert_eq!(out.id(), "W1");
    assert_eq!(out.video_path(), "videos/W1.mp4");
    assert_eq!(out.status().domain(), WorkStatus::PublishNFT);
}

#[test]
fn user_output_clamps_oversized_counts_to_zero() {
    let u = User::new("id-1".to_string(), "0xaddr".to_string(), "s".to_string());
    let out = UserOutput::from(u.with_balance(
        0,
        (i32::MAX as u128) + 1,
        vec![("W1".to_string(), 7), ("W2".to_string(), u128::MAX)],
    ));
    assert_eq!(out.id(), "id-1");
    assert_eq!(out.wallet_address(), "0xaddr");
    assert_eq!(out.nft_721_num(), 0);
    let balances = out.nft_1155_num();
    assert_eq!(balances.len(), 2);
    assert_eq!(balances[0].work_id, "W1");
    assert_eq!(balances[0].balance, 7);
    assert_eq!(balances[1].balance, 0);
}

#[test]
fn thumbnails_keep_their_order_field() {
    let t = Thumbnail {
        id: "T1".to_string(),
        work_id: "W1".to_string(),
        image_path: "img/T1.png".to_string(),
        order: 3,
    };
    let out = nft_pipeline::graph::outputs::Thumbnail::from(t);
    assert_eq!(out.id(), "T1");
    assert_eq!(out.image_path(), "img/T1.png");
    assert_eq!(out.order(), 3);
}

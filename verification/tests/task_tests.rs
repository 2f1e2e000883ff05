use nft_pipeline::task::{
    CreateThumbnailPayload, CreateWorkPayload, MintNft1155Payload, MintNft721Payload, Task,
};
use nft_pipeline::AppError;

#[test]
fn create_work_round_trips() {
    let task = Task::CreateWork(CreateWorkPayload {
        executor_id: "user-1".to_string(),
        prefix: "work_csv".to_string(),
        file_name: "works.csv".to_string(),
    });
    let wire = (task.subject_number(), task.message());
    assert_eq!(wire.0, 1);
    let back = Task::from_sns(wire.0, wire.1).unwrap();
    match back {
        Task::CreateWork(p) => {
            assert_eq!(p.executor_id, "user-1");
            assert_eq!(p.prefix, "work_csv");
            assert_eq!(p.file_name, "works.csv");
        },
        _ => panic!("the variant must survive the trip"),
    }
}

#[test]
fn create_thumbnail_round_trips() {
    let task = Task::CreateThumbnail(CreateThumbnailPayload {
        executor_id: "user-2".to_string(),
        prefix: "thumbnail_csv".to_string(),
        file_name: "thumbs.csv".to_string(),
    });
    assert_eq!(task.subject_number(), 2);
    let back = Task::from_sns(2, task.message()).unwrap();
    match back {
        Task::CreateThumbnail(p) => assert_eq!(p.file_name, "thumbs.csv"),
        _ => panic!("the variant must survive the trip"),
    }
}

#[test]
fn mint_721_round_trips() {
    let task = Task::MintNFT721(MintNft721Payload {
        executor_id: "user-3".to_string(),
        work_id: "W1".to_string(),
        ipfs_hash: "QmHash".to_string(),
        s3_key: "721_asset/W1.metadata.json".to_string(),
    });
    assert_eq!(task.subject_number(), 3);
    let back = Task::from_sns(3, task.message()).unwrap();
    match back {
        Task::MintNFT721(p) => {
            assert_eq!(p.executor_id, "user-3");
            assert_eq!(p.work_id, "W1");
            assert_eq!(p.ipfs_hash, "QmHash");
            assert_eq!(p.s3_key, "721_asset/W1.metadata.json");
        },
        _ => panic!("the variant must survive the trip"),
    }
}

#[test]
fn mint_1155_round_trips_with_amount() {
    let task = Task::MintNFT1155(MintNft1155Payload {
        executor_id: "user-4".to_string(),
        work_id: "W2".to_string(),
        amount: 25,
        ipfs_hash: String::new(),
        s3_key: "1155_asset/W2.metadata.json".to_string(),
    });
    assert_eq!(task.subject_number(), 4);
    let back = Task::from_sns(4, task.message()).unwrap();
    match back {
        Task::MintNFT1155(p) => {
            assert_eq!(p.work_id, "W2");
            assert_eq!(p.amount, 25);
            assert_eq!(p.ipfs_hash, "");
        },
        _ => panic!("the variant must survive the trip"),
    }
}

#[test]
fn unknown_discriminant_always_fails() {
    let task = Task::CreateWork(CreateWorkPayload {
        executor_id: "user-1".to_string(),
        prefix: "p".to_string(),
        file_name: "f".to_string(),
    });
    let payload = task.message();
    for bad in [0, 5, -1, 99, i32::MAX] {
        let err = Task::from_sns(bad, payload.clone()).unwrap_err();
        assert!(matches!(err, AppError::BadRequest(_)));
    }
}

#[test]
fn wrong_discriminant_for_payload_fails() {
    let task = Task::CreateWork(CreateWorkPayload {
        executor_id: "user-1".to_string(),
        prefix: "p".to_string(),
        file_name: "f".to_string(),
    });
    // A three-field payload under the four-field discriminant cannot parse.
    let err = Task::from_sns(3, task.message()).unwrap_err();
    assert!(matches!(err, AppError::BadRequest(_)));
}

#[test]
fn truncated_payload_fails() {
    let task = Task::MintNFT721(MintNft721Payload {
        executor_id: "user-3".to_string(),
        work_id: "W1".to_string(),
        ipfs_hash: "h".to_string(),
        s3_key: "k".to_string(),
    });
    let mut payload = task.message();
    payload.pop();
    let err = Task::from_sns(3, payload).unwrap_err();
    assert!(matches!(err, AppError::BadRequest(_)));
}

#[test]
fn trailing_bytes_fail() {
    let task = Task::CreateWork(CreateWorkPayload {
        executor_id: "e".to_string(),
        prefix: "p".to_string(),
        file_name: "f".to_string(),
    });
    let mut payload = task.message();
    payload.push(0);
    let err = Task::from_sns(1, payload).unwrap_err();
    assert!(matches!(err, AppError::BadRequest(_)));
}

#[test]
fn topic_arn_is_the_fixed_topic() {
    let task = Task::CreateWork(CreateWorkPayload {
        executor_id: "e".to_string(),
        prefix: "p".to_string(),
        file_name: "f".to_string(),
    });
    assert_eq!(
        task.topic_arn(),
        "arn:aws:sns:ap-northeast-1:326914400610:canvas-nft-topic"
    );
}

use nft_pipeline::domain::work::{Work, WorkStatus};
use nft_pipeline::AppError;

#[test]
fn names_round_trip() {
    for st in [WorkStatus::Prepare, WorkStatus::PublishNFT, WorkStatus::SellOrder] {
        let name = st.name();
        let back = WorkStatus::from(name).unwrap();
        assert_eq!(back, st);
    }
}

#[test]
fn names_are_the_stable_wire_names() {
    assert_eq!(WorkStatus::Prepare.name(), "Prepare");
    assert_eq!(WorkStatus::PublishNFT.name(), "PublishNFT");
    assert_eq!(WorkStatus::SellOrder.name(), "SellOrder");
}

#[test]
fn unknown_name_is_a_hard_error() {
    let err = WorkStatus::from("Published".to_string()).unwrap_err();
    assert!(matches!(err, AppError::Internal(_)));
    let err = WorkStatus::from(String::new()).unwrap_err();
    assert!(matches!(err, AppError::Internal(_)));
}

fn work(status: WorkStatus) -> Work {
    Work { id: "W1".to_string(), video_path: "videos/W1.mp4".to_string(), status }
}

#[test]
fn mint_confirmation_publishes_a_prepared_work() {
    let mut w = work(WorkStatus::Prepare);
    w.update_status(WorkStatus::PublishNFT).unwrap();
    assert_eq!(w.status, WorkStatus::PublishNFT);
    assert_eq!(w.id, "W1");
}

#[test]
fn sell_lists_a_published_work() {
    let mut w = work(WorkStatus::PublishNFT);
    w.update_status(WorkStatus::SellOrder).unwrap();
    assert_eq!(w.status, WorkStatus::SellOrder);
}

#[test]
fn listing_a_prepared_work_is_refused_and_changes_nothing() {
    let mut w = work(WorkStatus::Prepare);
    let err = w.update_status(WorkStatus::SellOrder).unwrap_err();
    assert!(matches!(err, AppError::BadRequest(_)));
    assert_eq!(w.status, WorkStatus::Prepare);
}

#[test]
fn no_transition_moves_backward() {
    let mut w = work(WorkStatus::SellOrder);
    assert!(w.update_status(WorkStatus::PublishNFT).is_err());
    assert!(w.update_status(WorkStatus::Prepare).is_err());
    assert_eq!(w.status, WorkStatus::SellOrder);

    let mut w = work(WorkStatus::PublishNFT);
    assert!(w.update_status(WorkStatus::Prepare).is_err());
    assert_eq!(w.status, WorkStatus::PublishNFT);
}

#[test]
fn a_status_never_transitions_to_itself() {
    for st in [WorkStatus::Prepare, WorkStatus::PublishNFT, WorkStatus::SellOrder] {
        let mut w = work(st);
        assert!(w.update_status(st).is_err());
        assert_eq!(w.status, st);
    }
}

//! What the worker tells the requesting user once a task has run: a fixed
//! subject per task kind and outcome, and a body that carries the failure
//! detail when there is one.

use crate::task::{Task, TaskModel};
use vstd::prelude::*;
use vstd::string::StringExecFns;

verus! {

/// An email to the task's executor.
pub struct Notification {
    pub subject: String,
    pub body: String,
}

/// The subject line for a task's outcome.
pub open spec fn notify_subject(t: TaskModel, succeeded: bool) -> Seq<char> {
    match t {
        TaskModel::CreateWork { .. } => if succeeded {
            "work import succeeded"@
        } else {
            "work import failed"@
        },
        TaskModel::CreateThumbnail { .. } => if succeeded {
            "thumbnail import succeeded"@
        } else {
            "thumbnail import failed"@
        },
        TaskModel::MintNFT721 { .. } => if succeeded {
            "ERC721 mint succeeded"@
        } else {
            "ERC721 mint failed"@
        },
        TaskModel::MintNFT1155 { .. } => if succeeded {
            "ERC1155 mint succeeded"@
        } else {
            "ERC1155 mint failed"@
        },
    }
}

/// The body for an outcome: on failure it carries the detail.
pub open spec fn notify_body(succeeded: bool, detail: Seq<char>) -> Seq<char> {
    if succeeded {
        "done."@
    } else {
        "failed: "@ + detail
    }
}

/// The notification to send for a finished task: the consumer reports every
/// outcome, success or failure, to the user who asked for the work.
pub fn notification_for(task: &Task, succeeded: bool, detail: &String) -> (r: Notification)
    ensures
        r.subject@ == notify_subject(task.model(), succeeded),
        r.body@ == notify_body(succeeded, detail@),
{
    let subject = match (task, succeeded) {
        (Task::CreateWork(_), true) => String::from_str("work import succeeded"),
        (Task::CreateWork(_), false) => String::from_str("work import failed"),
        (Task::CreateThumbnail(_), true) => String::from_str("thumbnail import succeeded"),
        (Task::CreateThumbnail(_), false) => String::from_str("thumbnail import failed"),
        (Task::MintNFT721(_), true) => String::from_str("ERC721 mint succeeded"),
        (Task::MintNFT721(_), false) => String::from_str("ERC721 mint failed"),
        (Task::MintNFT1155(_), true) => String::from_str("ERC1155 mint succeeded"),
        (Task::MintNFT1155(_), false) => String::from_str("ERC1155 mint failed"),
    };
    let body = if succeeded {
        String::from_str("done.")
    } else {
        String::from_str("failed: ").concat(detail.as_str())
    };
    Notification { subject, body }
}

} // verus!

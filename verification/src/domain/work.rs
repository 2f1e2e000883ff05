//! Works and thumbnails, and the work lifecycle state machine.

use crate::errors::{AppError, AppResult};
use vstd::prelude::*;
use vstd::string::StringExecFns;

verus! {

/// The lifecycle of a work: `Prepare` before any mint, `PublishNFT` once the
/// ledger has confirmed a mint, `SellOrder` once a sell order is listed.
#[derive(PartialEq, Eq, Structural, Clone, Copy, Debug)]
pub enum WorkStatus {
    Prepare,
    PublishNFT,
    SellOrder,
}

impl WorkStatus {
    /// Position along the one-way lifecycle.
    pub open spec fn rank(self) -> int {
        match self {
            WorkStatus::Prepare => 0,
            WorkStatus::PublishNFT => 1,
            WorkStatus::SellOrder => 2,
        }
    }

    /// The transition graph: a mint confirmation publishes a prepared work,
    /// a sell action lists a published one. Nothing else, and nothing moves
    /// backward.
    pub open spec fn can_transition(self, to: WorkStatus) -> bool {
        ||| (self is Prepare && to is PublishNFT)
        ||| (self is PublishNFT && to is SellOrder)
    }

    /// The stable wire name of the status.
    pub open spec fn spec_name(self) -> Seq<char> {
        match self {
            WorkStatus::Prepare => "Prepare"@,
            WorkStatus::PublishNFT => "PublishNFT"@,
            WorkStatus::SellOrder => "SellOrder"@,
        }
    }

    /// The status a wire name denotes, if any.
    pub open spec fn parse_name(s: Seq<char>) -> Option<WorkStatus> {
        if s == "Prepare"@ {
            Some(WorkStatus::Prepare)
        } else if s == "PublishNFT"@ {
            Some(WorkStatus::PublishNFT)
        } else if s == "SellOrder"@ {
            Some(WorkStatus::SellOrder)
        } else {
            None
        }
    }

    /// Reads a status back from its stable wire name. An unrecognized name
    /// is a hard error, never a default.
    pub fn from(s: String) -> (r: AppResult<WorkStatus>)
        ensures
            r matches Ok(st) ==> WorkStatus::parse_name(s@) == Some(st),
            r is Ok <==> WorkStatus::parse_name(s@) is Some,
            r matches Err(e) ==> e is Internal,
    {
        if s == String::from_str("Prepare") {
            Ok(WorkStatus::Prepare)
        } else if s == String::from_str("PublishNFT") {
            Ok(WorkStatus::PublishNFT)
        } else if s == String::from_str("SellOrder") {
            Ok(WorkStatus::SellOrder)
        } else {
            Err(AppError::Internal(String::from_str("unknown work status")))
        }
    }

    /// The stable wire name, for persisting the status.
    pub fn name(&self) -> (r: String)
        ensures
            r@ == self.spec_name(),
    {
        match self {
            WorkStatus::Prepare => String::from_str("Prepare"),
            WorkStatus::PublishNFT => String::from_str("PublishNFT"),
            WorkStatus::SellOrder => String::from_str("SellOrder"),
        }
    }
}

/// Every transition of the lifecycle graph moves strictly forward: a status
/// never returns to an earlier one, however many transitions are taken.
pub proof fn lemma_status_moves_forward(a: WorkStatus, b: WorkStatus)
    requires
        a.can_transition(b),
    ensures
        a.rank() < b.rank(),
{
}

/// A status name always parses back to the status it names.
pub proof fn lemma_status_name_round_trip(st: WorkStatus)
    ensures
        WorkStatus::parse_name(st.spec_name()) == Some(st),
{
    reveal_strlit("Prepare");
    reveal_strlit("PublishNFT");
    reveal_strlit("SellOrder");
    assert("Prepare"@.len() == 7 && "PublishNFT"@.len() == 10 && "SellOrder"@.len() == 9);
}

/// One submitted piece of content awaiting or having undergone issuance.
#[derive(Debug)]
pub struct Work {
    pub id: String,
    pub video_path: String,
    pub status: WorkStatus,
}

/// The mathematical shape of a work.
pub struct WorkModel {
    pub id: Seq<char>,
    pub video_path: Seq<char>,
    pub status: WorkStatus,
}

impl Work {
    /// The work as a mathematical value.
    pub open spec fn model(self) -> WorkModel {
        WorkModel { id: self.id@, video_path: self.video_path@, status: self.status }
    }

    /// Advances the lifecycle. Only the transitions of the graph are
    /// accepted; an illegal one is a `BadRequest` and changes nothing.
    pub fn update_status(&mut self, status: WorkStatus) -> (r: AppResult<()>)
        ensures
            r is Ok <==> old(self).status.can_transition(status),
            r is Ok ==> final(self).status == status && final(self).id == old(self).id
                && final(self).video_path == old(self).video_path,
            r matches Err(e) ==> *final(self) == *old(self) && e is BadRequest,
    {
        let legal = match (&self.status, &status) {
            (WorkStatus::Prepare, WorkStatus::PublishNFT) => true,
            (WorkStatus::PublishNFT, WorkStatus::SellOrder) => true,
            _ => false,
        };
        if legal {
            self.status = status;
            Ok(())
        } else {
            Err(AppError::BadRequest(String::from_str("illegal status transition")))
        }
    }
}

impl Clone for Work {
    fn clone(&self) -> (r: Self)
        ensures
            r == *self,
    {
        Work { id: self.id.clone(), video_path: self.video_path.clone(), status: self.status }
    }
}

/// A rendering owned by exactly one work; `order` fixes display sequence.
#[derive(Debug)]
pub struct Thumbnail {
    pub id: String,
    pub work_id: String,
    pub image_path: String,
    pub order: i32,
}

/// The mathematical shape of a thumbnail.
pub struct ThumbnailModel {
    pub id: Seq<char>,
    pub work_id: Seq<char>,
    pub image_path: Seq<char>,
    pub order: i32,
}

impl Thumbnail {
    /// The thumbnail as a mathematical value.
    pub open spec fn model(self) -> ThumbnailModel {
        ThumbnailModel {
            id: self.id@,
            work_id: self.work_id@,
            image_path: self.image_path@,
            order: self.order,
        }
    }
}

impl Clone for Thumbnail {
    fn clone(&self) -> (r: Self)
        ensures
            r == *self,
    {
        Thumbnail {
            id: self.id.clone(),
            work_id: self.work_id.clone(),
            image_path: self.image_path.clone(),
            order: self.order,
        }
    }
}

} // verus!

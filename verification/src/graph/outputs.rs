//! The output shapes of the API schema: thin views over the domain types,
//! with one getter per schema field.

use crate::domain;
use crate::graph::WorkStatus;
use vstd::prelude::*;

verus! {

pub struct PreSignUploadUrl {
    pub url: String,
    pub file_name: String,
}

pub struct OwnNft {
    pub erc721: bool,
    pub erc1155: bool,
}

/// A minted token as the schema exposes it.
pub struct NFT {
    pub data: domain::nft::NFT,
}

impl NFT {
    pub fn from(data: domain::nft::NFT) -> (r: Self)
        ensures
            r.data == data,
    {
        Self { data }
    }

    pub fn work_id(&self) -> (r: String)
        ensures
            r == self.data.work_id,
    {
        self.data.work_id.clone()
    }

    pub fn address(&self) -> (r: String)
        ensures
            r == self.data.address,
    {
        self.data.address.clone()
    }

    pub fn token_id(&self) -> (r: String)
        ensures
            r == self.data.token_id,
    {
        self.data.token_id.clone()
    }

    pub fn name(&self) -> (r: String)
        ensures
            r == self.data.name,
    {
        self.data.name.clone()
    }

    pub fn description(&self) -> (r: String)
        ensures
            r == self.data.description,
    {
        self.data.description.clone()
    }

    pub fn image_url(&self) -> (r: String)
        ensures
            r == self.data.image_url,
    {
        self.data.image_url.clone()
    }

    pub fn image_preview_url(&self) -> (r: String)
        ensures
            r == self.data.image_preview_url,
    {
        self.data.image_preview_url.clone()
    }

    pub fn permalink(&self) -> (r: String)
        ensures
            r == self.data.permalink,
    {
        self.data.permalink.clone()
    }
}

/// A registered user with ledger balances, as the schema exposes it.
pub struct User {
    pub data: domain::user::UserWithBalance,
}

impl User {
    pub fn from(data: domain::user::UserWithBalance) -> (r: Self)
        ensures
            r.data == data,
    {
        Self { data }
    }

    pub fn id(&self) -> (r: String)
        ensures
            r == self.data.id,
    {
        self.data.id.clone()
    }

    pub fn wallet_address(&self) -> (r: String)
        ensures
            r == self.data.wallet_address,
    {
        self.data.wallet_address.clone()
    }

    /// The token count as the schema's 32-bit integer; a count too large
    /// for it reads as zero.
    pub fn nft_721_num(&self) -> (r: i32)
        ensures
            r == (if self.data.nft_721_num <= i32::MAX as u128 {
                self.data.nft_721_num as i32
            } else {
                0
            }),
    {
        if self.data.nft_721_num <= i32::MAX as u128 {
            self.data.nft_721_num as i32
        } else {
            0
        }
    }

    /// The per-work balances as the schema's list; a balance too large for
    /// its 32-bit integer reads as zero.
    pub fn nft_1155_num(&self) -> (r: Vec<Nft1155Balance>)
        ensures
            r@.len() == self.data.nft_1155_num@.len(),
            forall|i: int|
                0 <= i < r@.len() ==> (#[trigger] r@[i]).work_id == self.data.nft_1155_num@[i].0
                    && r@[i].balance == (if self.data.nft_1155_num@[i].1 <= i32::MAX as u128 {
                    self.data.nft_1155_num@[i].1 as i32
                } else {
                    0
                }),
    {
        let mut r: Vec<Nft1155Balance> = Vec::new();
        let mut i: usize = 0;
        while i < self.data.nft_1155_num.len()
            invariant
                i <= self.data.nft_1155_num@.len(),
                r@.len() == i,
                forall|j: int|
                    0 <= j < i ==> (#[trigger] r@[j]).work_id == self.data.nft_1155_num@[j].0
                        && r@[j].balance == (if self.data.nft_1155_num@[j].1 <= i32::MAX as u128 {
                        self.data.nft_1155_num@[j].1 as i32
                    } else {
                        0
                    }),
            decreases self.data.nft_1155_num@.len() - i,
        {
            let (work_id, balance) = &self.data.nft_1155_num[i];
            let b: i32 = if *balance <= i32::MAX as u128 {
                *balance as i32
            } else {
                0
            };
            r.push(Nft1155Balance { work_id: work_id.clone(), balance: b });
            i = i + 1;
        }
        r
    }
}

pub struct Nft1155Balance {
    pub work_id: String,
    pub balance: i32,
}

/// A work as the schema exposes it.
pub struct Work {
    pub data: domain::work::Work,
}

impl Work {
    pub fn from(data: domain::work::Work) -> (r: Self)
        ensures
            r.data == data,
    {
        Self { data }
    }

    pub fn id(&self) -> (r: String)
        ensures
            r == self.data.id,
    {
        self.data.id.clone()
    }

    pub fn video_path(&self) -> (r: String)
        ensures
            r == self.data.video_path,
    {
        self.data.video_path.clone()
    }

    pub fn status(&self) -> (r: WorkStatus)
        ensures
            r.domain_spec() == self.data.status,
    {
        WorkStatus::from(self.data.status)
    }
}

/// One edge of a paged work listing.
pub struct WorkEdge {
    pub node: Work,
}

impl WorkEdge {
    pub fn node(&self) -> (r: Work)
        ensures
            r.data == self.node.data,
    {
        Work { data: self.node.data.clone() }
    }
}

/// A page of works with the continuation token for the next page.
pub struct WorkConnection {
    pub edges: Vec<WorkEdge>,
    pub next_key: Option<String>,
    pub total_count: Option<i32>,
}

impl WorkConnection {
    pub fn edges(&self) -> (r: Vec<WorkEdge>)
        ensures
            r@.len() == self.edges@.len(),
            forall|i: int|
                0 <= i < r@.len() ==> (#[trigger] r@[i]).node.data == self.edges@[i].node.data,
    {
        let mut r: Vec<WorkEdge> = Vec::new();
        let mut i: usize = 0;
        while i < self.edges.len()
            invariant
                i <= self.edges@.len(),
                r@.len() == i,
                forall|j: int|
                    0 <= j < i ==> (#[trigger] r@[j]).node.data == self.edges@[j].node.data,
            decreases self.edges@.len() - i,
        {
            r.push(WorkEdge { node: Work { data: self.edges[i].node.data.clone() } });
            i = i + 1;
        }
        r
    }

    pub fn next_key(&self) -> (r: Option<String>)
        ensures
            r == self.next_key,
    {
        match &self.next_key {
            Some(k) => Some(k.clone()),
            None => None,
        }
    }

    pub fn total_count(&self) -> (r: Option<i32>)
        ensures
            r == self.total_count,
    {
        self.total_count
    }
}

/// A thumbnail as the schema exposes it.
pub struct Thumbnail {
    pub data: domain::work::Thumbnail,
}

impl Thumbnail {
    pub fn from(data: domain::work::Thumbnail) -> (r: Self)
        ensures
            r.data == data,
    {
        Self { data }
    }

    pub fn id(&self) -> (r: String)
        ensures
            r == self.data.id,
    {
        self.data.id.clone()
    }

    pub fn image_path(&self) -> (r: String)
        ensures
            r == self.data.image_path,
    {
        self.data.image_path.clone()
    }

    pub fn order(&self) -> (r: i32)
        ensures
            r == self.data.order,
    {
        self.data.order
    }
}

} // verus!

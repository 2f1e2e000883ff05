//! Asset rows: the on-chain representation of a work once minted. The two
//! token standards share one row schema and live in two tables of it; prices
//! are carried as the store's native decimal spellings.

use vstd::prelude::*;
use vstd::string::StringExecFns;

verus! {

/// An asset row, keyed by its work. Before the mint is confirmed the row is
/// a placeholder with empty ledger fields; publication fills them in.
#[derive(Debug)]
pub struct Asset {
    pub work_id: String,
    pub contract_address: String,
    pub token_id: String,
    pub name: String,
    pub description: String,
    pub image_url: String,
    pub image_preview_url: String,
    pub permalink: String,
    pub usd_price: String,
    pub eth_price: String,
}

/// The asset row of the ERC-721 table.
pub type Asset721 = Asset;

/// The asset row of the ERC-1155 table.
pub type Asset1155 = Asset;

/// The mathematical shape of an asset row.
pub struct AssetModel {
    pub work_id: Seq<char>,
    pub contract_address: Seq<char>,
    pub token_id: Seq<char>,
    pub name: Seq<char>,
    pub description: Seq<char>,
    pub image_url: Seq<char>,
    pub image_preview_url: Seq<char>,
    pub permalink: Seq<char>,
    pub usd_price: Seq<char>,
    pub eth_price: Seq<char>,
}

impl Asset {
    /// The row as a mathematical value.
    pub open spec fn model(self) -> AssetModel {
        AssetModel {
            work_id: self.work_id@,
            contract_address: self.contract_address@,
            token_id: self.token_id@,
            name: self.name@,
            description: self.description@,
            image_url: self.image_url@,
            image_preview_url: self.image_preview_url@,
            permalink: self.permalink@,
            usd_price: self.usd_price@,
            eth_price: self.eth_price@,
        }
    }

    /// A placeholder row: it exists, but carries no ledger-derived fields
    /// yet.
    pub open spec fn is_placeholder(self) -> bool {
        self.model() == placeholder_model(self.work_id@)
    }

    /// The placeholder row written at publish-prepare time.
    pub fn new(work_id: String) -> (r: Self)
        ensures
            r.model() == placeholder_model(work_id@),
    {
        Self {
            work_id,
            contract_address: String::new(),
            token_id: String::new(),
            name: String::new(),
            description: String::new(),
            image_url: String::new(),
            image_preview_url: String::new(),
            permalink: String::new(),
            usd_price: String::from_str("0"),
            eth_price: String::from_str("0"),
        }
    }

    /// Fills in the ledger-confirmed fields once the mint is confirmed.
    pub fn published(
        &mut self,
        contract_address: String,
        token_id: String,
        name: String,
        description: String,
        image_url: String,
        image_preview_url: String,
        permalink: String,
    )
        ensures
            final(self).model() == (AssetModel {
                work_id: old(self).model().work_id,
                contract_address: contract_address@,
                token_id: token_id@,
                name: name@,
                description: description@,
                image_url: image_url@,
                image_preview_url: image_preview_url@,
                permalink: permalink@,
                usd_price: old(self).model().usd_price,
                eth_price: old(self).model().eth_price,
            }),
    {
        self.contract_address = contract_address;
        self.token_id = token_id;
        self.name = name;
        self.description = description;
        self.image_url = image_url;
        self.image_preview_url = image_preview_url;
        self.permalink = permalink;
    }
}

/// The model of a fresh placeholder row.
pub open spec fn placeholder_model(work_id: Seq<char>) -> AssetModel {
    AssetModel {
        work_id,
        contract_address: Seq::empty(),
        token_id: Seq::empty(),
        name: Seq::empty(),
        description: Seq::empty(),
        image_url: Seq::empty(),
        image_preview_url: Seq::empty(),
        permalink: Seq::empty(),
        usd_price: "0"@,
        eth_price: "0"@,
    }
}

impl Clone for Asset {
    fn clone(&self) -> (r: Self)
        ensures
            r == *self,
    {
        Asset {
            work_id: self.work_id.clone(),
            contract_address: self.contract_address.clone(),
            token_id: self.token_id.clone(),
            name: self.name.clone(),
            description: self.description.clone(),
            image_url: self.image_url.clone(),
            image_preview_url: self.image_preview_url.clone(),
            permalink: self.permalink.clone(),
            usd_price: self.usd_price.clone(),
            eth_price: self.eth_price.clone(),
        }
    }
}

} // verus!

//! The single-standard asset row used by deployments with one token
//! contract.

use vstd::prelude::*;

verus! {

/// The on-chain representation of a work, with prices carried as the
/// store's native decimal spellings.
pub struct NFT {
    pub work_id: String,
    pub address: String,
    pub token_id: String,
    pub name: String,
    pub description: String,
    pub image_url: String,
    pub image_preview_url: String,
    pub permalink: String,
    pub usd_price: String,
    pub eth_price: String,
}

impl Clone for NFT {
    fn clone(&self) -> (r: Self)
        ensures
            r == *self,
    {
        NFT {
            work_id: self.work_id.clone(),
            address: self.address.clone(),
            token_id: self.token_id.clone(),
            name: self.name.clone(),
            description: self.description.clone(),
            image_url: self.image_url.clone(),
            image_preview_url: self.image_preview_url.clone(),
            permalink: self.permalink.clone(),
            usd_price: self.usd_price.clone(),
            eth_price: self.eth_price.clone(),
        }
    }
}

} // verus!

//! The data shapes of the marketplace-SDK call that runs out of process:
//! the payload a request carries and the outcome it reports. The transport
//! around them — serialization and the function invocation — is the API
//! layer's; the shapes and the outcome check are decided here.

use crate::errors::{AppError, AppResult};
use vstd::prelude::*;
use vstd::string::StringExecFns;

verus! {

pub struct BuyPayload {
    pub token_address: String,
    pub token_id: String,
}

pub struct TransferPayload {
    pub token_address: String,
    pub token_id: String,
    pub schema_name: String,
    pub transfer_address: String,
    pub quantity: i32,
}

impl TransferPayload {
    /// A single-token ERC-721 transfer.
    pub fn erc721(token_address: String, token_id: String, to_address: String) -> (r: Self)
        ensures
            r.token_address == token_address,
            r.token_id == token_id,
            r.schema_name@ == "ERC721"@,
            r.transfer_address == to_address,
            r.quantity == 1,
    {
        Self {
            token_address,
            token_id,
            schema_name: String::from_str("ERC721"),
            transfer_address: to_address,
            quantity: 1,
        }
    }

    /// A single-token ERC-1155 transfer.
    pub fn erc1155(token_address: String, token_id: String, to_address: String) -> (r: Self)
        ensures
            r.token_address == token_address,
            r.token_id == token_id,
            r.schema_name@ == "ERC1155"@,
            r.transfer_address == to_address,
            r.quantity == 1,
    {
        Self {
            token_address,
            token_id,
            schema_name: String::from_str("ERC1155"),
            transfer_address: to_address,
            quantity: 1,
        }
    }
}

pub struct CreateMetadataPayload {
    pub name: String,
    pub description: String,
    pub external_url: String,
    pub image_base64: String,
}

/// What the SDK call reports back: a result flag, a message, and for
/// metadata creation the published document's location.
#[derive(Debug)]
pub struct Output {
    pub message: String,
    pub result: i32,
    pub ipfs_response: Option<OutputIPFS>,
}

#[derive(Debug)]
pub struct OutputIPFS {
    pub hash: String,
    pub url: String,
}

impl Output {
    /// A non-zero result flag is the call's own failure report and becomes
    /// an `Internal` error carrying its message.
    pub fn into_result(self) -> (r: AppResult<Output>)
        ensures
            r is Ok <==> self.result == 0,
            r matches Ok(o) ==> o == self,
            r matches Err(e) ==> e matches AppError::Internal(m) && m == self.message,
    {
        if self.result != 0 {
            Err(AppError::Internal(self.message))
        } else {
            Ok(self)
        }
    }
}

} // verus!

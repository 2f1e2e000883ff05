//! The input shapes of the API schema. The sell inputs carry a floating
//! price and live with the API layer instead.

use vstd::prelude::*;

verus! {

pub struct RegisterUserInput {
    pub email: String,
    pub password: String,
    pub wallet_address: String,
    pub wallet_secret: String,
}

pub struct ImportWorkInput {
    pub file_name: String,
}

pub struct ImportThumbnailInput {
    pub file_name: String,
}

pub struct CreateERC721Input {
    pub work_id: String,
    pub gs_path: String,
}

pub struct CreateERC1155Input {
    pub work_id: String,
    pub gs_path: String,
    pub amount: i32,
}

pub struct TransferERC721Input {
    pub work_id: String,
    pub to_address: String,
}

pub struct TransferERC1155Input {
    pub work_id: String,
    pub to_address: String,
    pub amount: i32,
}

} // verus!

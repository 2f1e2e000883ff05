//! Users and the authenticated caller.

use crate::errors::{AppError, AppResult};
use vstd::prelude::*;
use vstd::string::StringExecFns;

verus! {

/// Who a request comes from: the system itself, a publishing user, or
/// somebody unrecognized.
#[derive(Debug)]
pub enum AuthUser {
    System,
    Publisher(String),
    Unknown,
}

impl AuthUser {
    /// The publisher's user id; other callers have none.
    pub fn user_id(&self) -> (r: Option<String>)
        ensures
            match *self {
                AuthUser::Publisher(id) => r matches Some(v) && v == id,
                _ => r is None,
            },
    {
        match self {
            AuthUser::Publisher(id) => Some(id.clone()),
            _ => None,
        }
    }

    pub fn is_system(&self) -> (r: bool)
        ensures
            r == (*self is System),
    {
        match self {
            AuthUser::System => true,
            _ => false,
        }
    }

    pub fn is_publisher(&self) -> (r: bool)
        ensures
            r == (*self is Publisher),
    {
        match self {
            AuthUser::Publisher(_id) => true,
            _ => false,
        }
    }
}

/// Who a verified bearer token speaks for: a publisher-typed account is
/// its subject; a missing subject or account type cannot be authenticated;
/// any other account type is recognized but unknown.
pub fn auth_user_from_claims(sub: Option<String>, account_type: Option<String>) -> (r: AppResult<
    AuthUser,
>)
    ensures
        r is Ok <==> sub is Some && account_type is Some,
        r matches Ok(u) ==> (if account_type->0@ == "0"@ {
            u matches AuthUser::Publisher(id) && id == sub->0
        } else {
            u is Unknown
        }),
        r matches Err(e) ==> e is UnAuthenticate,
{
    let sub = match sub {
        Some(s) => s,
        None => {
            return Err(AppError::UnAuthenticate);
        },
    };
    let account_type = match account_type {
        Some(t) => t,
        None => {
            return Err(AppError::UnAuthenticate);
        },
    };
    if account_type == String::from_str("0") {
        Ok(AuthUser::Publisher(sub))
    } else {
        Ok(AuthUser::Unknown)
    }
}

/// A registered user and the wallet that signs their mints.
pub struct User {
    pub id: String,
    pub wallet_address: String,
    pub wallet_secret: String,
}

impl User {
    pub fn new(id: String, address: String, secret: String) -> (r: Self)
        ensures
            r.id == id,
            r.wallet_address == address,
            r.wallet_secret == secret,
    {
        Self { id, wallet_address: address, wallet_secret: secret }
    }

    /// Pairs the user with the balances the ledger reports for them. Unit
    /// conversion for display is left to the caller.
    pub fn with_balance(
        &self,
        balance: u128,
        nft_721_num: u128,
        nft_1155_num: Vec<(String, u128)>,
    ) -> (r: UserWithBalance)
        ensures
            r.id == self.id,
            r.wallet_address == self.wallet_address,
            r.balance_wei == balance,
            r.nft_721_num == nft_721_num,
            r.nft_1155_num == nft_1155_num,
    {
        UserWithBalance {
            id: self.id.clone(),
            wallet_address: self.wallet_address.clone(),
            balance_wei: balance,
            nft_721_num,
            nft_1155_num,
        }
    }
}

impl Clone for User {
    fn clone(&self) -> (r: Self)
        ensures
            r == *self,
    {
        User {
            id: self.id.clone(),
            wallet_address: self.wallet_address.clone(),
            wallet_secret: self.wallet_secret.clone(),
        }
    }
}

/// A user together with their ledger balances, in wei and token counts.
pub struct UserWithBalance {
    pub id: String,
    pub wallet_address: String,
    pub balance_wei: u128,
    pub nft_721_num: u128,
    pub nft_1155_num: Vec<(String, u128)>,
}

} // verus!

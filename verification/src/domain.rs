//! The domain model: works, thumbnails, assets, users, and the lifecycle
//! state machine that guards a work's way from `Prepare` through publication
//! to listing.

pub mod asset;
pub mod nft;
pub mod user;
pub mod work;

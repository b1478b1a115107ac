//! Ledger logic for a token lending pool and a reputation NFT.
//!
//! Every operation is a deterministic transition over a plain-value state.
//! What the host contributes (who signed the call, the pool's live token
//! balance, the invoking account) is handed in as an argument, and the token
//! movement an operation asks for is handed back as a [`pool::Transfer`].
pub mod account;
pub mod store;
pub mod pool;
pub mod nft;

pub use account::{is_authorized, AccountId};
pub use nft::{NftError, RemittanceMetadata, RemittanceNFT};
pub use pool::{LendingPool, PoolError, Transfer};
pub use store::AccountMap;

//! Tokenised signing keys: who may ask the key-custody service for a
//! signature, and how that right is delegated and withdrawn.

pub mod calls;
pub mod contract;
pub mod entries;
pub mod error;
pub mod key_data;
pub mod laws;
pub mod model;
pub mod near;
pub mod oracle;
pub mod token_id;
pub mod utils;

pub use contract::NftKeyContract;
pub use error::Error;
pub use key_data::KeyData;
pub use oracle::Contract;
pub use utils::assert_gt_one_yocto_near;

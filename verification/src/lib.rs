//! Asset lookup, location grouping, relay selection and search-result handling
//! for a cross-chain arbitrage finder.

pub mod asset;
pub mod constants;
pub mod decimal;
pub mod json;
pub mod path;
pub mod relay;
pub mod result_logger;
pub mod text;

pub use asset::{get_asset_key, get_asset_by_asset_key, get_assets_at_location, AssetLocation, MyAsset, TokenData};
pub use constants::{KUSAMA_START_NODE, POLKADOT_START_NODE};
pub use path::{return_path_nodes, IsolatedSearchResult, PathNode};
pub use relay::Relay;
pub use result_logger::ResultLogger;

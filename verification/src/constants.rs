use vstd::prelude::*;

verus! {

pub const ASSET_REGISTRY_FOLDER: &'static str =
    "C:/Users/dazzl/CodingProjects/substrate/polkadot_asset_registry/asset_registry/";

pub const ASSET_IGNORE_LIST: &'static str =
    "C:/Users/dazzl/CodingProjects/substrate/polkadot_asset_registry/asset_registry/ignore_list.json";

pub const LP_REGISTRY_FOLDER: &'static str =
    "C:/Users/dazzl/CodingProjects/substrate/polkadot_asset_registry/lp_registry/";

pub const XCM_FEE_BOOK: &'static str =
    "C:/Users/dazzl/CodingProjects/substrate/xcm-test/data/newEventFeeBook.json";

pub const ALL_POLKADOT_ASSETS: &'static str = "allAssetsPolkadotCollected.json";

pub const ALL_KUSAMA_ASSETS: &'static str = "allAssetsKusamaCollected.json";

pub const KUSAMA_ASSET_CHAINS: [&'static str; 8] = [
    "aca",
    "bnc_polkadot",
    "glmr",
    "hdx",
    "para",
    "other_polkadot",
    "glmr_evm",
    "asset_hub_polkadot",
];

pub const POLKADOT_ASSET_CHAINS: [&'static str; 8] = [
    "aca",
    "bnc_polkadot",
    "glmr",
    "hdx",
    "para",
    "other_polkadot",
    "glmr_evm",
    "asset_hub_polkadot",
];

/// The Acala DOT node that Polkadot searches start from.
pub const POLKADOT_START_NODE: &'static str = "2000{\"NativeAssetId\":{\"Token\":\"DOT\"}}";

/// The Karura KSM node that Kusama searches start from.
pub const KUSAMA_START_NODE: &'static str = "2000{\"NativeAssetId\":{\"Token\":\"KSM\"}}";

pub const MOONBEAM_IGNORE_LIST: [&'static str; 1] = ["0x54184eabc2a13830931601cc31c391c119784e3d"];

} // verus!

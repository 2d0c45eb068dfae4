use arb_handler::asset::{
    all_assets_file_location, build_asset_registry, get_asset_by_asset_key,
    get_asset_by_chain_and_id, get_asset_key, get_assets_at_location, get_xcm_assets,
    location_is_known, location_is_readable, parse_asset_location, position_of_asset_key, position_of_chain_asset,
    registry_locations_are_known, same_location, try_get_asset_by_asset_key,
    try_get_asset_by_chain_and_id, try_get_assets_at_location, try_get_xcm_assets,
    AssetLocation, CexAssetData, ChainAssetData, MyAsset, TokenData,
};
use arb_handler::constants::{KUSAMA_START_NODE, POLKADOT_START_NODE};
use arb_handler::decimal::{compare_decimals, is_decimal_text, DecimalOrder};
use arb_handler::json::{JsonMember, JsonValue};
use arb_handler::path::{
    highest_search_result, return_path_nodes, select_start_nodes, try_highest_search_result,
    GraphNode, IsolatedSearchResult, PathNode,
};
use arb_handler::relay::{parse_relay, relay_from_lowercase, start_node_key, Relay};
use arb_handler::result_logger::ResultLogger;
use arb_handler::text::{decimal_string, str_eq};
use bigdecimal::BigDecimal;

fn s(text: &str) -> String {
    text.to_string()
}

fn object(members: Vec<(&str, JsonValue)>, text: &str) -> JsonValue {
    JsonValue::Object(
        members.into_iter().map(|(k, v)| JsonMember { key: s(k), value: v }).collect(),
        s(text),
    )
}

fn chain_asset(name: &str, chain: u64, local_id: &str, location: Option<JsonValue>) -> MyAsset {
    MyAsset {
        token_data: TokenData::MyAsset(ChainAssetData { name: s(name), chain, local_id: s(local_id) }),
        has_location: location.is_some(),
        token_location: location,
    }
}

fn cex_asset(name: &str, exchange: &str, ticker: &str) -> MyAsset {
    MyAsset {
        token_data: TokenData::CexAsset(CexAssetData {
            name: s(name),
            exchange: s(exchange),
            asset_ticker: s(ticker),
        }),
        has_location: false,
        token_location: None,
    }
}

fn dot_location() -> JsonValue {
    object(vec![("here", JsonValue::Str(s("Here")))], "{\"here\":\"Here\"}")
}

fn parachain_location(para: &str) -> JsonValue {
    let junction_text = format!("{{\"parachain\":{}}}", para);
    object(
        vec![(
            "x1",
            object(vec![("parachain", JsonValue::Number(s(para)))], &junction_text),
        )],
        &format!("{{\"x1\":{}}}", junction_text),
    )
}

fn name_of(asset: &MyAsset) -> String {
    match &asset.token_data {
        TokenData::MyAsset(d) => d.name.clone(),
        TokenData::CexAsset(d) => d.name.clone(),
    }
}

fn sample_registry() -> Vec<MyAsset> {
    vec![
        chain_asset("DOT", 2000, "{\"NativeAssetId\":{\"Token\":\"DOT\"}}", Some(JsonValue::Str(s("here")))),
        chain_asset("ACA", 2000, "{\"NativeAssetId\":{\"Token\":\"ACA\"}}", Some(parachain_location("2000"))),
        cex_asset("DOT", "binance", "DOT"),
        chain_asset("DOT", 2034, "\"5\"", Some(JsonValue::Str(s("here")))),
        chain_asset("USDT", 2034, "\"10\"", None),
        chain_asset("DOT", 2030, "{\"Token2\":\"0\"}", Some(JsonValue::Str(s("here")))),
    ]
}

fn path_node(key: &str, value: &str) -> PathNode {
    PathNode {
        node_key: s(key),
        asset_name: s("X"),
        path_value: s(value),
        path_type: s("Dex"),
        path_data: s("{}"),
    }
}

fn search_result(display: &str, final_value: &str) -> IsolatedSearchResult {
    IsolatedSearchResult {
        input_amount: BigDecimal::from(1),
        display_string: s(display),
        path_nodes: vec![path_node("a", "1"), path_node("b", final_value)],
    }
}

#[test]
fn relay_names_parse_in_any_case() {
    assert_eq!(parse_relay("polkadot"), Some(Relay::Polkadot));
    assert_eq!(parse_relay("Polkadot"), Some(Relay::Polkadot));
    assert_eq!(parse_relay("KUSAMA"), Some(Relay::Kusama));
    assert_eq!(parse_relay("kusama"), Some(Relay::Kusama));
    assert_eq!(parse_relay("westend"), None);
    assert_eq!(parse_relay(""), None);
    assert_eq!(parse_relay(" polkadot"), None);
}

#[test]
fn relay_parse_uses_unicode_lowercase() {
    // The Kelvin sign lowercases to an ASCII `k`.
    assert_eq!(parse_relay("\u{212A}usama"), Some(Relay::Kusama));
    assert_eq!(relay_from_lowercase("\u{212A}usama"), None);
}

#[test]
fn relay_from_str_reads_names() {
    assert_eq!(Relay::from_str("PolKaDot"), Relay::Polkadot);
    assert_eq!(Relay::from_str("Kusama"), Relay::Kusama);
}

#[test]
fn relay_debug_name_reads_back() {
    for relay in [Relay::Polkadot, Relay::Kusama] {
        assert_eq!(Relay::from_str(&format!("{:?}", relay)), relay);
    }
    assert_eq!(Relay::from_str("polkadot"), Relay::Polkadot);
    assert_eq!(Relay::from_str("KuSaMa"), Relay::Kusama);
}

#[test]
fn relay_from_lowercase_is_exact() {
    assert_eq!(relay_from_lowercase("polkadot"), Some(Relay::Polkadot));
    assert_eq!(relay_from_lowercase("kusama"), Some(Relay::Kusama));
    assert_eq!(relay_from_lowercase("Kusama"), None);
}

#[test]
fn relay_name_round_trip() {
    for relay in [Relay::Polkadot, Relay::Kusama] {
        assert_eq!(parse_relay(relay.name()), Some(relay));
        assert_eq!(Relay::from_str(relay.name()), relay);
    }
    assert_eq!(Relay::Polkadot.name(), "polkadot");
    assert_eq!(Relay::Kusama.name(), "kusama");
}

#[test]
fn start_nodes_per_relay() {
    assert_eq!(start_node_key(Relay::Polkadot), POLKADOT_START_NODE);
    assert_eq!(start_node_key(Relay::Kusama), KUSAMA_START_NODE);
    assert_eq!(start_node_key(Relay::Polkadot), "2000{\"NativeAssetId\":{\"Token\":\"DOT\"}}");
}

#[test]
fn decimal_rendering() {
    assert_eq!(decimal_string(0), "0");
    assert_eq!(decimal_string(7), "7");
    assert_eq!(decimal_string(10), "10");
    assert_eq!(decimal_string(2000), "2000");
    assert_eq!(decimal_string(u64::MAX), u64::MAX.to_string());
}

#[test]
fn text_equality() {
    assert!(str_eq("abc", "abc"));
    assert!(!str_eq("abc", "abd"));
    assert!(!str_eq("abc", "ab"));
    assert!(str_eq("", ""));
}

#[test]
fn asset_key_of_chain_asset() {
    let asset = chain_asset("DOT", 2000, "{\"NativeAssetId\":{\"Token\":\"DOT\"}}", None);
    assert_eq!(get_asset_key(asset), POLKADOT_START_NODE);
    let asset = chain_asset("KINT", 2110, "\"26\"", None);
    assert_eq!(get_asset_key(asset), "2110\"26\"");
}

#[test]
fn asset_key_of_cex_asset() {
    assert_eq!(get_asset_key(cex_asset("DOT", "binance", "DOT")), "binanceDOT");
}

#[test]
fn asset_by_key_finds_first_match() {
    let registry = sample_registry();
    assert_eq!(position_of_asset_key("2034\"5\"", &registry), Some(3));
    assert_eq!(position_of_asset_key("2034\"6\"", &registry), None);
    let found = get_asset_by_asset_key(s("2034\"5\""), sample_registry());
    assert_eq!(name_of(&found), "DOT");
    assert_eq!(get_asset_key(found), "2034\"5\"");
}

#[test]
fn asset_by_key_prefers_first_of_duplicates() {
    let mut registry = sample_registry();
    registry.push(chain_asset("DOT-copy", 2034, "\"5\"", None));
    let found = get_asset_by_asset_key(s("2034\"5\""), registry);
    assert_eq!(name_of(&found), "DOT");
}

#[test]
fn try_asset_by_key() {
    assert!(try_get_asset_by_asset_key(s("nope"), sample_registry()).is_none());
    let found = try_get_asset_by_asset_key(s("binanceDOT"), sample_registry()).unwrap();
    assert!(matches!(found.token_data, TokenData::CexAsset(_)));
}

#[test]
fn location_of_string_is_here() {
    let asset = chain_asset("DOT", 0, "\"DOT\"", Some(JsonValue::Str(s("here"))));
    let location = parse_asset_location(&asset).unwrap();
    assert!(location.here);
    assert_eq!(location.xtype, None);
    assert_eq!(location.properties, None);
}

#[test]
fn location_of_single_junction() {
    let asset = chain_asset("ACA", 2000, "\"ACA\"", Some(parachain_location("2000")));
    let location = parse_asset_location(&asset).unwrap();
    assert_eq!(
        location,
        AssetLocation {
            here: false,
            xtype: Some(s("x1")),
            properties: Some(vec![s("{\"parachain\":2000}")]),
        }
    );
}

#[test]
fn location_of_junction_list() {
    let junctions = JsonValue::Array(vec![
        object(vec![("parachain", JsonValue::Number(s("1000")))], "{\"parachain\":1000}"),
        object(vec![("palletInstance", JsonValue::Number(s("50")))], "{\"palletInstance\":50}"),
    ]);
    let location_value = object(vec![("x2", junctions)], "{\"x2\":[...]}");
    let asset = chain_asset("USDT", 1000, "\"1984\"", Some(location_value));
    let location = parse_asset_location(&asset).unwrap();
    assert!(!location.here);
    assert_eq!(location.xtype, Some(s("x2")));
    assert_eq!(
        location.properties,
        Some(vec![s("{\"parachain\":1000}"), s("{\"palletInstance\":50}")])
    );
}

#[test]
fn location_of_other_values_is_none() {
    assert!(parse_asset_location(&chain_asset("A", 1, "1", None)).is_none());
    let asset = chain_asset("A", 1, "1", Some(JsonValue::Number(s("3"))));
    assert!(parse_asset_location(&asset).is_none());
    let asset = chain_asset("A", 1, "1", Some(JsonValue::Null));
    assert!(parse_asset_location(&asset).is_none());
    let asset = chain_asset("A", 1, "1", Some(JsonValue::Array(vec![])));
    assert!(parse_asset_location(&asset).is_none());
}

#[test]
fn location_readability() {
    assert!(location_is_known(&chain_asset("A", 1, "1", Some(JsonValue::Str(s("x"))))));
    assert!(!location_is_known(&chain_asset("A", 1, "1", None)));
    let empty = object(vec![], "{}");
    assert!(!location_is_known(&chain_asset("A", 1, "1", Some(empty))));
    let bad = object(vec![("x1", JsonValue::Number(s("1")))], "{\"x1\":1}");
    assert!(!location_is_known(&chain_asset("A", 1, "1", Some(bad))));
    let bad_list = object(
        vec![("x2", JsonValue::Array(vec![JsonValue::Number(s("1"))]))],
        "{\"x2\":[1]}",
    );
    assert!(!location_is_known(&chain_asset("A", 1, "1", Some(bad_list))));
}

#[test]
fn location_field_readability() {
    assert!(location_is_readable(&chain_asset("A", 1, "1", None)));
    assert!(location_is_readable(&chain_asset("A", 1, "1", Some(JsonValue::Number(s("3"))))));
    assert!(location_is_readable(&chain_asset("A", 1, "1", Some(parachain_location("7")))));
    assert!(!location_is_readable(&chain_asset("A", 1, "1", Some(object(vec![], "{}")))));
    let bad = object(vec![("x1", JsonValue::Str(s("p")))], "{\"x1\":\"p\"}");
    assert!(!location_is_readable(&chain_asset("A", 1, "1", Some(bad))));
}

#[test]
fn location_equality() {
    let a = parse_asset_location(&chain_asset("A", 1, "1", Some(parachain_location("2000")))).unwrap();
    let b = parse_asset_location(&chain_asset("B", 2, "2", Some(parachain_location("2000")))).unwrap();
    let c = parse_asset_location(&chain_asset("C", 3, "3", Some(parachain_location("2001")))).unwrap();
    let d = parse_asset_location(&chain_asset("D", 4, "4", Some(JsonValue::Str(s("here"))))).unwrap();
    assert!(same_location(&a, &b));
    assert!(!same_location(&a, &c));
    assert!(!same_location(&a, &d));
    assert!(same_location(&d, &d));
}

#[test]
fn assets_at_location_in_registry_order() {
    let asset = chain_asset("DOT", 2000, "{\"NativeAssetId\":{\"Token\":\"DOT\"}}", Some(JsonValue::Str(s("here"))));
    let group = get_assets_at_location(asset, sample_registry());
    let keys: Vec<String> = group.into_iter().map(get_asset_key).collect();
    assert_eq!(
        keys,
        vec![
            s("2000{\"NativeAssetId\":{\"Token\":\"DOT\"}}"),
            s("2034\"5\""),
            s("2030{\"Token2\":\"0\"}"),
        ]
    );
}

#[test]
fn assets_at_parachain_location() {
    let asset = chain_asset("ACA", 9, "\"x\"", Some(parachain_location("2000")));
    let group = get_assets_at_location(asset, sample_registry());
    assert_eq!(group.len(), 1);
    assert_eq!(name_of(&group[0]), "ACA");
}

#[test]
fn assets_at_location_checked() {
    let nowhere = chain_asset("X", 1, "1", None);
    assert!(try_get_assets_at_location(nowhere, sample_registry()).is_none());
    let unknown = chain_asset("X", 1, "1", Some(parachain_location("9999")));
    assert!(try_get_assets_at_location(unknown, sample_registry()).is_none());
    let mut broken = sample_registry();
    broken.push(chain_asset("Y", 5, "5", Some(JsonValue::Number(s("1")))));
    assert!(!registry_locations_are_known(&broken));
    let here = chain_asset("X", 1, "1", Some(JsonValue::Str(s("here"))));
    assert!(try_get_assets_at_location(here, broken).is_none());
    let here = chain_asset("X", 1, "1", Some(JsonValue::Str(s("here"))));
    assert_eq!(try_get_assets_at_location(here, sample_registry()).unwrap().len(), 3);
}

#[test]
fn chain_asset_ids_match_as_json_values() {
    let mut registry = sample_registry();
    registry.push(chain_asset("ZERO", 8, "0.0", None));
    assert_eq!(position_of_chain_asset(8, "-0.0", &registry), Some(6));
    assert_eq!(position_of_chain_asset(8, " 0.0 ", &registry), Some(6));
    assert_eq!(position_of_chain_asset(8, "0", &registry), None);
    assert_eq!(position_of_chain_asset(2034, "\"5\"", &registry), Some(3));
    assert_eq!(position_of_chain_asset(2034, " \"5\" ", &registry), Some(3));
}

#[test]
fn chain_asset_lookup() {
    let registry = sample_registry();
    assert_eq!(position_of_chain_asset(2034, "\"10\"", &registry), Some(4));
    assert_eq!(position_of_chain_asset(2000, "\"10\"", &registry), None);
    let found = get_asset_by_chain_and_id(2000, "{ \"NativeAssetId\": { \"Token\": \"ACA\" } }", sample_registry());
    assert_eq!(name_of(&found), "ACA");
    let found = get_asset_by_chain_and_id(2034, "\"5\"", sample_registry());
    assert_eq!(name_of(&found), "DOT");
}

#[test]
fn chain_asset_lookup_checked() {
    assert!(try_get_asset_by_chain_and_id(2034, "5", sample_registry()).is_none());
    assert!(try_get_asset_by_chain_and_id(1, "garbage", sample_registry()).is_none());
    let mut registry = sample_registry();
    registry.push(chain_asset("NULLID", 7, "null", None));
    let found = try_get_asset_by_chain_and_id(7, "garbage", registry).unwrap();
    assert_eq!(name_of(&found), "NULLID");
}

#[test]
fn xcm_asset_lookup() {
    let found = get_xcm_assets(2030, "{\"Token2\":\"0\"}", sample_registry()).unwrap();
    assert_eq!(get_asset_key(found), "2030{\"Token2\":\"0\"}");
    // The matching asset has no location.
    assert!(try_get_xcm_assets(2034, "\"10\"", sample_registry()).is_none());
    assert!(try_get_xcm_assets(2034, "\"11\"", sample_registry()).is_none());
    let found = try_get_xcm_assets(2034, "\"5\"", sample_registry()).unwrap();
    assert_eq!(name_of(&found), "DOT");
}

#[test]
fn registry_drops_locations_of_ignored_assets() {
    let ignore = vec![chain_asset("ACA", 2000, "{\"NativeAssetId\":{\"Token\":\"ACA\"}}", None)];
    let registry = build_asset_registry(sample_registry(), ignore);
    assert_eq!(registry.assets.len(), 6);
    assert!(registry.assets[0].asset_location.is_some());
    assert!(registry.assets[1].asset_location.is_none());
    assert!(registry.assets[2].asset_location.is_none());
    assert!(registry.assets[3].asset_location.is_some());
    assert!(registry.assets[4].asset_location.is_none());
    match &registry.assets[1].token_data {
        TokenData::MyAsset(d) => assert_eq!(d.name, "ACA"),
        TokenData::CexAsset(_) => panic!("wrong kind"),
    }
}

#[test]
fn registry_without_ignore_list_keeps_locations() {
    let registry = build_asset_registry(sample_registry(), vec![]);
    assert_eq!(
        registry.assets[1].asset_location,
        Some(AssetLocation { here: false, xtype: Some(s("x1")), properties: Some(vec![s("{\"parachain\":2000}")]) })
    );
}

#[test]
fn registry_lookups_by_key_and_location() {
    let mut parsed = sample_registry();
    parsed.push(chain_asset("DOT-again", 2034, "\"5\"", Some(parachain_location("2000"))));
    let registry = build_asset_registry(parsed, vec![]);
    assert_eq!(registry.assets_with_key("2034\"5\""), vec![3, 6]);
    assert_eq!(registry.assets_with_key("binanceDOT"), vec![2]);
    assert_eq!(registry.assets_with_key("nothing"), Vec::<usize>::new());
    let here = AssetLocation { here: true, xtype: None, properties: None };
    assert_eq!(registry.assets_at_location(&here), vec![0, 3, 5]);
    let para = AssetLocation { here: false, xtype: Some(s("x1")), properties: Some(vec![s("{\"parachain\":2000}")]) };
    assert_eq!(registry.assets_at_location(&para), vec![1, 6]);
}

#[test]
fn registry_file_locations() {
    assert!(all_assets_file_location(Relay::Polkadot).ends_with("/asset_registry/allAssetsPolkadotCollected.json"));
    assert!(all_assets_file_location(Relay::Kusama).ends_with("/asset_registry/allAssetsKusamaCollected.json"));
}

#[test]
fn path_nodes_take_target_values() {
    let target = GraphNode {
        asset_key: s("k3"),
        asset_name: s("C"),
        path_values: vec![s("1"), s("2.5"), s("3.75")],
        path_value_types: vec![s("Start"), s("Dex"), s("Xcm")],
        path_datas: vec![s("{}"), s("{\"pool\":1}"), s("{\"fee\":2}")],
    };
    let first = GraphNode {
        asset_key: s("k1"),
        asset_name: s("A"),
        path_values: vec![],
        path_value_types: vec![],
        path_datas: vec![],
    };
    let second = GraphNode {
        asset_key: s("k2"),
        asset_name: s("B"),
        path_values: vec![s("9")],
        path_value_types: vec![s("Q")],
        path_datas: vec![s("{}")],
    };
    let nodes = return_path_nodes(vec![first, second, target]);
    assert_eq!(nodes.len(), 3);
    assert_eq!(nodes[0].node_key, "k1");
    assert_eq!(nodes[0].path_value, "1");
    assert_eq!(nodes[1].asset_name, "B");
    assert_eq!(nodes[1].path_value, "2.5");
    assert_eq!(nodes[1].path_type, "Dex");
    assert_eq!(nodes[2].path_data, "{\"fee\":2}");
}

#[test]
fn start_node_selection() {
    let start = chain_asset("DOT", 2000, "\"DOT\"", None);
    let xcm = sample_registry();
    assert_eq!(select_start_nodes(start, xcm, true).len(), 6);
    let start = chain_asset("DOT", 2000, "\"DOT\"", None);
    let only = select_start_nodes(start, sample_registry(), false);
    assert_eq!(only.len(), 1);
    assert_eq!(get_asset_key(only.into_iter().next().unwrap()), "2000\"DOT\"");
}

#[test]
fn decimals_compare_by_value() {
    assert_eq!(compare_decimals("10", "9.5"), Some(DecimalOrder::Greater));
    assert_eq!(compare_decimals("1.0", "1"), Some(DecimalOrder::Equal));
    assert_eq!(compare_decimals("-2", "1e-3"), Some(DecimalOrder::Less));
    assert_eq!(compare_decimals("x", "1"), None);
    assert!(is_decimal_text("12.5e3"));
    assert!(!is_decimal_text(""));
    assert!(!is_decimal_text("abc"));
}

#[test]
fn highest_result_by_value() {
    let results = vec![search_result("a", "9.5"), search_result("b", "10"), search_result("c", "2")];
    assert_eq!(highest_search_result(results).display_string, "b");
}

#[test]
fn highest_result_ties_pick_last() {
    let results = vec![search_result("a", "3"), search_result("b", "3.00"), search_result("c", "1")];
    assert_eq!(highest_search_result(results).display_string, "b");
}

#[test]
fn highest_result_checked() {
    assert!(try_highest_search_result(vec![]).is_none());
    let results = vec![search_result("a", "3"), search_result("b", "three")];
    assert!(try_highest_search_result(results).is_none());
    let mut empty_path = search_result("c", "1");
    empty_path.path_nodes.clear();
    assert!(try_highest_search_result(vec![search_result("a", "3"), empty_path]).is_none());
    let results = vec![search_result("a", "0.1"), search_result("b", "0.01")];
    assert_eq!(try_highest_search_result(results).unwrap().display_string, "a");
}

#[test]
fn log_folders() {
    assert_eq!(
        ResultLogger::default_log_folder(Relay::Polkadot, "2024-01-02", "0.5"),
        "default_log_data/polkadot/2024-01-02/0.5"
    );
    assert_eq!(ResultLogger::target_log_folder(Relay::Kusama, "2024-01-02"), "target_log_data/kusama/2024-01-02");
    assert_eq!(
        ResultLogger::fallback_log_folder(Relay::Polkadot, "d", "DOT"),
        "fallback_log_data/polkadot/d/DOT"
    );
    assert_eq!(
        ResultLogger::fallback_log_file_path("fallback_log_data/polkadot/d/DOT", "10-11-12"),
        "fallback_log_data/polkadot/d/DOT/10-11-12.json"
    );
    assert_eq!(ResultLogger::log_file_path("f", "DOT", "10-11-12"), "f/DOT_10-11-12.json");
}

#[test]
fn log_line_uses_last_path_value() {
    let path = vec![path_node("a", "1"), path_node("b", "1.25")];
    assert_eq!(
        ResultLogger::result_log_line("2024-01-02___10-11-12", "DOT", &path),
        "2024-01-02___10-11-12 DOT - 1.25"
    );
}

#[test]
fn logger_info_and_error_write_nothing() {
    ResultLogger::log("info");
    ResultLogger::error("error");
}

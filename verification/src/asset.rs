use vstd::prelude::*;
use vstd::string::StringExecFns;

use crate::constants::{ALL_KUSAMA_ASSETS, ALL_POLKADOT_ASSETS, ASSET_REGISTRY_FOLDER};
use crate::relay::Relay;
use crate::json::{json_values_equal, same_json_value, JsonMember, JsonValue};
use crate::text::{decimal_string, decimal_text, str_eq};

verus! {

/// Registry data of an asset that lives on a parachain.
#[derive(Debug, Clone)]
pub struct ChainAssetData {
    pub name: String,
    pub chain: u64,
    /// The asset's local identifier on its chain, as the compact JSON text of the
    /// identifier's value.
    pub local_id: String,
}

/// Registry data of an asset that trades on a centralised exchange.
#[derive(Debug, Clone)]
pub struct CexAssetData {
    pub name: String,
    pub exchange: String,
    pub asset_ticker: String,
}

/// What kind of asset a registry entry describes.
#[derive(Debug, Clone)]
pub enum TokenData {
    MyAsset(ChainAssetData),
    CexAsset(CexAssetData),
}

/// One entry of the asset registry.
#[derive(Debug)]
pub struct MyAsset {
    pub token_data: TokenData,
    pub has_location: bool,
    pub token_location: Option<JsonValue>,
}

/// Where an asset lives across chains.
///
/// `here` marks a location given as a plain string; otherwise `xtype` is the first key of
/// the location object and `properties` the compact JSON texts of the junctions under it.
#[derive(Debug, Clone, PartialEq, Eq, Hash)]
pub struct AssetLocation {
    pub here: bool,
    pub xtype: Option<String>,
    pub properties: Option<Vec<String>>,
}

/// The text of an optional string.
pub open spec fn option_string_view(o: Option<String>) -> Option<Seq<char>> {
    match o {
        Some(s) => Some(s@),
        None => None,
    }
}

/// The texts of a sequence of strings.
pub open spec fn strings_view(v: Seq<String>) -> Seq<Seq<char>> {
    v.map_values(|s: String| s@)
}

impl View for AssetLocation {
    type V = (bool, Option<Seq<char>>, Option<Seq<Seq<char>>>);

    open spec fn view(&self) -> Self::V {
        (
            self.here,
            option_string_view(self.xtype),
            match self.properties {
                Some(p) => Some(strings_view(p@)),
                None => None,
            },
        )
    }
}

/// The view of an optional location.
pub open spec fn option_location_view(o: Option<AssetLocation>) -> Option<
    (bool, Option<Seq<char>>, Option<Seq<Seq<char>>>),
> {
    match o {
        Some(l) => Some(l@),
        None => None,
    }
}

/// The compact JSON text of a JSON object (empty for any other value).
pub open spec fn object_text(v: JsonValue) -> Seq<char> {
    match v {
        JsonValue::Object(_, text) => text@,
        _ => Seq::empty(),
    }
}

/// The location shapes that can be read without failing: an object location must have a
/// member, and the value of its first member must be an object or an array of objects.
pub open spec fn location_readable(token_location: Option<JsonValue>) -> bool {
    match token_location {
        Some(JsonValue::Object(members, _)) => members@.len() > 0 && match members@[0].value {
            JsonValue::Array(items) => forall|i: int|
                0 <= i < items@.len() ==> (#[trigger] items@[i]) is Object,
            JsonValue::Object(_, _) => true,
            _ => false,
        },
        _ => true,
    }
}

/// The location that a registry location field describes: a string is the `here`
/// location; an object gives its first key and the JSON texts of the object (or array of
/// objects) under that key; anything else, or no field, gives no location.
pub open spec fn spec_location(token_location: Option<JsonValue>) -> Option<
    (bool, Option<Seq<char>>, Option<Seq<Seq<char>>>),
> {
    match token_location {
        Some(JsonValue::Str(_)) => Some((true, None, None)),
        Some(JsonValue::Object(members, _)) => {
            let first = members@[0];
            Some(
                (
                    false,
                    Some(first.key@),
                    Some(
                        match first.value {
                            JsonValue::Array(items) => items@.map_values(
                                |item: JsonValue| object_text(item),
                            ),
                            other => seq![object_text(other)],
                        },
                    ),
                ),
            )
        },
        _ => None,
    }
}

/// The location of an asset can be read and there is one.
pub open spec fn location_known(asset: MyAsset) -> bool {
    location_readable(asset.token_location) && spec_location(asset.token_location) is Some
}

/// Every registry entry that claims a location has one that can be read.
pub open spec fn registry_locations_known(registry: Seq<MyAsset>) -> bool {
    forall|i: int|
        0 <= i < registry.len() && (#[trigger] registry[i]).has_location ==> location_known(
            registry[i],
        )
}

/// The asset claims a location, and it is `location`.
pub open spec fn located_at(
    asset: MyAsset,
    location: (bool, Option<Seq<char>>, Option<Seq<Seq<char>>>),
) -> bool {
    asset.has_location && spec_location(asset.token_location) == Some(location)
}

fn object_text_of(v: &JsonValue) -> (r: String)
    requires
        *v is Object,
    ensures
        r@ == object_text(*v),
{
    match v {
        JsonValue::Object(_, text) => text.clone(),
        _ => String::new(),
    }
}

/// Reads the location of a registry entry.
pub fn parse_asset_location(asset: &MyAsset) -> (r: Option<AssetLocation>)
    requires
        location_readable(asset.token_location),
    ensures
        option_location_view(r) == spec_location(asset.token_location),
        asset.token_location matches Some(JsonValue::Str(_)) ==> (r is Some && r.unwrap().here
            && r.unwrap().xtype is None && r.unwrap().properties is None),
        asset.token_location matches Some(v) && !(v is Str) && !(v is Object) ==> r is None,
        asset.token_location is None ==> r is None,
        asset.token_location matches Some(JsonValue::Object(members, _)) ==> (r is Some
            && !r.unwrap().here && option_string_view(r.unwrap().xtype) == Some(members@[0].key@)),
        asset.token_location matches Some(JsonValue::Object(members, _)) ==> (members@[0].value matches JsonValue::Array(items)
            ==> (r is Some && r.unwrap().properties is Some
            && r.unwrap().properties.unwrap()@.len() == items@.len()
            && forall|k: int| 0 <= k < items@.len() ==> (#[trigger] items@[k]) is Object
                && r.unwrap().properties.unwrap()@[k]@ == items@[k]->Object_1@)),
        asset.token_location matches Some(JsonValue::Object(members, _)) ==> (members@[0].value matches JsonValue::Object(_, t)
            ==> (r is Some && r.unwrap().properties is Some
            && r.unwrap().properties.unwrap()@.len() == 1 && r.unwrap().properties.unwrap()@[0]@ == t@)),
{
    proof {
        lemma_location_reading(asset.token_location);
    }
    match &asset.token_location {
        Some(JsonValue::Str(_)) => Some(AssetLocation { here: true, xtype: None, properties: None }),
        Some(JsonValue::Object(members, _)) => {
            let first: &JsonMember = &members[0];
            let xtype = first.key.clone();
            let properties: Vec<String> = match &first.value {
                JsonValue::Array(items) => {
                    let mut texts: Vec<String> = Vec::new();
                    let mut i: usize = 0;
                    while i < items.len()
                        invariant
                            i <= items@.len(),
                            forall|k: int| 0 <= k < items@.len() ==> (#[trigger] items@[k]) is Object,
                            strings_view(texts@) =~= items@.take(i as int).map_values(
                                |item: JsonValue| object_text(item),
                            ),
                        decreases items.len() - i,
                    {
                        let t = object_text_of(&items[i]);
                        let ghost before = texts@;
                        texts.push(t);
                        assert(strings_view(texts@) =~= strings_view(before).push(t@));
                        assert(items@.take(i + 1) =~= items@.take(i as int).push(items@[i as int]));
                        i = i + 1;
                    }
                    assert(items@.take(items@.len() as int) =~= items@);
                    texts
                },
                other => {
                    let t = object_text_of(other);
                    let mut texts: Vec<String> = Vec::new();
                    texts.push(t);
                    assert(strings_view(texts@) =~= seq![object_text(*other)]);
                    texts
                },
            };
            Some(AssetLocation { here: false, xtype: Some(xtype), properties: Some(properties) })
        },
        _ => None,
    }
}

fn option_str_eq(a: &Option<String>, b: &Option<String>) -> (r: bool)
    ensures
        r == (option_string_view(*a) == option_string_view(*b)),
{
    match (a, b) {
        (Some(x), Some(y)) => str_eq(x.as_str(), y.as_str()),
        (None, None) => true,
        _ => false,
    }
}

fn strings_eq(a: &Vec<String>, b: &Vec<String>) -> (r: bool)
    ensures
        r == (strings_view(a@) == strings_view(b@)),
{
    if a.len() != b.len() {
        assert(strings_view(a@).len() != strings_view(b@).len());
        return false;
    }
    let mut i: usize = 0;
    while i < a.len()
        invariant
            a@.len() == b@.len(),
            i <= a@.len(),
            forall|j: int| 0 <= j < i ==> a@[j]@ == b@[j]@,
        decreases a.len() - i,
    {
        if !str_eq(a[i].as_str(), b[i].as_str()) {
            assert(strings_view(a@)[i as int] != strings_view(b@)[i as int]);
            return false;
        }
        i = i + 1;
    }
    assert(strings_view(a@) =~= strings_view(b@));
    true
}

/// Whether two locations are the same.
pub fn same_location(a: &AssetLocation, b: &AssetLocation) -> (r: bool)
    ensures
        r == (a@ == b@),
{
    if a.here != b.here {
        return false;
    }
    if !option_str_eq(&a.xtype, &b.xtype) {
        return false;
    }
    match (&a.properties, &b.properties) {
        (Some(x), Some(y)) => strings_eq(x, y),
        (None, None) => true,
        _ => false,
    }
}

fn all_objects(items: &Vec<JsonValue>) -> (r: bool)
    ensures
        r == forall|k: int| 0 <= k < items@.len() ==> (#[trigger] items@[k]) is Object,
{
    let mut i: usize = 0;
    while i < items.len()
        invariant
            i <= items@.len(),
            forall|k: int| 0 <= k < i ==> (#[trigger] items@[k]) is Object,
        decreases items.len() - i,
    {
        match &items[i] {
            JsonValue::Object(_, _) => {},
            _ => {
                assert(!(items@[i as int] is Object));
                return false;
            },
        }
        i = i + 1;
    }
    true
}

/// Whether the location field of an asset can be read without failing.
pub fn location_is_readable(asset: &MyAsset) -> (r: bool)
    ensures
        r == location_readable(asset.token_location),
{
    match &asset.token_location {
        Some(JsonValue::Object(members, _)) => {
            if members.len() == 0 {
                return false;
            }
            match &members[0].value {
                JsonValue::Object(_, _) => true,
                JsonValue::Array(items) => all_objects(items),
                _ => false,
            }
        },
        _ => true,
    }
}

/// Whether the location of an asset can be read and is present.
pub fn location_is_known(asset: &MyAsset) -> (r: bool)
    ensures
        r == location_known(*asset),
{
    match &asset.token_location {
        Some(JsonValue::Str(_)) => true,
        Some(JsonValue::Object(members, _)) => {
            if members.len() == 0 {
                return false;
            }
            match &members[0].value {
                JsonValue::Object(_, _) => true,
                JsonValue::Array(items) => all_objects(items),
                _ => false,
            }
        },
        _ => false,
    }
}

/// The key under which an asset is known: the chain number in decimal followed by the
/// local identifier's JSON text, or the exchange followed by the ticker.
pub open spec fn spec_asset_key(asset: MyAsset) -> Seq<char> {
    match asset.token_data {
        TokenData::MyAsset(data) => decimal_text(data.chain as nat) + data.local_id@,
        TokenData::CexAsset(data) => data.exchange@ + data.asset_ticker@,
    }
}

/// The key under which an asset is known, read from a borrowed entry.
pub fn asset_key_of(asset: &MyAsset) -> (r: String)
    ensures
        r@ == spec_asset_key(*asset),
        asset.token_data matches TokenData::CexAsset(d) ==> r@ == d.exchange@ + d.asset_ticker@,
        asset.token_data matches TokenData::MyAsset(d) ==> r@ == decimal_text(d.chain as nat)
            + d.local_id@,
{
    token_key_of(&asset.token_data)
}

fn token_key_of(token_data: &TokenData) -> (r: String)
    ensures
        r@ == spec_token_key(*token_data),
{
    match token_data {
        TokenData::MyAsset(data) => {
            let mut key = decimal_string(data.chain);
            key.append(data.local_id.as_str());
            key
        },
        TokenData::CexAsset(data) => {
            let mut key = data.exchange.clone();
            key.append(data.asset_ticker.as_str());
            key
        },
    }
}

/// The key under which an asset is known.
pub fn get_asset_key(asset: MyAsset) -> (r: String)
    ensures
        r@ == spec_asset_key(asset),
        asset.token_data matches TokenData::CexAsset(d) ==> r@ == d.exchange@ + d.asset_ticker@,
        asset.token_data matches TokenData::MyAsset(d) ==> r@ == decimal_text(d.chain as nat)
            + d.local_id@,
{
    asset_key_of(&asset)
}

/// The position of the first registry entry with the given key.
pub fn position_of_asset_key(asset_key: &str, asset_registry: &Vec<MyAsset>) -> (r: Option<usize>)
    ensures
        match r {
            Some(i) => {
                &&& i < asset_registry@.len()
                &&& spec_asset_key(asset_registry@[i as int]) == asset_key@
                &&& forall|j: int|
                    0 <= j < i ==> spec_asset_key(#[trigger] asset_registry@[j]) != asset_key@
            },
            None => forall|j: int|
                0 <= j < asset_registry@.len() ==> spec_asset_key(#[trigger] asset_registry@[j])
                    != asset_key@,
        },
{
    let mut i: usize = 0;
    while i < asset_registry.len()
        invariant
            i <= asset_registry@.len(),
            forall|j: int| 0 <= j < i ==> spec_asset_key(#[trigger] asset_registry@[j]) != asset_key@,
        decreases asset_registry.len() - i,
    {
        let key = asset_key_of(&asset_registry[i]);
        if str_eq(key.as_str(), asset_key) {
            return Some(i);
        }
        i = i + 1;
    }
    None
}

/// The first registry entry whose key is `asset_key`; the registry must hold one.
pub fn get_asset_by_asset_key(asset_key: String, asset_registry: Vec<MyAsset>) -> (r: MyAsset)
    requires
        exists|i: int|
            0 <= i < asset_registry@.len() && spec_asset_key(#[trigger] asset_registry@[i])
                == asset_key@,
    ensures
        spec_asset_key(r) == asset_key@,
        exists|i: int|
            0 <= i < asset_registry@.len() && r == asset_registry@[i] && forall|j: int|
                0 <= j < i ==> spec_asset_key(#[trigger] asset_registry@[j]) != asset_key@,
{
    let i = position_of_asset_key(asset_key.as_str(), &asset_registry).unwrap();
    let mut registry = asset_registry;
    registry.swap_remove(i)
}

/// The first registry entry whose key is `asset_key`, or `None` where there is none.
pub fn try_get_asset_by_asset_key(asset_key: String, asset_registry: Vec<MyAsset>) -> (r: Option<MyAsset>)
    ensures
        r is None <==> forall|j: int|
            0 <= j < asset_registry@.len() ==> spec_asset_key(#[trigger] asset_registry@[j])
                != asset_key@,
        r matches Some(a) ==> spec_asset_key(a) == asset_key@ && exists|i: int|
            0 <= i < asset_registry@.len() && a == asset_registry@[i] && forall|j: int|
                0 <= j < i ==> spec_asset_key(#[trigger] asset_registry@[j]) != asset_key@,
{
    match position_of_asset_key(asset_key.as_str(), &asset_registry) {
        Some(_) => Some(get_asset_by_asset_key(asset_key, asset_registry)),
        None => None,
    }
}

/// Whether every registry entry that claims a location has one that can be read.
pub fn registry_locations_are_known(asset_registry: &Vec<MyAsset>) -> (r: bool)
    ensures
        r == registry_locations_known(asset_registry@),
{
    let mut i: usize = 0;
    while i < asset_registry.len()
        invariant
            i <= asset_registry@.len(),
            forall|j: int|
                0 <= j < i && (#[trigger] asset_registry@[j]).has_location ==> location_known(
                    asset_registry@[j],
                ),
        decreases asset_registry.len() - i,
    {
        if asset_registry[i].has_location && !location_is_known(&asset_registry[i]) {
            assert(asset_registry@[i as int].has_location);
            return false;
        }
        i = i + 1;
    }
    true
}

/// All registry entries that claim the location of `asset`, in registry order.
///
/// Every entry that claims a location must have one that can be read, `asset` must have a
/// location, and at least one entry must claim it.
pub fn get_assets_at_location(asset: MyAsset, asset_registry: Vec<MyAsset>) -> (r: Vec<MyAsset>)
    requires
        registry_locations_known(asset_registry@),
        location_known(asset),
        exists|i: int|
            0 <= i < asset_registry@.len() && located_at(
                #[trigger] asset_registry@[i],
                spec_location(asset.token_location).unwrap(),
            ),
    ensures
        r@ == asset_registry@.filter(
            |a: MyAsset| located_at(a, spec_location(asset.token_location).unwrap()),
        ),
        r@.len() > 0,
        forall|k: int|
            0 <= k < r@.len() ==> (#[trigger] r@[k]).has_location && spec_location(
                r@[k].token_location,
            ) == spec_location(asset.token_location),
        forall|i: int|
            0 <= i < asset_registry@.len() && (#[trigger] asset_registry@[i]).has_location
                && spec_location(asset_registry@[i].token_location) == spec_location(
                asset.token_location,
            ) ==> r@.contains(asset_registry@[i]),
{
    let ghost location = spec_location(asset.token_location).unwrap();
    let ghost pred = |a: MyAsset| located_at(a, location);
    let ghost original = asset_registry@;
    let target = parse_asset_location(&asset).unwrap();
    let total = asset_registry.len();
    let mut rest = asset_registry;
    let mut found: Vec<MyAsset> = Vec::new();
    let mut k: usize = 0;
    while rest.len() > 0
        invariant
            target@ == location,
            pred == (|a: MyAsset| located_at(a, location)),
            registry_locations_known(original),
            k <= original.len(),
            k + rest@.len() == original.len(),
            total == original.len(),
            rest@ == original.skip(k as int),
            found@ == original.take(k as int).filter(pred),
        decreases rest.len(),
    {
        let candidate = rest.remove(0);
        proof {
            assert(candidate == original[k as int]);
            assert(original.take(k + 1) =~= original.take(k as int).push(candidate));
            original.take(k as int).lemma_filter_push(candidate, pred);
            assert(original.skip(k + 1) =~= original.skip(k as int).remove(0));
        }
        let keep = if candidate.has_location {
            let here = parse_asset_location(&candidate).unwrap();
            same_location(&here, &target)
        } else {
            false
        };
        if keep {
            found.push(candidate);
        }
        k = k + 1;
    }
    proof {
        assert(original.take(k as int) =~= original);
        let i = choose|i: int| 0 <= i < original.len() && located_at(#[trigger] original[i], location);
        original.lemma_filter_contains(pred, i);
        lemma_location_group_members(original, asset, found@);
    }
    found
}

/// All registry entries that claim the location of `asset`, or `None` where an entry that
/// claims a location has none that can be read, `asset` has no location, or no entry
/// claims it.
pub fn try_get_assets_at_location(asset: MyAsset, asset_registry: Vec<MyAsset>) -> (r: Option<Vec<MyAsset>>)
    ensures
        r is Some <==> {
            &&& registry_locations_known(asset_registry@)
            &&& location_known(asset)
            &&& exists|i: int|
                0 <= i < asset_registry@.len() && located_at(
                    #[trigger] asset_registry@[i],
                    spec_location(asset.token_location).unwrap(),
                )
        },
        r matches Some(v) ==> v@ == asset_registry@.filter(
            |a: MyAsset| located_at(a, spec_location(asset.token_location).unwrap()),
        ),
        r matches Some(v) ==> forall|k: int|
            0 <= k < v@.len() ==> (#[trigger] v@[k]).has_location && spec_location(
                v@[k].token_location,
            ) == spec_location(asset.token_location),
        r matches Some(v) ==> forall|i: int|
            0 <= i < asset_registry@.len() && (#[trigger] asset_registry@[i]).has_location
                && spec_location(asset_registry@[i].token_location) == spec_location(
                asset.token_location,
            ) ==> v@.contains(asset_registry@[i]),
{
    if !registry_locations_are_known(&asset_registry) || !location_is_known(&asset) {
        return None;
    }
    let target = parse_asset_location(&asset).unwrap();
    let mut i: usize = 0;
    while i < asset_registry.len()
        invariant
            i <= asset_registry@.len(),
            target@ == spec_location(asset.token_location).unwrap(),
            location_known(asset),
            registry_locations_known(asset_registry@),
            forall|j: int|
                0 <= j < i ==> !located_at(
                    #[trigger] asset_registry@[j],
                    spec_location(asset.token_location).unwrap(),
                ),
        decreases asset_registry.len() - i,
    {
        if asset_registry[i].has_location {
            let here = parse_asset_location(&asset_registry[i]).unwrap();
            if same_location(&here, &target) {
                assert(located_at(asset_registry@[i as int], spec_location(asset.token_location).unwrap()));
                return Some(get_assets_at_location(asset, asset_registry));
            }
        }
        i = i + 1;
    }
    None
}

/// The registry entry is a chain asset on `chain` whose local identifier is the JSON value
/// that `asset_id` spells (`null` where it is not JSON).
pub open spec fn chain_asset_matches(asset: MyAsset, chain: u64, asset_id: Seq<char>) -> bool {
    match asset.token_data {
        TokenData::MyAsset(data) => data.chain == chain && json_values_equal(data.local_id@, asset_id),
        TokenData::CexAsset(_) => false,
    }
}

/// Index `i` is the first registry entry that is a chain asset on `chain` whose local
/// identifier is the JSON value that `asset_id` spells.
pub open spec fn is_first_chain_match(
    registry: Seq<MyAsset>,
    chain: u64,
    asset_id: Seq<char>,
    i: int,
) -> bool {
    &&& 0 <= i < registry.len()
    &&& chain_asset_matches(registry[i], chain, asset_id)
    &&& forall|j: int| 0 <= j < i ==> !chain_asset_matches(#[trigger] registry[j], chain, asset_id)
}

/// Some registry entry is a chain asset on `chain` whose local identifier is the JSON value
/// that `asset_id` spells.
pub open spec fn has_chain_match(registry: Seq<MyAsset>, chain: u64, asset_id: Seq<char>) -> bool {
    exists|i: int| 0 <= i < registry.len() && chain_asset_matches(#[trigger] registry[i], chain, asset_id)
}

/// The position of the first chain asset on `chain` whose local identifier is the JSON
/// value that `asset_id` spells.
pub fn position_of_chain_asset(chain: u64, asset_id: &str, asset_registry: &Vec<MyAsset>) -> (r: Option<usize>)
    ensures
        match r {
            Some(i) => is_first_chain_match(asset_registry@, chain, asset_id@, i as int),
            None => !has_chain_match(asset_registry@, chain, asset_id@),
        },
        r is Some ==> r.unwrap() < asset_registry@.len() && (asset_registry@[r.unwrap() as int].token_data is MyAsset && asset_registry@[r.unwrap() as int].token_data->MyAsset_0.chain == chain && json_values_equal(asset_registry@[r.unwrap() as int].token_data->MyAsset_0.local_id@, asset_id@)),
        r is Some ==> forall|j: int| 0 <= j < r.unwrap() ==> !((#[trigger] asset_registry@[j]).token_data is MyAsset && asset_registry@[j].token_data->MyAsset_0.chain == chain && json_values_equal(asset_registry@[j].token_data->MyAsset_0.local_id@, asset_id@)),
        r is None ==> forall|j: int| 0 <= j < asset_registry@.len() ==> !((#[trigger] asset_registry@[j]).token_data is MyAsset && asset_registry@[j].token_data->MyAsset_0.chain == chain && json_values_equal(asset_registry@[j].token_data->MyAsset_0.local_id@, asset_id@)),
{
    let mut i: usize = 0;
    while i < asset_registry.len()
        invariant
            i <= asset_registry@.len(),
            forall|j: int|
                0 <= j < i ==> !chain_asset_matches(#[trigger] asset_registry@[j], chain, asset_id@),
        decreases asset_registry.len() - i,
    {
        match &asset_registry[i].token_data {
            TokenData::MyAsset(data) => {
                if data.chain == chain && same_json_value(data.local_id.as_str(), asset_id) {
                    return Some(i);
                }
            },
            TokenData::CexAsset(_) => {},
        }
        i = i + 1;
    }
    None
}

/// The first chain asset on chain `chain_id` whose local identifier is the JSON value that
/// `asset_id` spells (`null` where `asset_id` is not JSON); the registry must hold one.
pub fn get_asset_by_chain_and_id(chain_id: usize, asset_id: &str, asset_registry: Vec<MyAsset>) -> (r: MyAsset)
    requires
        has_chain_match(asset_registry@, chain_id as u64, asset_id@),
    ensures
        exists|i: int|
            is_first_chain_match(asset_registry@, chain_id as u64, asset_id@, i)
                && r == asset_registry@[i],
        exists|i: int|
            0 <= i < asset_registry@.len() && r == asset_registry@[i] && ((#[trigger] asset_registry@[i]).token_data is MyAsset && asset_registry@[i].token_data->MyAsset_0.chain == chain_id as u64 && json_values_equal(asset_registry@[i].token_data->MyAsset_0.local_id@, asset_id@))
                && forall|j: int| 0 <= j < i ==> !((#[trigger] asset_registry@[j]).token_data is MyAsset && asset_registry@[j].token_data->MyAsset_0.chain == chain_id as u64 && json_values_equal(asset_registry@[j].token_data->MyAsset_0.local_id@, asset_id@)),
{
    let i = position_of_chain_asset(chain_id as u64, asset_id, &asset_registry).unwrap();
    let mut registry = asset_registry;
    registry.swap_remove(i)
}

/// The first chain asset on chain `chain_id` whose local identifier is the JSON value that
/// `asset_id` spells, or `None` where the registry holds none.
pub fn try_get_asset_by_chain_and_id(chain_id: usize, asset_id: &str, asset_registry: Vec<MyAsset>) -> (r: Option<MyAsset>)
    ensures
        r is Some <==> has_chain_match(asset_registry@, chain_id as u64, asset_id@),
        r matches Some(a) ==> exists|i: int|
            is_first_chain_match(asset_registry@, chain_id as u64, asset_id@, i)
                && a == asset_registry@[i],
        r matches Some(a) ==> exists|i: int|
            0 <= i < asset_registry@.len() && a == asset_registry@[i] && ((#[trigger] asset_registry@[i]).token_data is MyAsset && asset_registry@[i].token_data->MyAsset_0.chain == chain_id as u64 && json_values_equal(asset_registry@[i].token_data->MyAsset_0.local_id@, asset_id@))
                && forall|j: int| 0 <= j < i ==> !((#[trigger] asset_registry@[j]).token_data is MyAsset && asset_registry@[j].token_data->MyAsset_0.chain == chain_id as u64 && json_values_equal(asset_registry@[j].token_data->MyAsset_0.local_id@, asset_id@)),
{
    match position_of_chain_asset(chain_id as u64, asset_id, &asset_registry) {
        Some(_) => Some(get_asset_by_chain_and_id(chain_id, asset_id, asset_registry)),
        None => None,
    }
}

/// The first chain asset on chain `chain_id` whose local identifier is the JSON value that
/// `asset_id` spells.
///
/// Every entry that claims a location must have one that can be read, the registry must
/// hold a matching asset, and that asset must have a location.
pub fn get_xcm_assets(chain_id: usize, asset_id: &str, asset_registry: Vec<MyAsset>) -> (r: Option<MyAsset>)
    requires
        registry_locations_known(asset_registry@),
        exists|i: int|
            is_first_chain_match(asset_registry@, chain_id as u64, asset_id@, i)
                && location_known(#[trigger] asset_registry@[i]),
    ensures
        exists|i: int|
            is_first_chain_match(asset_registry@, chain_id as u64, asset_id@, i)
                && r == Some(#[trigger] asset_registry@[i]),
        r is Some && exists|i: int|
            0 <= i < asset_registry@.len() && r.unwrap() == asset_registry@[i] && ((#[trigger] asset_registry@[i]).token_data is MyAsset && asset_registry@[i].token_data->MyAsset_0.chain == chain_id as u64 && json_values_equal(asset_registry@[i].token_data->MyAsset_0.local_id@, asset_id@))
                && forall|j: int| 0 <= j < i ==> !((#[trigger] asset_registry@[j]).token_data is MyAsset && asset_registry@[j].token_data->MyAsset_0.chain == chain_id as u64 && json_values_equal(asset_registry@[j].token_data->MyAsset_0.local_id@, asset_id@)),
{
    let i = position_of_chain_asset(chain_id as u64, asset_id, &asset_registry).unwrap();
    let mut registry = asset_registry;
    let matching = registry.swap_remove(i);
    Some(matching)
}

/// The first chain asset on chain `chain_id` whose local identifier is the JSON value that
/// `asset_id` spells, or `None` where an entry that claims a location has none that can be
/// read, no asset matches, or the matching asset has no location.
pub fn try_get_xcm_assets(chain_id: usize, asset_id: &str, asset_registry: Vec<MyAsset>) -> (r: Option<MyAsset>)
    ensures
        r is Some <==> registry_locations_known(asset_registry@) && exists|i: int|
            is_first_chain_match(asset_registry@, chain_id as u64, asset_id@, i)
                && location_known(#[trigger] asset_registry@[i]),
        r matches Some(a) ==> exists|i: int|
            is_first_chain_match(asset_registry@, chain_id as u64, asset_id@, i)
                && a == #[trigger] asset_registry@[i],
        r matches Some(a) ==> exists|i: int|
            0 <= i < asset_registry@.len() && a == asset_registry@[i] && ((#[trigger] asset_registry@[i]).token_data is MyAsset && asset_registry@[i].token_data->MyAsset_0.chain == chain_id as u64 && json_values_equal(asset_registry@[i].token_data->MyAsset_0.local_id@, asset_id@))
                && forall|j: int| 0 <= j < i ==> !((#[trigger] asset_registry@[j]).token_data is MyAsset && asset_registry@[j].token_data->MyAsset_0.chain == chain_id as u64 && json_values_equal(asset_registry@[j].token_data->MyAsset_0.local_id@, asset_id@)),
{
    if !registry_locations_are_known(&asset_registry) {
        return None;
    }
    match position_of_chain_asset(chain_id as u64, asset_id, &asset_registry) {
        Some(i) => {
            if location_is_known(&asset_registry[i]) {
                get_xcm_assets(chain_id, asset_id, asset_registry)
            } else {
                None
            }
        },
        None => None,
    }
}

/// An asset as the registry keeps it: its token data and the location it trades under,
/// if any.
#[derive(Debug, Clone)]
pub struct Asset {
    pub token_data: TokenData,
    pub asset_location: Option<AssetLocation>,
}

/// The asset registry: every asset of the registry file, in file order.
///
/// `assets_with_key` finds the assets with a key (`spec_token_key` of their token data) and
/// `assets_at_location` those at a location; both keep file order.
pub struct AssetRegistry2 {
    pub assets: Vec<Asset>,
}

/// `indices` are, in increasing order, exactly the positions of `assets` whose asset meets
/// `pred`.
pub open spec fn indices_of(indices: Seq<usize>, assets: Seq<Asset>, pred: spec_fn(Asset) -> bool) -> bool {
    &&& forall|k: int| 0 <= k < indices.len() ==> (#[trigger] indices[k]) < assets.len() && pred(assets[indices[k] as int])
    &&& forall|k: int, l: int| 0 <= k < l < indices.len() ==> #[trigger] indices[k] < #[trigger] indices[l]
    &&& forall|i: int| 0 <= i < assets.len() && pred(#[trigger] assets[i]) ==> indices.contains(i as usize)
}

impl AssetRegistry2 {
    /// The positions, in file order, of the assets whose key is `key`.
    pub fn assets_with_key(&self, key: &str) -> (r: Vec<usize>)
        ensures
            indices_of(r@, self.assets@, |a: Asset| spec_token_key(a.token_data) == key@),
    {
        let ghost pred = |a: Asset| spec_token_key(a.token_data) == key@;
        let mut found: Vec<usize> = Vec::new();
        let mut i: usize = 0;
        while i < self.assets.len()
            invariant
                i <= self.assets@.len(),
                pred == (|a: Asset| spec_token_key(a.token_data) == key@),
                forall|k: int| 0 <= k < found@.len() ==> (#[trigger] found@[k]) < i && pred(self.assets@[found@[k] as int]),
                forall|k: int, l: int| 0 <= k < l < found@.len() ==> #[trigger] found@[k] < #[trigger] found@[l],
                forall|j: int| 0 <= j < i && pred(#[trigger] self.assets@[j]) ==> found@.contains(j as usize),
            decreases self.assets.len() - i,
        {
            let asset_key = token_key_of(&self.assets[i].token_data);
            if str_eq(asset_key.as_str(), key) {
                let ghost before = found@;
                found.push(i);
                assert forall|j: int| 0 <= j < i + 1 && pred(#[trigger] self.assets@[j]) implies found@.contains(j as usize) by {
                    if j < i {
                        let k = choose|k: int| 0 <= k < before.len() && before[k] == j as usize;
                        assert(found@[k] == j as usize);
                    } else {
                        assert(found@[found@.len() - 1] == i);
                    }
                }
            }
            i = i + 1;
        }
        found
    }

    /// The positions, in file order, of the assets at `location`.
    pub fn assets_at_location(&self, location: &AssetLocation) -> (r: Vec<usize>)
        ensures
            indices_of(r@, self.assets@, |a: Asset| option_location_view(a.asset_location) == Some(location@)),
    {
        let ghost pred = |a: Asset| option_location_view(a.asset_location) == Some(location@);
        let mut found: Vec<usize> = Vec::new();
        let mut i: usize = 0;
        while i < self.assets.len()
            invariant
                i <= self.assets@.len(),
                pred == (|a: Asset| option_location_view(a.asset_location) == Some(location@)),
                forall|k: int| 0 <= k < found@.len() ==> (#[trigger] found@[k]) < i && pred(self.assets@[found@[k] as int]),
                forall|k: int, l: int| 0 <= k < l < found@.len() ==> #[trigger] found@[k] < #[trigger] found@[l],
                forall|j: int| 0 <= j < i && pred(#[trigger] self.assets@[j]) ==> found@.contains(j as usize),
            decreases self.assets.len() - i,
        {
            let here = match &self.assets[i].asset_location {
                Some(l) => same_location(l, location),
                None => false,
            };
            if here {
                let ghost before = found@;
                found.push(i);
                assert forall|j: int| 0 <= j < i + 1 && pred(#[trigger] self.assets@[j]) implies found@.contains(j as usize) by {
                    if j < i {
                        let k = choose|k: int| 0 <= k < before.len() && before[k] == j as usize;
                        assert(found@[k] == j as usize);
                    } else {
                        assert(found@[found@.len() - 1] == i);
                    }
                }
            }
            i = i + 1;
        }
        found
    }
}

/// The key under which a registry asset is known.
pub open spec fn spec_token_key(token_data: TokenData) -> Seq<char> {
    spec_asset_key(MyAsset { token_data, has_location: false, token_location: None })
}

/// The keys of the assets on the ignore list.
pub open spec fn ignored_keys(ignore_list: Seq<MyAsset>) -> Seq<Seq<char>> {
    ignore_list.map_values(|a: MyAsset| spec_asset_key(a))
}

/// The location the registry keeps for an asset of the registry file: none for an asset on
/// the ignore list, else the location its entry describes.
pub open spec fn registry_location(asset: MyAsset, ignore_list: Seq<MyAsset>) -> Option<
    (bool, Option<Seq<char>>, Option<Seq<Seq<char>>>),
> {
    if ignored_keys(ignore_list).contains(spec_asset_key(asset)) {
        None
    } else {
        spec_location(asset.token_location)
    }
}

/// Every entry's location can be read.
pub open spec fn all_locations_readable(assets: Seq<MyAsset>) -> bool {
    forall|i: int| 0 <= i < assets.len() ==> location_readable(#[trigger] assets[i].token_location)
}

fn contains_text(texts: &Vec<String>, text: &str) -> (r: bool)
    ensures
        r == strings_view(texts@).contains(text@),
{
    let mut i: usize = 0;
    while i < texts.len()
        invariant
            i <= texts@.len(),
            forall|j: int| 0 <= j < i ==> texts@[j]@ != text@,
        decreases texts.len() - i,
    {
        if str_eq(texts[i].as_str(), text) {
            assert(strings_view(texts@)[i as int] == text@);
            return true;
        }
        i = i + 1;
    }
    proof {
        if strings_view(texts@).contains(text@) {
            let j = choose|j: int| 0 <= j < strings_view(texts@).len() && strings_view(texts@)[j] == text@;
            assert(texts@[j]@ == text@);
        }
    }
    false
}

/// Builds the asset registry from the parsed registry file and the parsed ignore list.
///
/// Every asset of the file is kept, in order, with its token data. An asset whose key is the
/// key of an ignore-list entry keeps no location, so it is not reachable across chains but
/// can still be traded; every other asset keeps the location its entry describes. The
/// locations of all entries of both lists must be readable.
pub fn build_asset_registry(parsed_assets: Vec<MyAsset>, ignore_list_assets: Vec<MyAsset>) -> (r: AssetRegistry2)
    requires
        all_locations_readable(parsed_assets@),
        all_locations_readable(ignore_list_assets@),
    ensures
        r.assets@.len() == parsed_assets@.len(),
        forall|i: int|
            0 <= i < parsed_assets@.len() ==> {
                &&& (#[trigger] r.assets@[i]).token_data == parsed_assets@[i].token_data
                &&& option_location_view(r.assets@[i].asset_location) == registry_location(
                    parsed_assets@[i],
                    ignore_list_assets@,
                )
            },
        forall|i: int, j: int|
            #![trigger r.assets@[i], ignore_list_assets@[j]]
            0 <= i < parsed_assets@.len() && 0 <= j < ignore_list_assets@.len() && spec_asset_key(
                parsed_assets@[i],
            ) == spec_asset_key(ignore_list_assets@[j]) ==> r.assets@[i].asset_location is None,
        forall|i: int|
            0 <= i < parsed_assets@.len() && (forall|j: int|
                0 <= j < ignore_list_assets@.len() ==> spec_asset_key(parsed_assets@[i])
                    != spec_asset_key(#[trigger] ignore_list_assets@[j])) ==> option_location_view(
                (#[trigger] r.assets@[i]).asset_location,
            ) == spec_location(parsed_assets@[i].token_location),
{
    let mut ignore_keys: Vec<String> = Vec::new();
    let mut n: usize = 0;
    while n < ignore_list_assets.len()
        invariant
            n <= ignore_list_assets@.len(),
            strings_view(ignore_keys@) =~= ignored_keys(ignore_list_assets@.take(n as int)),
        decreases ignore_list_assets.len() - n,
    {
        let key = asset_key_of(&ignore_list_assets[n]);
        let ghost before = ignore_keys@;
        ignore_keys.push(key);
        assert(strings_view(ignore_keys@) =~= strings_view(before).push(key@));
        assert(ignore_list_assets@.take(n + 1) =~= ignore_list_assets@.take(n as int).push(
            ignore_list_assets@[n as int],
        ));
        n = n + 1;
    }
    assert(ignore_list_assets@.take(ignore_list_assets@.len() as int) =~= ignore_list_assets@);

    let ghost original = parsed_assets@;
    let total = parsed_assets.len();
    let mut rest = parsed_assets;
    let mut assets: Vec<Asset> = Vec::new();
    let mut k: usize = 0;
    while rest.len() > 0
        invariant
            strings_view(ignore_keys@) == ignored_keys(ignore_list_assets@),
            all_locations_readable(original),
            total == original.len(),
            k + rest@.len() == original.len(),
            rest@ == original.skip(k as int),
            assets@.len() == k,
            forall|i: int|
                0 <= i < k ==> {
                    &&& (#[trigger] assets@[i]).token_data == original[i].token_data
                    &&& option_location_view(assets@[i].asset_location) == registry_location(
                        original[i],
                        ignore_list_assets@,
                    )
                },
        decreases rest.len(),
    {
        let entry = rest.remove(0);
        proof {
            assert(entry == original[k as int]);
            assert(original.skip(k + 1) =~= original.skip(k as int).remove(0));
        }
        let asset_location = parse_asset_location(&entry);
        let map_key = asset_key_of(&entry);
        let asset_location = if contains_text(&ignore_keys, map_key.as_str()) {
            None
        } else {
            asset_location
        };
        assets.push(Asset { token_data: entry.token_data, asset_location });
        k = k + 1;
    }
    proof {
        assert forall|i: int, j: int|
            #![trigger assets@[i], ignore_list_assets@[j]]
            0 <= i < original.len() && 0 <= j < ignore_list_assets@.len() && spec_asset_key(
                original[i],
            ) == spec_asset_key(ignore_list_assets@[j]) implies assets@[i].asset_location is None by {
            lemma_listed_asset_loses_location(original[i], ignore_list_assets@, j);
        }
        assert forall|i: int|
            0 <= i < original.len() && (forall|j: int|
                0 <= j < ignore_list_assets@.len() ==> spec_asset_key(original[i])
                    != spec_asset_key(#[trigger] ignore_list_assets@[j])) implies option_location_view(
                (#[trigger] assets@[i]).asset_location,
            ) == spec_location(original[i].token_location) by {
            lemma_unlisted_asset_keeps_location(original[i], ignore_list_assets@);
        }
    }
    AssetRegistry2 { assets }
}

/// An asset whose key is the key of any entry of the ignore list has no location in the
/// registry.
pub proof fn lemma_listed_asset_loses_location(asset: MyAsset, ignore_list: Seq<MyAsset>, j: int)
    requires
        0 <= j < ignore_list.len(),
        spec_asset_key(asset) == spec_asset_key(ignore_list[j]),
    ensures
        registry_location(asset, ignore_list) is None,
{
    assert(ignored_keys(ignore_list)[j] == spec_asset_key(ignore_list[j]));
}

/// An asset whose key is the key of no entry of the ignore list keeps the location its
/// entry describes.
pub proof fn lemma_unlisted_asset_keeps_location(asset: MyAsset, ignore_list: Seq<MyAsset>)
    requires
        forall|j: int| 0 <= j < ignore_list.len() ==> spec_asset_key(asset) != spec_asset_key(
            #[trigger] ignore_list[j],
        ),
    ensures
        registry_location(asset, ignore_list) == spec_location(asset.token_location),
{
    if ignored_keys(ignore_list).contains(spec_asset_key(asset)) {
        let k = choose|k: int| 0 <= k < ignored_keys(ignore_list).len() && ignored_keys(ignore_list)[k] == spec_asset_key(asset);
        assert(spec_asset_key(ignore_list[k]) == spec_asset_key(asset));
    }
}

/// An asset that claims a readable location is in the group of assets at its location.
pub proof fn lemma_asset_in_own_location_group(registry: Seq<MyAsset>, i: int)
    requires
        0 <= i < registry.len(),
        registry[i].has_location,
        location_known(registry[i]),
    ensures
        registry.filter(
            |a: MyAsset| located_at(a, spec_location(registry[i].token_location).unwrap()),
        ).contains(registry[i]),
{
    registry.lemma_filter_contains(
        |a: MyAsset| located_at(a, spec_location(registry[i].token_location).unwrap()),
        i,
    );
}

/// The file that lists every asset of a relay's registry.
pub fn all_assets_file_location(relay: Relay) -> (r: String)
    ensures
        r@ == ASSET_REGISTRY_FOLDER@ + match relay {
            Relay::Polkadot => ALL_POLKADOT_ASSETS@,
            Relay::Kusama => ALL_KUSAMA_ASSETS@,
        },
{
    let mut location = String::from_str(ASSET_REGISTRY_FOLDER);
    match relay {
        Relay::Polkadot => location.append(ALL_POLKADOT_ASSETS),
        Relay::Kusama => location.append(ALL_KUSAMA_ASSETS),
    }
    location
}

/// The key of an exchange asset is its exchange followed by its ticker, and the key of a
/// chain asset is its chain number in decimal followed by its local identifier's text.
pub proof fn lemma_asset_key_fields(asset: MyAsset)
    ensures
        asset.token_data matches TokenData::CexAsset(d) ==> spec_asset_key(asset) == d.exchange@
            + d.asset_ticker@,
        asset.token_data matches TokenData::MyAsset(d) ==> spec_asset_key(asset) == decimal_text(
            d.chain as nat,
        ) + d.local_id@,
        spec_token_key(asset.token_data) == spec_asset_key(asset),
{
}

/// Reading a location: a string is the `here` location; an object gives its first key and,
/// for a first value that is an array of objects, one entry per array item holding that
/// item's JSON text, in order; for a first value that is an object, that object's text alone;
/// anything else gives no location.
pub proof fn lemma_location_reading(token_location: Option<JsonValue>)
    requires
        location_readable(token_location),
    ensures
        token_location matches Some(JsonValue::Str(_)) ==> spec_location(token_location) == Some(
            (true, None::<Seq<char>>, None::<Seq<Seq<char>>>),
        ),
        token_location is None ==> spec_location(token_location) is None,
        token_location matches Some(v) && !(v is Str) && !(v is Object) ==> spec_location(
            token_location,
        ) is None,
        token_location matches Some(JsonValue::Object(members, _)) ==> (spec_location(token_location) is Some
            && !spec_location(token_location).unwrap().0 && spec_location(token_location).unwrap().1 == Some(members@[0].key@)),
        token_location matches Some(JsonValue::Object(members, _)) ==> (members@[0].value matches JsonValue::Array(items)
            ==> (spec_location(token_location) is Some && spec_location(token_location).unwrap().2 is Some
            && spec_location(token_location).unwrap().2.unwrap().len() == items@.len()
            && forall|k: int| 0 <= k < items@.len() ==> (#[trigger] items@[k]) is Object
                && spec_location(token_location).unwrap().2.unwrap()[k] == items@[k]->Object_1@)),
        token_location matches Some(JsonValue::Object(members, _)) ==> (members@[0].value matches JsonValue::Object(_, t)
            ==> (spec_location(token_location) is Some && spec_location(token_location).unwrap().2 == Some(seq![t@]))),
{
    match token_location {
        Some(JsonValue::Object(members, _)) => {
            match members@[0].value {
                JsonValue::Array(items) => {
                    let p = items@.map_values(|item: JsonValue| object_text(item));
                    assert(spec_location(token_location).unwrap().2 == Some(p));
                    assert forall|k: int| 0 <= k < items@.len() implies (#[trigger] items@[k]) is Object
                        && p[k] == items@[k]->Object_1@ by {}
                },
                _ => {},
            }
        },
        _ => {},
    }
}

/// The group of assets at the location of `asset` holds exactly the registry entries that
/// claim a location equal to it in every part, the full junction list included.
pub proof fn lemma_location_group_members(registry: Seq<MyAsset>, asset: MyAsset, group: Seq<MyAsset>)
    requires
        spec_location(asset.token_location) is Some,
        group == registry.filter(
            |a: MyAsset| located_at(a, spec_location(asset.token_location).unwrap()),
        ),
    ensures
        forall|k: int|
            0 <= k < group.len() ==> (#[trigger] group[k]).has_location && spec_location(
                group[k].token_location,
            ) == spec_location(asset.token_location),
        forall|i: int|
            0 <= i < registry.len() && (#[trigger] registry[i]).has_location && spec_location(
                registry[i].token_location,
            ) == spec_location(asset.token_location) ==> group.contains(registry[i]),
{
    let pred = |a: MyAsset| located_at(a, spec_location(asset.token_location).unwrap());
    assert forall|k: int| 0 <= k < group.len() implies (#[trigger] group[k]).has_location
        && spec_location(group[k].token_location) == spec_location(asset.token_location) by {
        registry.lemma_filter_pred(pred, k);
    }
    assert forall|i: int|
        0 <= i < registry.len() && (#[trigger] registry[i]).has_location && spec_location(
            registry[i].token_location,
        ) == spec_location(asset.token_location) implies group.contains(registry[i]) by {
        registry.lemma_filter_contains(pred, i);
    }
}

/// The first chain match is a chain asset on that chain whose local identifier is the
/// requested JSON value, and no entry before it is one.
pub proof fn lemma_first_chain_match_is_first(registry: Seq<MyAsset>, chain: u64, asset_id: Seq<char>, i: int)
    requires
        is_first_chain_match(registry, chain, asset_id, i),
    ensures
        0 <= i < registry.len(),
        (registry[i].token_data is MyAsset && registry[i].token_data->MyAsset_0.chain == chain && json_values_equal(registry[i].token_data->MyAsset_0.local_id@, asset_id)),
        forall|j: int| 0 <= j < i ==> !((#[trigger] registry[j]).token_data is MyAsset && registry[j].token_data->MyAsset_0.chain == chain && json_values_equal(registry[j].token_data->MyAsset_0.local_id@, asset_id)),
{
    assert forall|j: int| 0 <= j < i implies !((#[trigger] registry[j]).token_data is MyAsset && registry[j].token_data->MyAsset_0.chain == chain && json_values_equal(registry[j].token_data->MyAsset_0.local_id@, asset_id)) by {
        assert(!chain_asset_matches(registry[j], chain, asset_id));
    }
}

/// Some entry matches exactly when some entry is a chain asset on that chain whose local
/// identifier is the requested JSON value.
pub proof fn lemma_chain_match_exists(registry: Seq<MyAsset>, chain: u64, asset_id: Seq<char>)
    ensures
        has_chain_match(registry, chain, asset_id) <==> exists|i: int|
            0 <= i < registry.len() && ((#[trigger] registry[i]).token_data is MyAsset && registry[i].token_data->MyAsset_0.chain == chain && json_values_equal(registry[i].token_data->MyAsset_0.local_id@, asset_id)),
{
    if has_chain_match(registry, chain, asset_id) {
        let i = choose|i: int| 0 <= i < registry.len() && chain_asset_matches(#[trigger] registry[i], chain, asset_id);
        assert((registry[i].token_data is MyAsset && registry[i].token_data->MyAsset_0.chain == chain && json_values_equal(registry[i].token_data->MyAsset_0.local_id@, asset_id)));
    }
    if exists|i: int| 0 <= i < registry.len() && ((#[trigger] registry[i]).token_data is MyAsset && registry[i].token_data->MyAsset_0.chain == chain && json_values_equal(registry[i].token_data->MyAsset_0.local_id@, asset_id)) {
        let i = choose|i: int| 0 <= i < registry.len() && ((#[trigger] registry[i]).token_data is MyAsset && registry[i].token_data->MyAsset_0.chain == chain && json_values_equal(registry[i].token_data->MyAsset_0.local_id@, asset_id));
        assert(chain_asset_matches(registry[i], chain, asset_id));
    }
}

} // verus!

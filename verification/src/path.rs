use vstd::prelude::*;

use crate::asset::MyAsset;
use crate::decimal::{
    compare_decimals, decimal_less, decimal_parts, is_decimal_text, lemma_decimal_le_transitive,
    DecimalOrder,
};

verus! {

/// Declares `bigdecimal::BigDecimal`, which search results carry as their input amount.
#[verifier::external_type_specification]
#[verifier::external_body]
pub struct ExBigDecimal(bigdecimal::BigDecimal);

/// A node of the token graph at the end of a search: the asset it stands for and, for
/// every step of the best path that reaches it, the value held after the step, the kind of
/// step and the step's data.
#[derive(Debug, Clone)]
pub struct GraphNode {
    pub asset_key: String,
    pub asset_name: String,
    /// Decimal texts of the values held after each step of the best path.
    pub path_values: Vec<String>,
    pub path_value_types: Vec<String>,
    /// JSON texts describing each step of the best path.
    pub path_datas: Vec<String>,
}

/// One step of a found path, as the result logs record it.
#[derive(Debug, Clone)]
pub struct PathNode {
    pub node_key: String,
    pub asset_name: String,
    pub path_value: String,
    pub path_type: String,
    pub path_data: String,
}

/// The outcome of one search from one start node.
#[derive(Debug)]
pub struct IsolatedSearchResult {
    pub input_amount: bigdecimal::BigDecimal,
    pub display_string: String,
    pub path_nodes: Vec<PathNode>,
}

/// The target node of a path records a value, a step kind and step data for each node of
/// the path.
pub open spec fn path_well_formed(path: Seq<GraphNode>) -> bool {
    &&& path.len() > 0
    &&& path.last().path_values@.len() >= path.len()
    &&& path.last().path_value_types@.len() >= path.len()
    &&& path.last().path_datas@.len() >= path.len()
}

/// The result node that records step `i` of a path.
pub open spec fn path_node_matches(node: PathNode, path: Seq<GraphNode>, i: int) -> bool {
    &&& node.node_key@ == path[i].asset_key@
    &&& node.asset_name@ == path[i].asset_name@
    &&& node.path_value@ == path.last().path_values@[i]@
    &&& node.path_type@ == path.last().path_value_types@[i]@
    &&& node.path_data@ == path.last().path_datas@[i]@
}

/// Whether the target node of a path records a value, a step kind and step data for each
/// node of the path.
pub fn path_is_well_formed(path: &Vec<GraphNode>) -> (r: bool)
    ensures
        r == path_well_formed(path@),
{
    if path.len() == 0 {
        return false;
    }
    let target = &path[path.len() - 1];
    target.path_values.len() >= path.len() && target.path_value_types.len() >= path.len()
        && target.path_datas.len() >= path.len()
}

/// Turns a path through the token graph into the nodes that the result logs record: node
/// `i` takes the key and name of the `i`-th graph node and the value, step kind and step
/// data that the target node records for step `i`.
pub fn return_path_nodes(path: Vec<GraphNode>) -> (r: Vec<PathNode>)
    requires
        path_well_formed(path@),
    ensures
        r@.len() == path@.len(),
        forall|i: int| 0 <= i < path@.len() ==> path_node_matches(#[trigger] r@[i], path@, i),
        forall|i: int|
            0 <= i < path@.len() ==> {
                &&& (#[trigger] r@[i]).node_key@ == path@[i].asset_key@
                &&& r@[i].asset_name@ == path@[i].asset_name@
                &&& r@[i].path_value@ == path@[path@.len() - 1].path_values@[i]@
                &&& r@[i].path_type@ == path@[path@.len() - 1].path_value_types@[i]@
                &&& r@[i].path_data@ == path@[path@.len() - 1].path_datas@[i]@
            },
{
    let target = &path[path.len() - 1];
    let mut result_log: Vec<PathNode> = Vec::new();
    let mut i: usize = 0;
    while i < path.len()
        invariant
            path_well_formed(path@),
            *target == path@.last(),
            i <= path@.len(),
            result_log@.len() == i,
            forall|k: int| 0 <= k < i ==> path_node_matches(#[trigger] result_log@[k], path@, k),
        decreases path.len() - i,
    {
        let node = &path[i];
        let path_node = PathNode {
            node_key: node.asset_key.clone(),
            asset_name: node.asset_name.clone(),
            path_value: target.path_values[i].clone(),
            path_type: target.path_value_types[i].clone(),
            path_data: target.path_datas[i].clone(),
        };
        result_log.push(path_node);
        i = i + 1;
    }
    result_log
}

/// The start nodes of a target search: all assets at the start asset's location, or only
/// the start asset itself.
pub fn select_start_nodes(
    start_asset: MyAsset,
    xcm_assets: Vec<MyAsset>,
    execute_with_xcm_start_nodes: bool,
) -> (r: Vec<MyAsset>)
    ensures
        r@ == if execute_with_xcm_start_nodes {
            xcm_assets@
        } else {
            seq![start_asset]
        },
{
    if execute_with_xcm_start_nodes {
        xcm_assets
    } else {
        let mut nodes: Vec<MyAsset> = Vec::new();
        nodes.push(start_asset);
        nodes
    }
}

/// The value of the last node of a search result's path, as a decimal text.
pub open spec fn final_path_value(result: IsolatedSearchResult) -> Seq<char> {
    result.path_nodes@.last().path_value@
}

/// Every result has a path whose last value is a decimal number.
pub open spec fn results_comparable(results: Seq<IsolatedSearchResult>) -> bool {
    forall|i: int|
        0 <= i < results.len() ==> {
            &&& (#[trigger] results[i]).path_nodes@.len() > 0
            &&& decimal_parts(final_path_value(results[i])) is Some
        }
}

/// The number that ends the path of a search result.
pub open spec fn final_value(result: IsolatedSearchResult) -> (int, int) {
    decimal_parts(final_path_value(result)).unwrap()
}

/// Result `i` ends with the highest value, and every later result ends lower.
pub open spec fn is_highest_result(results: Seq<IsolatedSearchResult>, i: int) -> bool {
    &&& 0 <= i < results.len()
    &&& forall|j: int|
        0 <= j < results.len() ==> !decimal_less(
            final_value(results[i]),
            final_value(#[trigger] results[j]),
        )
    &&& forall|j: int|
        i < j < results.len() ==> decimal_less(
            final_value(#[trigger] results[j]),
            final_value(results[i]),
        )
}

fn final_value_text(result: &IsolatedSearchResult) -> (r: &str)
    requires
        result.path_nodes@.len() > 0,
    ensures
        r@ == final_path_value(*result),
{
    result.path_nodes[result.path_nodes.len() - 1].path_value.as_str()
}

/// The search result whose path ends with the highest value; among equally high results
/// the last one. Every result must have a path that ends with a decimal value.
pub fn highest_search_result(search_results: Vec<IsolatedSearchResult>) -> (r: IsolatedSearchResult)
    requires
        search_results@.len() > 0,
        results_comparable(search_results@),
    ensures
        exists|i: int| is_highest_result(search_results@, i) && r == search_results@[i],
        exists|i: int|
            0 <= i < search_results@.len() && r == search_results@[i] && (forall|j: int|
                0 <= j < search_results@.len() ==> !decimal_less(
                    decimal_parts(search_results@[i].path_nodes@.last().path_value@).unwrap(),
                    decimal_parts((#[trigger] search_results@[j]).path_nodes@.last().path_value@).unwrap(),
                )) && (forall|j: int|
                i < j < search_results@.len() ==> decimal_less(
                    decimal_parts((#[trigger] search_results@[j]).path_nodes@.last().path_value@).unwrap(),
                    decimal_parts(search_results@[i].path_nodes@.last().path_value@).unwrap(),
                )),
{
    let ghost results = search_results@;
    let mut best: usize = 0;
    let mut k: usize = 1;
    while k < search_results.len()
        invariant
            results == search_results@,
            results.len() > 0,
            results_comparable(results),
            best < k <= results.len(),
            forall|j: int|
                0 <= j < k ==> !decimal_less(
                    final_value(results[best as int]),
                    final_value(#[trigger] results[j]),
                ),
            forall|j: int|
                best < j < k ==> decimal_less(
                    final_value(#[trigger] results[j]),
                    final_value(results[best as int]),
                ),
        decreases results.len() - k,
    {
        assert(results[best as int].path_nodes@.len() > 0);
        assert(results[k as int].path_nodes@.len() > 0);
        let order = compare_decimals(
            final_value_text(&search_results[best]),
            final_value_text(&search_results[k]),
        ).unwrap();
        match order {
            DecimalOrder::Greater => {},
            _ => {
                proof {
                    let b = final_value(results[best as int]);
                    let y = final_value(results[k as int]);
                    assert(!decimal_less(y, b));
                    assert forall|j: int| 0 <= j < k + 1 implies !decimal_less(
                        y,
                        final_value(#[trigger] results[j]),
                    ) by {
                        if j < k {
                            lemma_decimal_le_transitive(final_value(results[j]), b, y);
                        }
                    }
                }
                best = k;
            },
        }
        k = k + 1;
    }
    let mut all = search_results;
    all.swap_remove(best)
}

/// The search result whose path ends with the highest value (the last among equally high
/// ones), or `None` where there is no result or some result has no path that ends with a
/// decimal value.
pub fn try_highest_search_result(search_results: Vec<IsolatedSearchResult>) -> (r: Option<IsolatedSearchResult>)
    ensures
        r is Some <==> (search_results@.len() > 0 && results_comparable(search_results@)),
        r matches Some(best) ==> exists|i: int|
            is_highest_result(search_results@, i) && best == search_results@[i],
{
    if search_results.len() == 0 {
        return None;
    }
    let mut i: usize = 0;
    while i < search_results.len()
        invariant
            i <= search_results@.len(),
            forall|j: int|
                0 <= j < i ==> {
                    &&& (#[trigger] search_results@[j]).path_nodes@.len() > 0
                    &&& decimal_parts(final_path_value(search_results@[j])) is Some
                },
        decreases search_results.len() - i,
    {
        if search_results[i].path_nodes.len() == 0 {
            return None;
        }
        if !is_decimal_text(final_value_text(&search_results[i])) {
            return None;
        }
        i = i + 1;
    }
    Some(highest_search_result(search_results))
}

} // verus!

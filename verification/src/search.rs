//! The layer-search query text: one template, instantiated either for the
//! full listing (ids, descriptions, kind flags) or for name-only
//! autocompletion.  Running the statement is database work outside this
//! library; the text itself is exact.

use vstd::prelude::*;
use vstd::string::StringExecFns;

verus! {

/// The text of the recursive search statement over a collection subtree.
pub open spec fn spec_search_query(full_info: bool) -> Seq<char> {
    let collection_columns = if full_info {
        "concat(id, '') AS id, name, description, properties, FALSE AS is_layer"@
    } else {
        "name"@
    };
    let layer_columns = if full_info {
        "concat(id, '') AS id, name, description, properties, TRUE AS is_layer"@
    } else {
        "name"@
    };
    let order_prefix = if full_info {
        "is_layer ASC,"@
    } else {
        ""@
    };
    "WITH RECURSIVE parents AS (SELECT $1::uuid AS id UNION ALL SELECT DISTINCT child FROM collection_children JOIN parents ON (id = parent)) SELECT DISTINCT * FROM (SELECT "@
        + collection_columns
        + " FROM user_permitted_layer_collections u JOIN layer_collections lc ON (u.layer_collection_id = lc.id) JOIN (SELECT DISTINCT child FROM collection_children JOIN parents ON (id = parent)) cc ON (id = cc.child) WHERE u.user_id = $4 AND name ILIKE $5) u UNION (SELECT "@
        + layer_columns
        + " FROM user_permitted_layers ul JOIN layers uc ON (ul.layer_id = uc.id) JOIN (SELECT DISTINCT layer FROM collection_layers JOIN parents ON (collection = id)) cl ON (id = cl.layer) WHERE ul.user_id = $4 AND name ILIKE $5) ORDER BY "@
        + order_prefix + " name ASC LIMIT $2 OFFSET $3;"@
}

/// Builds the search statement, with the full column list or names only.
pub fn create_search_query(full_info: bool) -> (r: String)
    ensures
        r@ == spec_search_query(full_info),
{
    let mut q = String::from_str(
        "WITH RECURSIVE parents AS (SELECT $1::uuid AS id UNION ALL SELECT DISTINCT child FROM collection_children JOIN parents ON (id = parent)) SELECT DISTINCT * FROM (SELECT ",
    );
    if full_info {
        q.append("concat(id, '') AS id, name, description, properties, FALSE AS is_layer");
    } else {
        q.append("name");
    }
    q.append(
        " FROM user_permitted_layer_collections u JOIN layer_collections lc ON (u.layer_collection_id = lc.id) JOIN (SELECT DISTINCT child FROM collection_children JOIN parents ON (id = parent)) cc ON (id = cc.child) WHERE u.user_id = $4 AND name ILIKE $5) u UNION (SELECT ",
    );
    if full_info {
        q.append("concat(id, '') AS id, name, description, properties, TRUE AS is_layer");
    } else {
        q.append("name");
    }
    q.append(
        " FROM user_permitted_layers ul JOIN layers uc ON (ul.layer_id = uc.id) JOIN (SELECT DISTINCT layer FROM collection_layers JOIN parents ON (collection = id)) cl ON (id = cl.layer) WHERE ul.user_id = $4 AND name ILIKE $5) ORDER BY ",
    );
    if full_info {
        q.append("is_layer ASC,");
    } else {
        q.append("");
    }
    q.append(" name ASC LIMIT $2 OFFSET $3;");
    q
}

} // verus!

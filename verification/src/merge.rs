//! Placing an outbound into a configuration template.

use crate::json::{items_view, Json, JsonView};
use vstd::prelude::*;

verus! {

/// The list `outbounds` of a template, where the template is an object that
/// has such a list.
pub open spec fn outbounds_of(total: JsonView) -> Option<Seq<JsonView>> {
    match total {
        JsonView::Object(m) => if m.contains_key("outbounds"@) && m["outbounds"@] is Array {
            Some(m["outbounds"@]->Array_0)
        } else {
            None
        },
        _ => None,
    }
}

/// A list with `item` at `index`: in place of the element there, or, at
/// and past the end of the list, as a new last element.
pub open spec fn placed_at(list: Seq<JsonView>, index: int, item: JsonView) -> Seq<JsonView> {
    if 0 <= index < list.len() {
        list.update(index, item)
    } else {
        list.push(item)
    }
}

/// The template with the outbound at `index` of its list `outbounds`; the
/// outbound alone where the template has no such list.
pub open spec fn merged(total: JsonView, index: int, proxy: JsonView) -> JsonView {
    match outbounds_of(total) {
        Some(list) => JsonView::Object(
            total->Object_0.insert("outbounds"@, JsonView::Array(placed_at(list, index, proxy))),
        ),
        None => proxy,
    }
}

/// Places an outbound at `insert_index` of the list `outbounds` of a
/// template. Within the list it takes the place of the element there; at and
/// past the end of the list it is added as the last element. A template
/// without such a list is dropped, and the outbound stands alone.
pub fn gen_config_json_dict(total: Json, insert_index: usize, proxy: Json) -> (doc: Json)
    ensures
        doc@ == merged(total@, insert_index as int, proxy@),
{
    match total {
        Json::Object(mut m) => {
            let copy: Option<Json> = match m.get("outbounds") {
                Some(found) => match found {
                    Json::Array(_) => Some(found.clone()),
                    _ => None,
                },
                None => None,
            };
            match copy {
                Some(Json::Array(mut list)) => {
                    let ghost before = items_view(list@);
                    if insert_index < list.len() {
                        list.set(insert_index, proxy);
                    } else {
                        list.push(proxy);
                    }
                    assert(items_view(list@) =~= placed_at(before, insert_index as int, proxy@));
                    m.insert("outbounds", Json::Array(list));
                    Json::Object(m)
                },
                _ => proxy,
            }
        },
        _ => proxy,
    }
}

/// Placing an outbound at index 0 of a list with at most one element leaves
/// a list that holds the outbound and nothing else: it is added to an empty
/// list, and takes the place of the only element.
pub proof fn lemma_merge_first(total: JsonView, proxy: JsonView)
    requires
        outbounds_of(total) matches Some(list) && list.len() <= 1,
    ensures
        outbounds_of(merged(total, 0, proxy)) == Some(seq![proxy]),
        merged(total, 0, proxy) == JsonView::Object(
            total->Object_0.insert("outbounds"@, JsonView::Array(seq![proxy])),
        ),
{
    let list = outbounds_of(total)->0;
    assert(placed_at(list, 0, proxy) =~= seq![proxy]);
}

/// Placing an outbound at or past the end of the list adds it as the last
/// element, whatever the index.
pub proof fn lemma_merge_past_end(total: JsonView, index: int, proxy: JsonView)
    requires
        outbounds_of(total) matches Some(list) && index >= list.len(),
    ensures
        outbounds_of(merged(total, index, proxy)) == Some(outbounds_of(total)->0.push(proxy)),
{
}

/// A template without a list `outbounds` is dropped.
pub proof fn lemma_merge_without_list(total: JsonView, index: int, proxy: JsonView)
    requires
        outbounds_of(total) is None,
    ensures
        merged(total, index, proxy) == proxy,
{
}

} // verus!

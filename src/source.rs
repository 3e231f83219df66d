//! The address at which the source serves the items of a collection.

use vstd::prelude::*;

use crate::cursor::opt_view;

verus! {

/// The items endpoint of collection `id` of the API rooted at `src`, as
/// stac-api builds it, or `None` where `src` or the joined URL does not parse.
pub uninterp spec fn source_items_url_of(src: Seq<char>, id: Seq<char>) -> Option<Seq<char>>;

/// Relies on stac_api::UrlBuilder::new and UrlBuilder::items: the root URL
/// `src` (given a trailing `/`) joined with `collections/<id>/items`, which
/// depends on the two strings alone.
#[verifier::external_body]
pub(crate) fn source_items_url(src: &str, id: &str) -> (r: Option<String>)
    ensures
        opt_view(&r) == source_items_url_of(src@, id@),
{
    match stac_api::UrlBuilder::new(src) {
        Ok(builder) => match builder.items(id) {
            Ok(url) => Some(url.to_string()),
            Err(_) => None,
        },
        Err(_) => None,
    }
}

} // verus!

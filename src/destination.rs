//! The destination side: splitting a collection URL into the collections
//! endpoint and the collection id, and the endpoints derived from them.

use vstd::prelude::*;
use vstd::string::*;

verus! {

/// A fatal error of a replication run.
#[derive(PartialEq, Eq, Structural, Clone, Copy, Debug)]
pub enum RunError {
    /// The destination URL has no `/` to split it at.
    Config,
    /// The source URL does not give an items endpoint for the collection.
    SourceUrl,
    /// Creating the destination collection failed.
    Provision,
    /// Fetching or decoding a page of the source failed.
    Read,
    /// Creating an item at the destination failed.
    Write,
    /// The run was interrupted from outside.
    Interrupted,
}

/// The position of the last `/` in `s`, if any.
pub open spec fn last_slash(s: Seq<char>) -> Option<int>
    decreases s.len(),
{
    if s.len() == 0 {
        None
    } else if s.last() == '/' {
        Some(s.len() - 1)
    } else {
        last_slash(s.drop_last())
    }
}

/// The request that creates the destination collection: it is posted to the
/// collections endpoint, with the collection's id as its id and its title.
pub struct CollectionRequest {
    pub collections_url: String,
    pub id: String,
    pub title: String,
}

/// `s` split at the position `i` of its last `/`, the `/` itself left out.
pub open spec fn request_at(s: Seq<char>, i: int, r: CollectionRequest) -> bool {
    &&& r.collections_url@ == s.subrange(0, i)
    &&& r.id@ == s.subrange(i + 1, s.len() as int)
    &&& r.title@ == r.id@
}

/// Splits `dst`, a URL of the form `<collections-url>/<collection-id>`, at its
/// last `/`. Fails with `Config` exactly when `dst` holds no `/`.
pub fn collection_request(dst: &str) -> (r: Result<CollectionRequest, RunError>)
    ensures
        match last_slash(dst@) {
            None => r == Err::<CollectionRequest, RunError>(RunError::Config),
            Some(i) => r matches Ok(req) && request_at(dst@, i, req),
        },
{
    let n = dst.unicode_len();
    let mut i: usize = n;
    assert(dst@.subrange(0, n as int) =~= dst@);
    while i > 0
        invariant
            i <= n,
            n == dst@.len(),
            last_slash(dst@) == last_slash(dst@.subrange(0, i as int)),
        decreases i,
    {
        if dst.get_char(i - 1) == '/' {
            proof {
                let pre = dst@.subrange(0, i as int);
                assert(pre.last() == '/');
            }
            let base = dst.substring_char(0, i - 1).to_string();
            let id = dst.substring_char(i, n).to_string();
            let title = id.clone();
            return Ok(CollectionRequest { collections_url: base, id, title });
        }
        proof {
            let pre = dst@.subrange(0, i as int);
            assert(pre.drop_last() =~= dst@.subrange(0, i - 1));
        }
        i = i - 1;
    }
    proof {
        assert(dst@.subrange(0, 0) =~= Seq::<char>::empty());
    }
    Err(RunError::Config)
}

/// The endpoint at which the items of a collection are created.
pub open spec fn items_endpoint(collections_url: Seq<char>, id: Seq<char>) -> Seq<char> {
    collections_url + seq!['/'] + id + seq!['/', 'i', 't', 'e', 'm', 's']
}

/// `<collections-url>/<collection-id>/items`.
pub fn items_url(req: &CollectionRequest) -> (r: String)
    ensures
        r@ == items_endpoint(req.collections_url@, req.id@),
{
    let mut u = req.collections_url.clone();
    u.append("/");
    u.append(req.id.as_str());
    u.append("/items");
    proof {
        reveal_strlit("/");
        reveal_strlit("/items");
        assert(u@ =~= items_endpoint(req.collections_url@, req.id@));
    }
    u
}

} // verus!

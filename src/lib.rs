//! Replication of the items of a paged catalog search into a destination
//! collection: a cursor that follows `next` links page by page, the split of
//! the destination URL into collections endpoint and collection id, and the
//! decisions of a replication run as a state machine whose I/O is performed
//! by the caller.

pub mod cursor;
pub mod destination;
pub mod run;
pub mod source;

use vstd::prelude::*;

verus! {

/// The inputs of a replication run: the root URL of the source API, the destination
/// collection URL, and a bulk flag reserved for a bulk-write mode that has no
/// effect on the run yet.
pub struct Args {
    pub src: String,
    pub dst: String,
    pub bulk: bool,
}

} // verus!

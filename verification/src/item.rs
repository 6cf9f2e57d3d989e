//! Plain data carried by the item endpoints. The item handlers themselves are
//! transport glue and live outside the library.

use vstd::prelude::*;

verus! {

/// Payload for creating an item: just its name.
#[derive(Clone, Debug)]
pub struct NewItem {
    pub name: String,
}

} // verus!

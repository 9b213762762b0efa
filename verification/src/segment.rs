//! What a segment hands to the status line.

use vstd::prelude::*;

verus! {

/// The text a segment shows and the details it reports alongside, as
/// key–value pairs in the order they were set.
pub struct SegmentData {
    pub primary: String,
    pub secondary: String,
    pub metadata: Vec<(String, String)>,
}

/// The views of key–value pairs.
pub open spec fn pairs_view(pairs: Seq<(String, String)>) -> Seq<(Seq<char>, Seq<char>)> {
    pairs.map_values(|p: (String, String)| (p.0@, p.1@))
}

} // verus!

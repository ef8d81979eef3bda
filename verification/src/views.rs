//! Views shared by the modules.

use vstd::prelude::*;

verus! {

/// The characters of each string of a sequence, in order.
pub open spec fn strings_view(strings: Seq<String>) -> Seq<Seq<char>> {
    strings.map_values(|s: String| s@)
}

} // verus!

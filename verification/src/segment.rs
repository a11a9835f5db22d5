use vstd::prelude::*;
use crate::text::{append_str, copy_str};

verus! {

/// A titled segment of the output.
pub struct Segment {
    pub title: String,
}

impl Segment {
    /// A segment with an empty title.
    pub fn new() -> (r: Segment)
        ensures
            r.title@ == Seq::<char>::empty(),
    {
        Segment { title: String::new() }
    }

    /// The segment as it is shown: `------` followed by its title.
    pub fn to_display_string(&self) -> (r: String)
        ensures
            r@ == "------"@ + self.title@,
    {
        let mut r = copy_str("------");
        append_str(&mut r, self.title.as_str());
        r
    }
}

} // verus!

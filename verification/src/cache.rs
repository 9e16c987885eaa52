use vstd::prelude::*;

verus! {

/// A local cache location, kept as a plain directory path.
pub struct Cache {
    pub root_dir: String,
}

impl Cache {
    pub fn new(root_dir: String) -> (c: Cache)
        ensures
            c.root_dir@ == root_dir@,
    {
        Cache { root_dir }
    }
}

} // verus!

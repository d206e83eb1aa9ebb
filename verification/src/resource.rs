//! A named external resource reference: where an asset lives and what it is
//! called.

use vstd::prelude::*;

verus! {

/// An asset reference by name and file path.
pub struct Resource {
    name: String,
    path: String,
}

impl Resource {
    /// What the asset is called, as a spec value.
    pub closed spec fn spec_name(&self) -> Seq<char> {
        self.name@
    }

    /// Where the asset lives, as a spec value.
    pub closed spec fn spec_path(&self) -> Seq<char> {
        self.path@
    }

    /// A reference to the asset called `name` stored at `path`.
    pub fn new(name: String, path: String) -> (r: Self)
        ensures
            r.spec_name() == name@,
            r.spec_path() == path@,
    {
        Resource { name, path }
    }

    /// Where the asset lives.
    pub fn path(&self) -> (r: &String)
        ensures
            r@ == self.spec_path(),
    {
        &self.path
    }

    /// What the asset is called.
    pub fn name(&self) -> (r: &String)
        ensures
            r@ == self.spec_name(),
    {
        &self.name
    }
}

} // verus!

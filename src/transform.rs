//! The per-entry transform applied to every regular file before it is written.
use vstd::prelude::*;

verus! {

/// A function from an entry's content and relative name to new content and a
/// new name, or a failure. It must depend on its arguments alone.
pub trait EntryTransform {
    /// What `apply` returns for `data` and `name`; `None` is a failure.
    spec fn spec_apply(&self, data: Seq<u8>, name: Seq<char>) -> Option<(Seq<u8>, Seq<char>)>;

    fn apply(&self, data: Vec<u8>, name: String) -> (r: Option<(Vec<u8>, String)>)
        ensures
            match r {
                Some(out) => self.spec_apply(data@, name@) == Some((out.0@, out.1@)),
                None => self.spec_apply(data@, name@) is None,
            },
    ;
}

/// The transform that hands every entry back unchanged.
pub struct Identity;

impl EntryTransform for Identity {
    open spec fn spec_apply(&self, data: Seq<u8>, name: Seq<char>) -> Option<(Seq<u8>, Seq<char>)> {
        Some((data, name))
    }

    fn apply(&self, data: Vec<u8>, name: String) -> (r: Option<(Vec<u8>, String)>) {
        Some((data, name))
    }
}

} // verus!

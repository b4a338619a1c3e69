use vstd::prelude::*;
use vstd::std_specs::convert::FromSpecImpl;

verus! {

/// A raw handle to a file in the virtual file system: the row identifier of its entry.
///
/// A handle is a weak reference. It is copied freely, keeps nothing alive, and dangles as
/// soon as its entry is deleted. Two handles are equal exactly if their integers are.
#[derive(Clone, Copy, Debug, PartialOrd, PartialEq, Eq, Ord, Structural)]
pub struct Handle(pub i64);

impl From<i64> for Handle {
    fn from(raw_value: i64) -> (handle: Handle) {
        Handle(raw_value)
    }
}

impl FromSpecImpl<i64> for Handle {
    open spec fn obeys_from_spec() -> bool {
        true
    }

    open spec fn from_spec(raw_value: i64) -> Handle {
        Handle(raw_value)
    }
}

} // verus!

//! Sharing of values behind reference-counted handles.
use vstd::prelude::*;
use std::rc::Rc;

verus! {

/// Another handle on the value that `rc` holds. This calls `Rc::clone`, which
/// makes a new pointer to the same allocation: the value behind the new
/// handle is the value behind the old one.
#[verifier::external_body]
pub(crate) fn share<T>(rc: &Rc<T>) -> (r: Rc<T>)
    ensures
        *r == **rc,
{
    Rc::clone(rc)
}

} // verus!

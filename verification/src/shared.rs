use vstd::prelude::*;
use std::sync::Arc;

verus! {

/// `Arc::get_mut`: exclusive access to the shared value where this is the only handle to
/// it, and `None` where there are others. Which of the two comes back depends on the handles
/// that exist when the call is made.
#[verifier::external_body]
pub(crate) fn arc_get_mut<T>(handle: &mut Arc<T>) -> (slot: Option<&mut T>)
    ensures
        slot matches Some(value) ==> *value == **old(handle) && **final(handle) == *final(value),
        slot is None ==> **final(handle) == **old(handle),
{
    Arc::get_mut(handle)
}

/// `Arc::clone`: one more handle to the same value.
#[verifier::external_body]
pub(crate) fn arc_clone<T>(handle: &Arc<T>) -> (other: Arc<T>)
    ensures
        other == *handle,
{
    Arc::clone(handle)
}

/// The handles of a list, each once more.
pub(crate) fn clone_handles<T>(handles: &[Arc<T>]) -> (copy: Vec<Arc<T>>)
    ensures
        copy@ == handles@,
{
    let mut copy: Vec<Arc<T>> = Vec::new();
    let mut i: usize = 0;
    while i < handles.len()
        invariant
            i <= handles.len(),
            copy@ == handles@.take(i as int),
        decreases handles.len() - i,
    {
        copy.push(arc_clone(&handles[i]));
        assert(handles@.take(i + 1) =~= handles@.take(i as int).push(handles@[i as int]));
        i += 1;
    }
    assert(handles@.take(i as int) =~= handles@);
    copy
}

} // verus!

//! The thinker list: the per-tic functions registered for movers and effects.

use vstd::prelude::*;
use crate::types::ActionFn;

verus! {

/// One registered thinker: the function it runs and the index of its data
/// in the store for that kind of thinker.
#[derive(Clone, Copy, Debug, PartialEq, Eq, Structural)]
pub struct ThinkerEntry {
    pub function: ActionFn,
    pub data: usize,
}

/// The list of registered thinkers, in registration order.
pub struct ThinkerList {
    pub entries: Vec<ThinkerEntry>,
}

impl ThinkerList {
    /// An empty list.
    pub fn new() -> (r: ThinkerList)
        ensures
            r.entries@ == Seq::<ThinkerEntry>::empty(),
    {
        ThinkerList { entries: Vec::new() }
    }
}

/// `P_AddThinker`: register a thinker running `function` on data `data`
/// at the end of the list.
pub fn p_add_thinker(list: &mut ThinkerList, function: ActionFn, data: usize)
    ensures
        final(list).entries@ == old(list).entries@.push(ThinkerEntry { function, data }),
{
    list.entries.push(ThinkerEntry { function, data });
}

} // verus!

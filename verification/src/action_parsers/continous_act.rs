use vstd::prelude::*;

verus! {

/// Action parser that passes continuous controls through, clipped to `[-1, 1]`.
#[derive(Clone, Copy, Debug, Default)]
pub struct ContinuousAction;

impl ContinuousAction {
    pub fn new() -> (a: ContinuousAction)
        ensures
            a == ContinuousAction,
    {
        ContinuousAction
    }

    /// The action space of continuous controls is left unspecified: it is empty.
    pub fn get_action_space(&self) -> (space: Vec<usize>)
        ensures
            space@.len() == 0,
    {
        Vec::new()
    }
}

} // verus!

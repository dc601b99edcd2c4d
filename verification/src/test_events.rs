//! The plain digging rule: what is dug out is gone.

use vstd::prelude::*;
use crate::systems::interactions::{DiggingState, Override};

verus! {

/// Decides what a digging message does to a block where nothing but the block
/// matters: when the digging is done, it is air.
pub fn test_system(state: DiggingState, position: (i32, i32, i32), air: u16) -> (r: Option<
    Override,
>)
    ensures
        r == (if state == DiggingState::Stop {
            Some((position, air))
        } else {
            None
        }),
{
    match state {
        DiggingState::Stop => Some((position, air)),
        _ => None,
    }
}

} // verus!

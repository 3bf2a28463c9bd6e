use vstd::prelude::*;
use crate::app::{App, Plugin};
use crate::system::OpSystem;

verus! {

/// Set-up composition unit for transform propagation.  The update system it
/// will register is not scheduled yet, so the driver passes through
/// unchanged.
pub struct TransformPlugin;

impl Plugin<OpSystem> for TransformPlugin {
    fn build(&self, app: App<OpSystem>) -> (out: App<OpSystem>) {
        app
    }
}

} // verus!

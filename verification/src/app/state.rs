use vstd::prelude::*;

verus! {

/// The screens of the reader; the app keeps a stack of them.
#[derive(Debug, Clone, Copy, PartialEq, Eq, Structural)]
pub enum Screen {
    Root,
    Login,
    /// Hot list, feed or search results.
    List,
    Detail,
    Comments,
    Help,
}

} // verus!

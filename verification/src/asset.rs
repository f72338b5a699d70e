//! The fonts of a cart.
use vstd::prelude::*;

use crate::plan::AppPlan;

verus! {

/// A font that `print` can use; `S` names where the font comes from.
#[derive(Debug, Clone)]
pub struct N9Font<S> {
    pub source: S,
}

/// The registrations of cart assets: none of their own.
pub fn plugin(app: &mut AppPlan)
    ensures
        *final(app) == *old(app),
{
}

} // verus!

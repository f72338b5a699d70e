//! How a script names a map object whose properties it wants.
use vstd::prelude::*;

use crate::plan::{add_script_functions, script_steps, AppPlan};

verus! {

/// Picks map objects for their properties: at a position, within a rectangle
/// (its two corners), or by name; `V` is a 2D position.
#[derive(Debug, Clone)]
pub enum PropBy<V> {
    Pos(V),
    Rect { min: V, max: V },
    Name(String),
}

impl<V> From<String> for PropBy<V> {
    fn from(v: String) -> (r: PropBy<V>) {
        PropBy::Name(v)
    }
}

impl<V> vstd::std_specs::convert::FromSpecImpl<String> for PropBy<V> {
    open spec fn obeys_from_spec() -> bool {
        true
    }

    open spec fn from_spec(v: String) -> PropBy<V> {
        PropBy::Name(v)
    }
}

/// The registrations of levels: the script functions that read object
/// properties, when carts are scripted and levels are supported.
pub fn plugin(app: &mut AppPlan)
    ensures
        final(app).same_features(*old(app)),
        final(app).steps@ == old(app).steps@ + script_steps(
            old(app).scripting && old(app).level,
            seq!["mgetp", "props"],
        ),
{
    let names: [&'static str; 2] = ["mgetp", "props"];
    assert(names@ =~= seq!["mgetp", "props"]);
    let enabled = app.scripting && app.level;
    add_script_functions(app, enabled, &names);
}

} // verus!

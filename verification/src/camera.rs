//! The 2D camera that shows the canvas, and where it looks.
use vstd::prelude::*;

use crate::plan::{add_script_functions, script_steps, AppPlan};

verus! {

/// Tags the camera that shows the canvas.
#[derive(Debug, Clone, Copy, PartialEq, Eq, Structural)]
pub struct Nano9Camera;

/// Pico-8 `camera([pos])`: moves the camera to `pos` when given, and returns
/// the position it had before; `V` is a 2D position.
pub fn camera<V: Copy>(camera_position: &mut V, pos: Option<V>) -> (r: V)
    ensures
        r == *old(camera_position),
        *final(camera_position) == match pos {
            Some(p) => p,
            None => *old(camera_position),
        },
{
    let last = *camera_position;
    match pos {
        Some(p) => {
            *camera_position = p;
        },
        None => {},
    }
    last
}

/// The registrations of the camera: its script function.
pub fn plugin(app: &mut AppPlan)
    ensures
        final(app).same_features(*old(app)),
        final(app).steps@ == old(app).steps@ + script_steps(old(app).scripting, seq!["_camera"]),
{
    let names: [&'static str; 1] = ["_camera"];
    assert(names@ =~= seq!["_camera"]);
    let enabled = app.scripting;
    add_script_functions(app, enabled, &names);
}

} // verus!

//! The canvas: the marker types of its two background layers, and what it registers.
use vstd::prelude::*;

use crate::plan::{add_script_functions, runs_after, script_steps, AppPlan, Schedule, Setup};

verus! {

/// Tags the indexed canvas image behind all drawing.
#[derive(Debug, Clone, Copy, PartialEq, Eq, Structural)]
pub struct Background;

/// Tags the one-colour layer behind the canvas, coloured by `cls`.
#[derive(Debug, Clone, Copy, PartialEq, Eq, Structural)]
pub struct OneColorBackground;

/// The registrations of the canvas: the camera and canvas set-up before each
/// update (in that order), the window-size sync when there are windows, and
/// the script functions that clear and plot.
pub fn plugin(app: &mut AppPlan)
    ensures
        final(app).same_features(*old(app)),
        final(app).steps@ == old(app).steps@ + seq![
            Setup::System(Schedule::PreUpdate, "spawn_camera"),
            Setup::SystemAfter(Schedule::PreUpdate, "setup_canvas", "spawn_camera"),
        ] + (if old(app).windowed {
            seq![Setup::System(Schedule::Update, "sync_window_size")]
        } else {
            Seq::empty()
        }) + script_steps(old(app).scripting, seq!["cls", "pset"]),
        runs_after(final(app).steps@, Schedule::PreUpdate, "setup_canvas", "spawn_camera"),
{
    app.add(Setup::System(Schedule::PreUpdate, "spawn_camera"));
    app.add(Setup::SystemAfter(Schedule::PreUpdate, "setup_canvas", "spawn_camera"));
    let ghost s1 = app.steps@;
    let ghost k = (s1.len() - 1) as int;
    assert(s1[k] == Setup::SystemAfter(Schedule::PreUpdate, "setup_canvas", "spawn_camera"));
    if app.windowed {
        app.add(Setup::System(Schedule::Update, "sync_window_size"));
    }
    let ghost s2 = app.steps@;
    proof {
        if !old(app).windowed {
            assert(s2 =~= s1 + Seq::<Setup>::empty());
        }
    }
    let names: [&'static str; 2] = ["cls", "pset"];
    assert(names@ =~= seq!["cls", "pset"]);
    let enabled = app.scripting;
    add_script_functions(app, enabled, &names);
    assert(app.steps@[k] == s1[k]);
}

} // verus!

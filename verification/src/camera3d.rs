//! The optional 3D camera and the commands that move it.
use vstd::prelude::*;

use crate::plan::{add_script_functions, script_steps, AppPlan, Schedule, Setup};

verus! {

/// Tags the optional 3D camera.
#[derive(Debug, Clone, Copy, PartialEq, Eq, Structural)]
pub struct Nano9Camera3d;

/// A command to the 3D camera; `V` is a 3D vector.
#[derive(Debug, Clone, Copy)]
pub enum Camera3dCommand<V> {
    /// Turn the camera on or off.
    Activate { active: bool },
    /// Move the camera to a position.
    Goto { position: V },
    /// Turn the camera to look at a position.
    LookAt { position: V },
    /// Turn the camera to look in a direction.
    LookTo { direction: V },
}

/// What to do with this frame's camera commands.
#[derive(Debug)]
pub enum Camera3dUpdate<V> {
    /// There are none.
    Idle,
    /// There is no 3D camera yet: make one; the commands, handed back unread,
    /// wait for the next frame.
    SpawnCamera(Vec<Camera3dCommand<V>>),
    /// Apply the commands to the camera, in order.
    Apply(Vec<Camera3dCommand<V>>),
}

/// Decides what this frame's camera commands do: nothing without commands; a
/// new camera when there is none, the commands kept for the next frame; else
/// they apply in order.
pub fn update_camera3d<V>(events: Vec<Camera3dCommand<V>>, has_camera: bool) -> (r: Camera3dUpdate<
    V,
>)
    ensures
        events@.len() == 0 ==> r is Idle,
        events@.len() > 0 && !has_camera ==> (r matches Camera3dUpdate::SpawnCamera(cmds) && cmds@
            == events@),
        events@.len() > 0 && has_camera ==> (r matches Camera3dUpdate::Apply(cmds) && cmds@
            == events@),
{
    if events.len() == 0 {
        Camera3dUpdate::Idle
    } else if !has_camera {
        Camera3dUpdate::SpawnCamera(events)
    } else {
        Camera3dUpdate::Apply(events)
    }
}

/// Pico-8 style `camera3d([position], [look])`: the commands that move the
/// camera to `position`, then turn it to look at `look`, each when given.
pub fn camera3d<V: Copy>(position: Option<V>, look: Option<V>) -> (r: Vec<Camera3dCommand<V>>)
    ensures
        r@ == (match position {
            Some(p) => seq![Camera3dCommand::Goto { position: p }],
            None => Seq::empty(),
        }) + (match look {
            Some(l) => seq![Camera3dCommand::LookAt { position: l }],
            None => Seq::empty(),
        }),
{
    let mut r = Vec::new();
    match position {
        Some(p) => r.push(Camera3dCommand::Goto { position: p }),
        None => {},
    }
    let ghost first = r@;
    match look {
        Some(l) => r.push(Camera3dCommand::LookAt { position: l }),
        None => {},
    }
    proof {
        match look {
            Some(l) => assert(r@ =~= first + seq![Camera3dCommand::LookAt { position: l }]),
            None => assert(r@ =~= first + Seq::<Camera3dCommand<V>>::empty()),
        }
    }
    r
}

/// The command that turns the 3D camera on or off.
pub fn camera3d_active<V>(active: bool) -> (r: Camera3dCommand<V>)
    ensures
        r == (Camera3dCommand::<V>::Activate { active }),
{
    Camera3dCommand::Activate { active }
}

/// The registrations of the 3D camera: its type, its command message, the
/// system that applies the commands, and its script function.
pub fn plugin(app: &mut AppPlan)
    ensures
        final(app).same_features(*old(app)),
        final(app).steps@ == old(app).steps@ + seq![
            Setup::Reflect("Nano9Camera3d"),
            Setup::Message("Camera3dCommand"),
            Setup::System(Schedule::Update, "update_camera3d"),
        ] + script_steps(old(app).scripting, seq!["camera3d"]),
{
    app.add(Setup::Reflect("Nano9Camera3d"));
    app.add(Setup::Message("Camera3dCommand"));
    app.add(Setup::System(Schedule::Update, "update_camera3d"));
    let names: [&'static str; 1] = ["camera3d"];
    assert(names@ =~= seq!["camera3d"]);
    let enabled = app.scripting;
    add_script_functions(app, enabled, &names);
}

} // verus!

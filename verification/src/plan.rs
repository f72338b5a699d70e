//! What each part of the console asks of the application when it starts: its
//! resources, messages, assets, systems and scripting functions. The
//! application reads the plan and makes the registrations.
use vstd::prelude::*;

verus! {

/// When in the frame a system runs.
#[derive(Debug, Clone, Copy, PartialEq, Eq, Structural)]
pub enum Schedule {
    PreStartup,
    Startup,
    PreUpdate,
    Update,
    PostUpdate,
    Last,
}

/// One registration, by the name of what is registered.
#[derive(Debug, Clone, Copy)]
pub enum Setup {
    /// A resource, initialised to its default.
    Resource(&'static str),
    /// A message (event) type.
    Message(&'static str),
    /// An asset type.
    Asset(&'static str),
    /// An asset loader; later loaders are tried last.
    AssetLoader(&'static str),
    /// An observer.
    Observer(&'static str),
    /// A system in a schedule.
    System(Schedule, &'static str),
    /// A system in a schedule that runs after another system of it: the
    /// second name is the system it follows.
    SystemAfter(Schedule, &'static str, &'static str),
    /// A function that scripts can call, by its script name.
    ScriptFunction(&'static str),
    /// A type made known to reflection.
    Reflect(&'static str),
    /// An asset type made known to reflection.
    ReflectAsset(&'static str),
    /// A shader stored under its path.
    Shader(&'static str),
    /// A plugin of the engine.
    Plugin(&'static str),
}

/// The registrations asked for so far, and what the application offers.
pub struct AppPlan {
    /// The application runs without a window.
    pub headless: bool,
    /// The application has windows.
    pub windowed: bool,
    /// Carts are scripted.
    pub scripting: bool,
    /// Levels (tiled maps) are supported.
    pub level: bool,
    /// The registrations, in order.
    pub steps: Vec<Setup>,
}

impl AppPlan {
    /// An empty plan for an application with the given features.
    pub fn new(headless: bool, windowed: bool, scripting: bool, level: bool) -> (r: AppPlan)
        ensures
            r.headless == headless,
            r.windowed == windowed,
            r.scripting == scripting,
            r.level == level,
            r.steps@ == Seq::<Setup>::empty(),
    {
        AppPlan { headless, windowed, scripting, level, steps: Vec::new() }
    }

    /// The features of the plan are those of `other`.
    pub open spec fn same_features(&self, other: AppPlan) -> bool {
        &&& self.headless == other.headless
        &&& self.windowed == other.windowed
        &&& self.scripting == other.scripting
        &&& self.level == other.level
    }

    /// Adds one registration.
    pub fn add(&mut self, step: Setup)
        ensures
            final(self).steps@ == old(self).steps@.push(step),
            final(self).same_features(*old(self)),
    {
        self.steps.push(step);
    }
}

/// The plan orders system `later` after system `earlier` in `schedule`.
pub open spec fn runs_after(steps: Seq<Setup>, schedule: Schedule, later: &'static str, earlier: &'static str) -> bool {
    steps.contains(Setup::SystemAfter(schedule, later, earlier))
}

/// The script functions `names`, registered when carts are scripted.
pub open spec fn script_steps(scripting: bool, names: Seq<&'static str>) -> Seq<Setup> {
    if scripting {
        names.map_values(|n: &'static str| Setup::ScriptFunction(n))
    } else {
        Seq::empty()
    }
}

/// Registers the script functions `names` when `enabled` (and carts are scripted).
pub fn add_script_functions(app: &mut AppPlan, enabled: bool, names: &[&'static str])
    requires
        enabled ==> old(app).scripting,
    ensures
        final(app).steps@ == old(app).steps@ + script_steps(enabled, names@),
        final(app).same_features(*old(app)),
{
    if !enabled {
        assert(old(app).steps@ + Seq::<Setup>::empty() =~= old(app).steps@);
        return;
    }
    let mut i: usize = 0;
    while i < names.len()
        invariant
            i <= names@.len(),
            enabled,
            app.same_features(*old(app)),
            app.steps@ == old(app).steps@ + names@.take(i as int).map_values(
                |n: &'static str| Setup::ScriptFunction(n),
            ),
        decreases names@.len() - i,
    {
        app.add(Setup::ScriptFunction(names[i]));
        proof {
            assert(names@.take(i + 1).map_values(|n: &'static str| Setup::ScriptFunction(n))
                =~= names@.take(i as int).map_values(|n: &'static str| Setup::ScriptFunction(n)).push(
                Setup::ScriptFunction(names@[i as int]),
            ));
        }
        i = i + 1;
    }
    assert(names@.take(names@.len() as int) =~= names@);
}

} // verus!

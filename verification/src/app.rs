use vstd::prelude::*;
use crate::resource::{DuplicateResource, ResManager, Resource};
use crate::schedule::{run_stages_spec, GameSchedule, Stage};
use crate::system::{state_of, IntoSystem, System};
use crate::value::Value;
use crate::world::{EntModel, World};

verus! {

/// The runtime driver: owns the entity store, the resource registry and the
/// schedule, and wires external events — the first tick, every later tick —
/// to the start pass and the per-frame pass.  It is intentionally thin; it
/// is the seam to whatever windowing or rendering loop drives it, and
/// carries no scheduling logic of its own.
pub struct App<S> {
    pub world: World,
    pub res_manager: ResManager,
    pub schedule: GameSchedule<S>,
    /// Whether the single start pass has run yet: the driver's two
    /// observable states are *not yet started* and *running*, and the only
    /// transition is the one `run_start` call.
    pub started: bool,
}

/// A set-up composition unit: given the driver under construction, return it
/// with resources and systems added.  Plugins only run once, at set-up time.
pub trait Plugin<S: System> {
    /// Configure the driver.
    fn build(&self, app: App<S>) -> (out: App<S>)
        requires
            app.wf(),
        ensures
            out.wf(),
    ;
}

impl<S: System> App<S> {
    /// The store is sound and every registered system is well-formed.
    pub open spec fn wf(&self) -> bool {
        self.world.wf() && self.schedule.wf()
    }

    /// A fresh driver: empty store, empty registry, empty schedule.
    pub fn new() -> (app: App<S>)
        ensures
            app.wf(),
            app.world@.ents =~= Seq::<EntModel>::empty(),
            app.world@.next_id == 0,
            !app.started,
            app.res_manager@ =~= Map::<u64, Value>::empty(),
            forall|st: Stage| (#[trigger] app.schedule.stage_seq(st)) =~= Seq::<S>::empty(),
    {
        App {
            world: World::new(),
            res_manager: ResManager::new(),
            schedule: GameSchedule::new(),
            started: false,
        }
    }

    /// Builder-style registration: append a system — anything convertible
    /// into one — to the chosen stage.
    pub fn add_system<M, I: IntoSystem<M, Output = S>>(self, stage: Stage, function: I) -> (app:
        App<S>)
        requires
            self.wf(),
            function.pre(),
        ensures
            app.wf(),
            app.world == self.world,
            app.res_manager == self.res_manager,
            app.started == self.started,
            app.schedule.stage_seq(stage) =~= self.schedule.stage_seq(stage).push(
                function.converted(),
            ),
            forall|st: Stage|
                st != stage ==> (#[trigger] app.schedule.stage_seq(st)) =~= self.schedule.stage_seq(
                    st,
                ),
    {
        let mut app = self;
        app.schedule.add_system(stage, function);
        app
    }

    /// Builder-style plugin application.
    pub fn add_plugin<Pl: Plugin<S>>(self, plugin: Pl) -> (app: App<S>)
        requires
            self.wf(),
        ensures
            app.wf(),
    {
        plugin.build(self)
    }

    /// Register a process-wide singleton resource.  Fails, leaving
    /// everything unchanged, exactly when a value of the same type identity
    /// is already registered.
    pub fn register_resource<T: Resource>(&mut self, value: T) -> (r: Result<
        (),
        DuplicateResource,
    >)
        requires
            old(self).wf(),
        ensures
            final(self).wf(),
            final(self).world == old(self).world,
            final(self).schedule == old(self).schedule,
            final(self).started == old(self).started,
            old(self).res_manager@.contains_key(T::type_key_spec()) ==> r is Err
                && final(self).res_manager@ == old(self).res_manager@,
            !old(self).res_manager@.contains_key(T::type_key_spec()) ==> r is Ok
                && final(self).res_manager@ == old(self).res_manager@.insert(
                T::type_key_spec(),
                value.to_value_spec(),
            ),
    {
        self.res_manager.push_res(value)
    }

    /// Run the start pass: every Start system, in insertion order.  Invoked
    /// exactly once, before the first frame.
    pub fn run_start(&mut self)
        requires
            old(self).wf(),
            !old(self).started,
        ensures
            final(self).wf(),
            final(self).started,
            final(self).schedule == old(self).schedule,
            state_of(final(self).world, final(self).res_manager) == run_stages_spec(
                old(self).schedule,
                seq![Stage::Start],
                state_of(old(self).world, old(self).res_manager),
            ),
    {
        self.schedule.run_starts(&mut self.world, &mut self.res_manager);
        self.started = true;
    }

    /// Run one frame: every PreUpdate, Update and PostUpdate system, stages
    /// in that fixed order, insertion order within each stage.  Invoked once
    /// per tick, forever, after the single start pass.
    pub fn run_frame(&mut self)
        requires
            old(self).wf(),
        ensures
            final(self).wf(),
            final(self).started == old(self).started,
            final(self).schedule == old(self).schedule,
            state_of(final(self).world, final(self).res_manager) == run_stages_spec(
                old(self).schedule,
                seq![Stage::PreUpdate, Stage::Update, Stage::PostUpdate],
                state_of(old(self).world, old(self).res_manager),
            ),
    {
        self.schedule.run_updates(&mut self.world, &mut self.res_manager);
    }
}

} // verus!

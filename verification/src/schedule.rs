use vstd::prelude::*;
use crate::resource::ResManager;
use crate::system::{state_of, IntoSystem, SysState, System};
use crate::world::World;

verus! {

/// Lifecycle of the game.
/// # Start
/// invoked once, when the game starts;
/// # Updates
/// PreUpdate, Update and PostUpdate, invoked once per frame, in that fixed
/// order.
#[derive(Eq, PartialEq, Copy, Clone, Hash, Debug, Structural)]
pub enum Stage {
    Start,
    PreUpdate,
    Update,
    PostUpdate,
}

/// Running a list of systems, first to last, from a state.
pub open spec fn run_seq_spec<S: System>(ss: Seq<S>, s: SysState) -> SysState
    decreases ss.len(),
{
    if ss.len() == 0 {
        s
    } else {
        run_seq_spec(ss.drop_first(), ss.first().step(s))
    }
}

/// The per-stage, ordered collection of all registered systems, with the
/// logic to run them in lifecycle order.
///
/// Insertion order is execution order, deterministically, every run: no
/// priority, no deduplication, no reordering based on declared data access.
/// A system belongs to exactly one stage, chosen when it is added, and is
/// never moved or removed afterward.
pub struct GameSchedule<S> {
    pub start: Vec<S>,
    pub pre_update: Vec<S>,
    pub update: Vec<S>,
    pub post_update: Vec<S>,
}

/// Running a list of stages, first to last: each stage runs its systems in
/// insertion order against the state the previous stage left behind.
pub open spec fn run_stages_spec<S: System>(
    sch: GameSchedule<S>,
    stages: Seq<Stage>,
    s: SysState,
) -> SysState
    decreases stages.len(),
{
    if stages.len() == 0 {
        s
    } else {
        run_stages_spec(
            sch,
            stages.drop_first(),
            run_seq_spec(sch.stage_seq(stages.first()), s),
        )
    }
}

impl<S: System> GameSchedule<S> {
    /// The systems registered for one stage, in insertion order.
    pub open spec fn stage_seq(&self, stage: Stage) -> Seq<S> {
        match stage {
            Stage::Start => self.start@,
            Stage::PreUpdate => self.pre_update@,
            Stage::Update => self.update@,
            Stage::PostUpdate => self.post_update@,
        }
    }

    /// Every stored system is well-formed.
    pub open spec fn wf(&self) -> bool {
        &&& forall|i: int| 0 <= i < self.start@.len() ==> (#[trigger] self.start@[i]).wf()
        &&& forall|i: int|
            0 <= i < self.pre_update@.len() ==> (#[trigger] self.pre_update@[i]).wf()
        &&& forall|i: int| 0 <= i < self.update@.len() ==> (#[trigger] self.update@[i]).wf()
        &&& forall|i: int|
            0 <= i < self.post_update@.len() ==> (#[trigger] self.post_update@[i]).wf()
    }

    /// An empty schedule.
    pub fn new() -> (r: GameSchedule<S>)
        ensures
            r.wf(),
            forall|st: Stage| (#[trigger] r.stage_seq(st)) =~= Seq::<S>::empty(),
    {
        GameSchedule {
            start: Vec::new(),
            pre_update: Vec::new(),
            update: Vec::new(),
            post_update: Vec::new(),
        }
    }

    /// Append a system — anything convertible into one, a plain function
    /// included — to the end of a stage's ordered list.  Nothing else moves.
    pub fn add_system<M, I: IntoSystem<M, Output = S>>(&mut self, stage: Stage, function: I)
        requires
            old(self).wf(),
            function.pre(),
        ensures
            final(self).wf(),
            final(self).stage_seq(stage) =~= old(self).stage_seq(stage).push(
                function.converted(),
            ),
            forall|st: Stage|
                st != stage ==> (#[trigger] final(self).stage_seq(st)) =~= old(self).stage_seq(
                    st,
                ),
    {
        let sys = function.into_system();
        match stage {
            Stage::Start => self.start.push(sys),
            Stage::PreUpdate => self.pre_update.push(sys),
            Stage::Update => self.update.push(sys),
            Stage::PostUpdate => self.post_update.push(sys),
        }
    }

    /// Run one stage's systems, in insertion order.
    fn run_systems(systems: &Vec<S>, world: &mut World, res_manager: &mut ResManager)
        requires
            old(world).wf(),
            forall|i: int| 0 <= i < systems@.len() ==> (#[trigger] systems@[i]).wf(),
        ensures
            final(world).wf(),
            state_of(*final(world), *final(res_manager)) == run_seq_spec(
                systems@,
                state_of(*old(world), *old(res_manager)),
            ),
    {
        let ghost s0 = state_of(*world, *res_manager);
        proof {
            assert(systems@.skip(0) =~= systems@);
        }
        for i in 0..systems.len()
            invariant
                world.wf(),
                forall|j: int| 0 <= j < systems@.len() ==> (#[trigger] systems@[j]).wf(),
                run_seq_spec(systems@, s0) == run_seq_spec(
                    systems@.skip(i as int),
                    state_of(*world, *res_manager),
                ),
        {
            proof {
                assert(systems@.skip(i as int).first() == systems@[i as int]);
                assert(systems@.skip(i as int).drop_first() =~= systems@.skip(i as int + 1));
            }
            systems[i].run(world, res_manager);
        }
        proof {
            assert(systems@.skip(systems@.len() as int) =~= Seq::<S>::empty());
        }
    }

    /// Run the given stages, in the given order, each stage's systems in
    /// insertion order, all against the same store and registry — so a
    /// system in an earlier stage affects what a later one observes within
    /// the same pass.
    pub fn run_stages(&self, world: &mut World, stages: Vec<Stage>, res_manager: &mut ResManager)
        requires
            self.wf(),
            old(world).wf(),
        ensures
            final(world).wf(),
            state_of(*final(world), *final(res_manager)) == run_stages_spec(
                *self,
                stages@,
                state_of(*old(world), *old(res_manager)),
            ),
    {
        let ghost s0 = state_of(*world, *res_manager);
        proof {
            assert(stages@.skip(0) =~= stages@);
        }
        for si in 0..stages.len()
            invariant
                self.wf(),
                world.wf(),
                run_stages_spec(*self, stages@, s0) == run_stages_spec(
                    *self,
                    stages@.skip(si as int),
                    state_of(*world, *res_manager),
                ),
        {
            proof {
                assert(stages@.skip(si as int).first() == stages@[si as int]);
                assert(stages@.skip(si as int).drop_first() =~= stages@.skip(si as int + 1));
            }
            match stages[si] {
                Stage::Start => Self::run_systems(&self.start, world, res_manager),
                Stage::PreUpdate => Self::run_systems(&self.pre_update, world, res_manager),
                Stage::Update => Self::run_systems(&self.update, world, res_manager),
                Stage::PostUpdate => Self::run_systems(&self.post_update, world, res_manager),
            }
        }
        proof {
            assert(stages@.skip(stages@.len() as int) =~= Seq::<Stage>::empty());
        }
    }

    /// Run one frame: PreUpdate, then Update, then PostUpdate.
    pub fn run_updates(&self, world: &mut World, res_manager: &mut ResManager)
        requires
            self.wf(),
            old(world).wf(),
        ensures
            final(world).wf(),
            state_of(*final(world), *final(res_manager)) == run_stages_spec(
                *self,
                seq![Stage::PreUpdate, Stage::Update, Stage::PostUpdate],
                state_of(*old(world), *old(res_manager)),
            ),
    {
        let mut stages: Vec<Stage> = Vec::new();
        stages.push(Stage::PreUpdate);
        stages.push(Stage::Update);
        stages.push(Stage::PostUpdate);
        proof {
            assert(stages@ =~= seq![Stage::PreUpdate, Stage::Update, Stage::PostUpdate]);
        }
        self.run_stages(world, stages, res_manager);
    }

    /// Run the start pass: the Start stage alone.
    pub fn run_starts(&self, world: &mut World, res_manager: &mut ResManager)
        requires
            self.wf(),
            old(world).wf(),
        ensures
            final(world).wf(),
            state_of(*final(world), *final(res_manager)) == run_stages_spec(
                *self,
                seq![Stage::Start],
                state_of(*old(world), *old(res_manager)),
            ),
    {
        let mut stages: Vec<Stage> = Vec::new();
        stages.push(Stage::Start);
        proof {
            assert(stages@ =~= seq![Stage::Start]);
        }
        self.run_stages(world, stages, res_manager);
    }
}

/// Composition: running one list of systems and then another, from any
/// state, is running their concatenation.
pub proof fn lemma_run_seq_concat<S: System>(a: Seq<S>, b: Seq<S>, s: SysState)
    ensures
        run_seq_spec(a + b, s) == run_seq_spec(b, run_seq_spec(a, s)),
    decreases a.len(),
{
    if a.len() == 0 {
        assert(a + b =~= b);
    } else {
        assert((a + b).first() == a.first());
        assert((a + b).drop_first() =~= a.drop_first() + b);
        lemma_run_seq_concat(a.drop_first(), b, a.first().step(s));
    }
}

/// Stage ordering: the start pass followed by one frame is one pipeline that
/// applies every Start system strictly before every PreUpdate, Update and
/// PostUpdate system — each system exactly once, stages in their fixed
/// order, insertion order within each stage.
pub proof fn lemma_start_before_frame<S: System>(sch: GameSchedule<S>, s: SysState)
    ensures
        run_stages_spec(
            sch,
            seq![Stage::PreUpdate, Stage::Update, Stage::PostUpdate],
            run_stages_spec(sch, seq![Stage::Start], s),
        ) == run_seq_spec(
            sch.stage_seq(Stage::Start) + sch.stage_seq(Stage::PreUpdate) + sch.stage_seq(
                Stage::Update,
            ) + sch.stage_seq(Stage::PostUpdate),
            s,
        ),
{
    let st = sch.stage_seq(Stage::Start);
    let pre = sch.stage_seq(Stage::PreUpdate);
    let upd = sch.stage_seq(Stage::Update);
    let post = sch.stage_seq(Stage::PostUpdate);
    let one = seq![Stage::Start];
    let frame = seq![Stage::PreUpdate, Stage::Update, Stage::PostUpdate];
    let e = Seq::<Stage>::empty();
    let s1 = run_seq_spec(st, s);
    assert(one.drop_first() =~= e);
    assert(one.first() == Stage::Start);
    assert(run_stages_spec(sch, e, s1) == s1);
    assert(run_stages_spec(sch, one, s) == s1);
    let s2 = run_seq_spec(pre, s1);
    let s3 = run_seq_spec(upd, s2);
    let s4 = run_seq_spec(post, s3);
    assert(frame.drop_first() =~= seq![Stage::Update, Stage::PostUpdate]);
    assert(seq![Stage::Update, Stage::PostUpdate].drop_first() =~= seq![Stage::PostUpdate]);
    assert(seq![Stage::PostUpdate].drop_first() =~= e);
    assert(run_stages_spec(sch, e, s4) == s4);
    assert(run_stages_spec(sch, seq![Stage::PostUpdate], s3) == s4);
    assert(run_stages_spec(sch, seq![Stage::Update, Stage::PostUpdate], s2) == s4);
    assert(run_stages_spec(sch, frame, s1) == s4);
    lemma_run_seq_concat(st, pre, s);
    lemma_run_seq_concat(st + pre, upd, s);
    lemma_run_seq_concat(st + pre + upd, post, s);
}

/// Insertion-order determinism: a stage holding `s1` then `s2` — in that
/// order — has, on every run, the effect of `s1`'s step followed by `s2`'s,
/// never the reverse.
pub proof fn lemma_insertion_order<S: System>(s1: S, s2: S, s: SysState)
    ensures
        run_seq_spec(seq![s1, s2], s) == s2.step(s1.step(s)),
{
    let e = Seq::<S>::empty();
    assert(seq![s1, s2].first() == s1);
    assert(seq![s1, s2].drop_first() =~= seq![s2]);
    assert(seq![s2].first() == s2);
    assert(seq![s2].drop_first() =~= e);
    assert(run_seq_spec(e, s2.step(s1.step(s))) == s2.step(s1.step(s)));
    assert(run_seq_spec(seq![s2], s1.step(s)) == s2.step(s1.step(s)));
}

} // verus!

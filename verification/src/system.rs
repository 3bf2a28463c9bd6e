use vstd::prelude::*;
use crate::resource::{Res, ResManager, ResMut, Resource};
use crate::value::Value;
use crate::world::{
    lemma_first_row_const, lemma_matched_rows_id_present, lemma_query_shape_stable,
    lemma_store_preserves_shape, matched_rows, matched_rows2, stored_ents, stored_ents2,
    EntModel, World, WorldModel,
};

verus! {

/// The state a system acts on, as specifications see it: the entity store
/// and the resource registry together.
pub struct SysState {
    pub world: WorldModel,
    pub res: Map<u64, Value>,
}

/// The abstract state of a concrete store and registry.
pub open spec fn state_of(w: World, r: ResManager) -> SysState {
    SysState { world: w@, res: r@ }
}

/// The `T` a registry state holds, if a value is stored under `T`'s key and
/// decodes at `T`.
pub open spec fn res_decode<T: Resource>(m: Map<u64, Value>) -> Option<T> {
    if m.contains_key(T::type_key_spec()) {
        T::from_value_spec(m[T::type_key_spec()])
    } else {
        None
    }
}

/// The parameter-extraction capability: a type that can be produced, on
/// demand, from the entity store and resource registry just before a system
/// runs, and applied back just after it.  Every extraction is fresh; nothing
/// is cached across invocations.
///
/// Extraction is total: it never faults on an absent resource.  The built-in
/// resource shapes are optional wrappers, so a system body decides what
/// absence means — the checked alternative to treating a missing non-optional
/// dependency as a fatal extraction-contract violation, a choice the design
/// deliberately leaves open.
pub trait SystemParam: Sized {
    /// The mathematical shape of the parameter: what of it is determined by
    /// the state it was extracted from.
    type Model;

    /// The parameter's shape.
    spec fn model(self) -> Self::Model;

    /// What extraction produces — by shape — and the state it leaves behind.
    spec fn extract_spec(s: SysState) -> (Self::Model, SysState);

    /// The state after a parameter of the given shape is applied back.
    spec fn apply_spec(m: Self::Model, s: SysState) -> SysState;

    /// Produce the parameter from the store and the registry.
    fn extract(world: &mut World, res: &mut ResManager) -> (p: Self)
        requires
            old(world).wf(),
        ensures
            final(world).wf(),
            (p.model(), state_of(*final(world), *final(res))) == Self::extract_spec(
                state_of(*old(world), *old(res)),
            ),
    ;

    /// Apply the parameter back to the store and the registry.
    fn apply(self, world: &mut World, res: &mut ResManager)
        requires
            old(world).wf(),
        ensures
            final(world).wf(),
            state_of(*final(world), *final(res)) == Self::apply_spec(
                self.model(),
                state_of(*old(world), *old(res)),
            ),
    ;
}

/// The empty parameter, for systems that need no data.
impl SystemParam for () {
    type Model = ();

    open spec fn model(self) -> () {
        ()
    }

    open spec fn extract_spec(s: SysState) -> ((), SysState) {
        ((), s)
    }

    open spec fn apply_spec(m: (), s: SysState) -> SysState {
        s
    }

    fn extract(world: &mut World, res: &mut ResManager) -> (p: ()) {
    }

    fn apply(self, world: &mut World, res: &mut ResManager) {
    }
}

/// A shared resource handle: a snapshot of the stored `T`, or `None` when no
/// `T` is registered.  The registry is left untouched, both at extraction
/// and when the parameter is applied back.
impl<T: Resource> SystemParam for Option<Res<T>> {
    type Model = Option<T>;

    open spec fn model(self) -> Option<T> {
        match self {
            Some(h) => Some(h.value),
            None => None,
        }
    }

    open spec fn extract_spec(s: SysState) -> (Option<T>, SysState) {
        (res_decode::<T>(s.res), s)
    }

    open spec fn apply_spec(m: Option<T>, s: SysState) -> SysState {
        s
    }

    fn extract(world: &mut World, res: &mut ResManager) -> (p: Option<Res<T>>) {
        res.get_res::<T>()
    }

    fn apply(self, world: &mut World, res: &mut ResManager) {
    }
}

/// An exclusive resource handle: the stored `T` is taken out of the registry
/// for the duration of the run and stored back — possibly mutated — when the
/// parameter is applied; or `None`, when no `T` is registered.
impl<T: Resource> SystemParam for Option<ResMut<T>> {
    type Model = Option<T>;

    open spec fn model(self) -> Option<T> {
        match self {
            Some(h) => Some(h.value),
            None => None,
        }
    }

    open spec fn extract_spec(s: SysState) -> (Option<T>, SysState) {
        match res_decode::<T>(s.res) {
            Some(t) => (
                Some(t),
                SysState { world: s.world, res: s.res.remove(T::type_key_spec()) },
            ),
            None => (None, s),
        }
    }

    open spec fn apply_spec(m: Option<T>, s: SysState) -> SysState {
        match m {
            Some(t) => SysState {
                world: s.world,
                res: s.res.insert(T::type_key_spec(), t.to_value_spec()),
            },
            None => s,
        }
    }

    fn extract(world: &mut World, res: &mut ResManager) -> (p: Option<ResMut<T>>) {
        res.get_res_mut::<T>()
    }

    fn apply(self, world: &mut World, res: &mut ResManager) {
        match self {
            Some(h) => res.release(h),
            None => (),
        }
    }
}

/// The typed reading of raw query rows: rows whose value decodes at `T`,
/// decoded, in order.
pub open spec fn decode_rows<T: Resource>(rows: Seq<(u64, Value)>) -> Seq<(u64, T)>
    decreases rows.len(),
{
    if rows.len() == 0 {
        Seq::empty()
    } else {
        let rest = decode_rows::<T>(rows.drop_last());
        match T::from_value_spec(rows.last().1) {
            Some(t) => rest.push((rows.last().0, t)),
            None => rest,
        }
    }
}

/// Typed query rows, encoded back to raw rows.
pub open spec fn encode_rows<T: Resource>(rows: Seq<(u64, T)>) -> Seq<(u64, Value)> {
    rows.map_values(|r: (u64, T)| (r.0, r.1.to_value_spec()))
}

/// A mutable typed query cursor: one full scan of every entity holding a
/// component of type `T`, as `(entity identifier, component value)` rows.
///
/// The rows are extracted fresh before the system runs — one scan per
/// extraction, never cached — and applying the cursor back writes the
/// possibly mutated rows into the entities they came from.  No component is
/// added or removed by the write-back, and no entity appears or disappears.
pub struct QueryMut<T> {
    pub rows: Vec<(u64, T)>,
}

impl<T: Resource> SystemParam for QueryMut<T> {
    type Model = Seq<(u64, T)>;

    open spec fn model(self) -> Seq<(u64, T)> {
        self.rows@
    }

    open spec fn extract_spec(s: SysState) -> (Seq<(u64, T)>, SysState) {
        (decode_rows::<T>(matched_rows(s.world.ents, T::type_key_spec())), s)
    }

    open spec fn apply_spec(m: Seq<(u64, T)>, s: SysState) -> SysState {
        SysState {
            world: WorldModel {
                next_id: s.world.next_id,
                ents: stored_ents(s.world.ents, T::type_key_spec(), encode_rows::<T>(m)),
            },
            res: s.res,
        }
    }

    fn extract(world: &mut World, res: &mut ResManager) -> (p: QueryMut<T>) {
        let key = T::type_key();
        let raw = world.rows_for(key);
        let mut rows: Vec<(u64, T)> = Vec::new();
        for i in 0..raw.len()
            invariant
                rows@ =~= decode_rows::<T>(raw@.take(i as int)),
        {
            proof {
                assert(raw@.take(i as int + 1).drop_last() =~= raw@.take(i as int));
                assert(raw@.take(i as int + 1).last() == raw@[i as int]);
            }
            match T::from_value(&raw[i].1) {
                Some(t) => rows.push((raw[i].0, t)),
                None => (),
            }
        }
        proof {
            assert(raw@.take(raw@.len() as int) =~= raw@);
        }
        QueryMut { rows }
    }

    fn apply(self, world: &mut World, res: &mut ResManager) {
        let key = T::type_key();
        let ghost orig = self.rows@;
        let mut rows = self.rows;
        let mut out: Vec<(u64, Value)> = Vec::new();
        while rows.len() > 0
            invariant
                orig.len() == out@.len() + rows@.len(),
                rows@ =~= orig.skip(out@.len() as int),
                out@ =~= encode_rows::<T>(orig).take(out@.len() as int),
            decreases rows@.len(),
        {
            let ghost k = out@.len() as int;
            let r = rows.remove(0);
            proof {
                assert(r == orig[k]);
            }
            out.push((r.0, r.1.to_value()));
            proof {
                assert(encode_rows::<T>(orig)[k] == (orig[k].0, orig[k].1.to_value_spec()));
                assert(out@ =~= encode_rows::<T>(orig).take(k + 1));
                assert(rows@ =~= orig.skip(k + 1));
            }
        }
        proof {
            assert(out@ =~= encode_rows::<T>(orig));
        }
        world.store_rows(key, &out);
    }
}

/// The typed reading of raw two-type query rows: rows whose values both
/// decode, decoded, in order.
pub open spec fn decode_rows2<A: Resource, B: Resource>(rows: Seq<(u64, Value, Value)>) -> Seq<
    (u64, A, B),
>
    decreases rows.len(),
{
    if rows.len() == 0 {
        Seq::empty()
    } else {
        let rest = decode_rows2::<A, B>(rows.drop_last());
        match (A::from_value_spec(rows.last().1), B::from_value_spec(rows.last().2)) {
            (Some(a), Some(b)) => rest.push((rows.last().0, a, b)),
            _ => rest,
        }
    }
}

/// Typed two-type query rows, encoded back to raw rows.
pub open spec fn encode_rows2<A: Resource, B: Resource>(rows: Seq<(u64, A, B)>) -> Seq<
    (u64, Value, Value),
> {
    rows.map_values(|r: (u64, A, B)| (r.0, r.1.to_value_spec(), r.2.to_value_spec()))
}

/// A mutable query cursor restricted to entities possessing components of
/// both requested types: the full scan of their `(identifier, A, B)` rows.
///
/// As with [`QueryMut`], the rows are extracted fresh before the system runs
/// and written back — possibly mutated — after it; components are neither
/// added nor removed, and no entity appears or disappears.
pub struct QueryPairMut<A, B> {
    pub rows: Vec<(u64, A, B)>,
}

impl<A: Resource, B: Resource> SystemParam for QueryPairMut<A, B> {
    type Model = Seq<(u64, A, B)>;

    open spec fn model(self) -> Seq<(u64, A, B)> {
        self.rows@
    }

    open spec fn extract_spec(s: SysState) -> (Seq<(u64, A, B)>, SysState) {
        (
            decode_rows2::<A, B>(
                matched_rows2(s.world.ents, A::type_key_spec(), B::type_key_spec()),
            ),
            s,
        )
    }

    open spec fn apply_spec(m: Seq<(u64, A, B)>, s: SysState) -> SysState {
        SysState {
            world: WorldModel {
                next_id: s.world.next_id,
                ents: stored_ents2(
                    s.world.ents,
                    A::type_key_spec(),
                    B::type_key_spec(),
                    encode_rows2::<A, B>(m),
                ),
            },
            res: s.res,
        }
    }

    fn extract(world: &mut World, res: &mut ResManager) -> (p: QueryPairMut<A, B>) {
        let ka = A::type_key();
        let kb = B::type_key();
        let raw = world.rows_for_pair(ka, kb);
        let mut rows: Vec<(u64, A, B)> = Vec::new();
        for i in 0..raw.len()
            invariant
                rows@ =~= decode_rows2::<A, B>(raw@.take(i as int)),
        {
            proof {
                assert(raw@.take(i as int + 1).drop_last() =~= raw@.take(i as int));
                assert(raw@.take(i as int + 1).last() == raw@[i as int]);
            }
            match (A::from_value(&raw[i].1), B::from_value(&raw[i].2)) {
                (Some(a), Some(b)) => rows.push((raw[i].0, a, b)),
                _ => (),
            }
        }
        proof {
            assert(raw@.take(raw@.len() as int) =~= raw@);
        }
        QueryPairMut { rows }
    }

    fn apply(self, world: &mut World, res: &mut ResManager) {
        let ka = A::type_key();
        let kb = B::type_key();
        let ghost orig = self.rows@;
        let mut rows = self.rows;
        let mut out: Vec<(u64, Value, Value)> = Vec::new();
        while rows.len() > 0
            invariant
                orig.len() == out@.len() + rows@.len(),
                rows@ =~= orig.skip(out@.len() as int),
                out@ =~= encode_rows2::<A, B>(orig).take(out@.len() as int),
            decreases rows@.len(),
        {
            let ghost k = out@.len() as int;
            let r = rows.remove(0);
            proof {
                assert(r == orig[k]);
            }
            out.push((r.0, r.1.to_value(), r.2.to_value()));
            proof {
                assert(encode_rows2::<A, B>(orig)[k] == (
                    orig[k].0,
                    orig[k].1.to_value_spec(),
                    orig[k].2.to_value_spec(),
                ));
                assert(out@ =~= encode_rows2::<A, B>(orig).take(k + 1));
                assert(rows@ =~= orig.skip(k + 1));
            }
        }
        proof {
            assert(out@ =~= encode_rows2::<A, B>(orig));
        }
        world.store_rows_pair(ka, kb, &out);
    }
}

/// A one-element tuple of parameters extracts its element.
impl<P1: SystemParam> SystemParam for (P1,) {
    type Model = (P1::Model,);

    open spec fn model(self) -> (P1::Model,) {
        (self.0.model(),)
    }

    open spec fn extract_spec(s: SysState) -> ((P1::Model,), SysState) {
        ((P1::extract_spec(s).0,), P1::extract_spec(s).1)
    }

    open spec fn apply_spec(m: (P1::Model,), s: SysState) -> SysState {
        P1::apply_spec(m.0, s)
    }

    fn extract(world: &mut World, res: &mut ResManager) -> (p: (P1,)) {
        (P1::extract(world, res),)
    }

    fn apply(self, world: &mut World, res: &mut ResManager) {
        self.0.apply(world, res);
    }
}

/// A pair of parameters extracts its elements independently, left to right,
/// and packages them positionally; they are applied back in the same order.
impl<P1: SystemParam, P2: SystemParam> SystemParam for (P1, P2) {
    type Model = (P1::Model, P2::Model);

    open spec fn model(self) -> (P1::Model, P2::Model) {
        (self.0.model(), self.1.model())
    }

    open spec fn extract_spec(s: SysState) -> ((P1::Model, P2::Model), SysState) {
        (
            (P1::extract_spec(s).0, P2::extract_spec(P1::extract_spec(s).1).0),
            P2::extract_spec(P1::extract_spec(s).1).1,
        )
    }

    open spec fn apply_spec(m: (P1::Model, P2::Model), s: SysState) -> SysState {
        P2::apply_spec(m.1, P1::apply_spec(m.0, s))
    }

    fn extract(world: &mut World, res: &mut ResManager) -> (p: (P1, P2)) {
        let p1 = P1::extract(world, res);
        let p2 = P2::extract(world, res);
        (p1, p2)
    }

    fn apply(self, world: &mut World, res: &mut ResManager) {
        self.0.apply(world, res);
        self.1.apply(world, res);
    }
}

/// A uniformly runnable unit of work: what a schedule stores.  A system has
/// no name or identity beyond its position in a stage's list; `step` is its
/// whole observable effect on the state, and `run` is proved to realize
/// exactly that effect.
pub trait System: Sized {
    /// Well-formedness that schedules demand at registration and preserve
    /// for every stored system.
    spec fn wf(&self) -> bool;

    /// The system's effect on a state.
    spec fn step(&self, s: SysState) -> SysState;

    /// Run once against the current store and registry.
    fn run(&self, world: &mut World, res: &mut ResManager)
        requires
            self.wf(),
            old(world).wf(),
        ensures
            final(world).wf(),
            state_of(*final(world), *final(res)) == self.step(
                state_of(*old(world), *old(res)),
            ),
    ;
}

/// Whether a function may be handed any extracted parameter.
pub open spec fn callable<P: SystemParam, F: Fn(P) -> P>(f: F) -> bool {
    forall|p: P| f.requires((p,))
}

/// Whether a function's contract pins the shape of its result down as one
/// function of the shape of its argument — what it takes for wrapping it to
/// have a well-defined effect.
pub open spec fn deterministic<P: SystemParam, F: Fn(P) -> P>(f: F) -> bool {
    forall|p1: P, p2: P, q1: P, q2: P|
        p1.model() == p2.model() && #[trigger] f.ensures((p1,), q1) && #[trigger] f.ensures(
            (p2,),
            q2,
        ) ==> q1.model() == q2.model()
}

/// The shape-level function a deterministic function's contract denotes.
pub open spec fn fun_model<P: SystemParam, F: Fn(P) -> P>(f: F) -> spec_fn(
    <P as SystemParam>::Model,
) -> <P as SystemParam>::Model {
    |m: <P as SystemParam>::Model|
        {
            let (p, q) = choose|p: P, q: P| p.model() == m && #[trigger] f.ensures((p,), q);
            q.model()
        }
}

/// A plain function turned into a runnable system.
///
/// The function's declared parameter list, read as one `SystemParam` tuple
/// `P`, is extracted fresh just before each invocation; the function is
/// called on it; the returned — possibly mutated — parameters are applied
/// back and then discarded.  Nothing is retained between invocations beyond
/// what the function itself captured at construction time.
pub struct FunctionSystem<P, F> {
    pub system: F,
    pub marker: core::marker::PhantomData<P>,
}

impl<P: SystemParam, F: Fn(P) -> P> FunctionSystem<P, F> {
    /// Wrap a function.
    pub fn new(f: F) -> (s: FunctionSystem<P, F>)
        requires
            callable::<P, F>(f),
            deterministic::<P, F>(f),
        ensures
            s.wf(),
            s == (FunctionSystem { system: f, marker: core::marker::PhantomData::<P> }),
    {
        FunctionSystem { system: f, marker: core::marker::PhantomData }
    }
}

impl<P: SystemParam, F: Fn(P) -> P> System for FunctionSystem<P, F> {
    open spec fn wf(&self) -> bool {
        callable::<P, F>(self.system) && deterministic::<P, F>(self.system)
    }

    open spec fn step(&self, s: SysState) -> SysState {
        let em = P::extract_spec(s);
        P::apply_spec(fun_model::<P, F>(self.system)(em.0), em.1)
    }

    fn run(&self, world: &mut World, res: &mut ResManager) {
        let ghost s0 = state_of(*world, *res);
        let p = P::extract(world, res);
        let ghost gp = p;
        let q = (self.system)(p);
        proof {
            let m0 = gp.model();
            assert(gp.model() == m0 && self.system.ensures((gp,), q));
            assert(exists|pp: P, qq: P|
                pp.model() == m0 && #[trigger] self.system.ensures((pp,), qq));
            let (pp, qq) = choose|pp: P, qq: P|
                pp.model() == m0 && #[trigger] self.system.ensures((pp,), qq);
            assert(qq.model() == q.model());
            assert(fun_model::<P, F>(self.system)(m0) == q.model());
        }
        q.apply(world, res);
    }
}

/// Conversion into a runnable system, picked automatically from the shape of
/// the converted value alone.  The marker type parameter only disambiguates
/// the blanket conversion for functions from identity conversions.
pub trait IntoSystem<Marker>: Sized {
    /// The kind of system the conversion produces.
    type Output: System;

    /// What the conversion asks of the converted value.
    spec fn pre(&self) -> bool;

    /// The system the conversion produces.
    spec fn converted(&self) -> Self::Output;

    /// Convert.
    fn into_system(self) -> (s: Self::Output)
        requires
            self.pre(),
        ensures
            s.wf(),
            s == self.converted(),
    ;
}

/// Any function whose parameter list, read as a tuple, satisfies the
/// extraction capability converts into a system — the adapter is chosen from
/// the function's parameter types alone, with no per-function glue.
impl<P: SystemParam, F: Fn(P) -> P> IntoSystem<(P,)> for F {
    type Output = FunctionSystem<P, F>;

    open spec fn pre(&self) -> bool {
        callable::<P, F>(*self) && deterministic::<P, F>(*self)
    }

    open spec fn converted(&self) -> FunctionSystem<P, F> {
        FunctionSystem { system: *self, marker: core::marker::PhantomData }
    }

    fn into_system(self) -> (s: FunctionSystem<P, F>) {
        FunctionSystem::new(self)
    }
}

/// Every entity's component of type key `key` set to `v`; entities without
/// one are untouched.
pub open spec fn fill_ents(ents: Seq<EntModel>, key: u64, v: Value) -> Seq<EntModel> {
    ents.map_values(
        |e: EntModel|
            if e.comps.contains_key(key) {
                EntModel { id: e.id, comps: e.comps.insert(key, v) }
            } else {
                e
            },
    )
}

/// One scripted operation: a system body written as data and interpreted by
/// the library.  Scripted systems all share one type, so one schedule can
/// hold many different behaviours in one list.
pub enum Op {
    /// Do nothing.
    Nop,
    /// Spawn one entity holding `value` as its component of type key `key`
    /// (skipped once the identifier space is exhausted).
    SpawnWith { key: u64, value: Value },
    /// Set every component of type key `key`, over a mutable query, to
    /// `value`.
    FillQuery { key: u64, value: Value },
    /// Store `value` as the resource under `key`, replacing any previous
    /// one.
    PutRes { key: u64, value: Value },
    /// Prepend `tag` to the trace resource under `key`: the resource becomes
    /// the pair of `tag` and the previous trace (or the empty value).
    RecordTag { key: u64, tag: u64 },
}

/// What one scripted operation does to a state.
pub open spec fn op_step(op: Op, s: SysState) -> SysState {
    match op {
        Op::Nop => s,
        Op::SpawnWith { key, value } => if s.world.next_id < u64::MAX {
            SysState {
                world: WorldModel {
                    next_id: (s.world.next_id + 1) as u64,
                    ents: s.world.ents.push(
                        EntModel {
                            id: s.world.next_id,
                            comps: Map::<u64, Value>::empty().insert(key, value),
                        },
                    ),
                },
                res: s.res,
            }
        } else {
            s
        },
        Op::FillQuery { key, value } => SysState {
            world: WorldModel {
                next_id: s.world.next_id,
                ents: fill_ents(s.world.ents, key, value),
            },
            res: s.res,
        },
        Op::PutRes { key, value } => SysState { world: s.world, res: s.res.insert(key, value) },
        Op::RecordTag { key, tag } => SysState {
            world: s.world,
            res: s.res.insert(
                key,
                Value::Pair(
                    Box::new(Value::U64(tag)),
                    Box::new(
                        if s.res.contains_key(key) {
                            s.res[key]
                        } else {
                            Value::Unit
                        },
                    ),
                ),
            ),
        },
    }
}

/// A scripted system: one operation, runnable like any other system.
pub struct OpSystem {
    pub op: Op,
}

impl System for OpSystem {
    open spec fn wf(&self) -> bool {
        true
    }

    open spec fn step(&self, s: SysState) -> SysState {
        op_step(self.op, s)
    }

    fn run(&self, world: &mut World, res: &mut ResManager) {
        match &self.op {
            Op::Nop => (),
            Op::SpawnWith { key, value } => {
                if world.next_id() < u64::MAX {
                    let _ = world.spawn_one(*key, value);
                }
            },
            Op::FillQuery { key, value } => {
                let ghost ents0 = world@.ents;
                let ghost gkey = *key;
                let ghost gval = *value;
                let raw = world.rows_for(*key);
                let mut out: Vec<(u64, Value)> = Vec::new();
                for i in 0..raw.len()
                    invariant
                        out@.len() == i,
                        gval == *value,
                        raw@ == matched_rows(ents0, gkey),
                        forall|j: int| 0 <= j < i ==> (#[trigger] out@[j]) == (raw@[j].0, gval),
                {
                    out.push((raw[i].0, value.dup()));
                }
                world.store_rows(*key, &out);
                proof {
                    assert forall|i: int| 0 <= i < ents0.len() implies stored_ents(
                        ents0,
                        gkey,
                        out@,
                    )[i] == fill_ents(ents0, gkey, gval)[i] by {
                        if ents0[i].comps.contains_key(gkey) {
                            lemma_matched_rows_id_present(ents0, gkey, i);
                            let j = choose|j: int|
                                0 <= j < matched_rows(ents0, gkey).len() && (#[trigger] matched_rows(
                                    ents0,
                                    gkey,
                                )[j]).0 == ents0[i].id;
                            assert(out@[j].0 == ents0[i].id);
                            lemma_first_row_const(out@, ents0[i].id, gval);
                        }
                    }
                    assert(stored_ents(ents0, gkey, out@) =~= fill_ents(ents0, gkey, gval));
                }
            },
            Op::PutRes { key, value } => {
                res.put_raw(*key, value.dup());
            },
            Op::RecordTag { key, tag } => {
                let prev = match res.get_raw(*key) {
                    Some(v) => v.dup(),
                    None => Value::Unit,
                };
                res.put_raw(*key, Value::Pair(Box::new(Value::U64(*tag)), Box::new(prev)));
            },
        }
    }
}

/// A scripted system converts to itself.
impl IntoSystem<()> for OpSystem {
    type Output = OpSystem;

    open spec fn pre(&self) -> bool {
        true
    }

    open spec fn converted(&self) -> OpSystem {
        *self
    }

    fn into_system(self) -> (s: OpSystem) {
        self
    }
}

/// Tuple extraction with two exclusive handles: when `A` and `B` are both
/// registered under distinct keys, the pair extracts both values,
/// independently mutable; and applying mutated values back stores both, so a
/// mutation of `A` through its handle is exactly what any later reader of
/// `A` observes.
pub proof fn lemma_pair_exclusive<A: Resource, B: Resource>(s: SysState, a1: A, b1: B, a2: A, b2: B)
    requires
        A::type_key_spec() != B::type_key_spec(),
        res_decode::<A>(s.res) == Some(a1),
        res_decode::<B>(s.res) == Some(b1),
    ensures
        ({
            let em = <(Option<ResMut<A>>, Option<ResMut<B>>) as SystemParam>::extract_spec(s);
            &&& em.0 == (Some(a1), Some(b1))
            &&& {
                let s2 = <(Option<ResMut<A>>, Option<ResMut<B>>) as SystemParam>::apply_spec(
                    (Some(a2), Some(b2)),
                    em.1,
                );
                &&& res_decode::<A>(s2.res) == Some(a2)
                &&& res_decode::<B>(s2.res) == Some(b2)
                &&& s2.world == s.world
            }
        }),
{
    a2.lemma_round_trip();
    b2.lemma_round_trip();
}

/// Idempotent query shape: a query write-back — the only world change a
/// system of query shape performs — never spawns, despawns, or changes which
/// components an entity holds; so a second scan, of any component type,
/// matches exactly the same entities, in the same order, as a scan before.
pub proof fn lemma_query_shape_after_apply<T: Resource, U: Resource>(s: SysState, m: Seq<(u64, U)>)
    ensures
        ({
            let before = matched_rows(s.world.ents, T::type_key_spec());
            let after = matched_rows(
                <QueryMut<U> as SystemParam>::apply_spec(m, s).world.ents,
                T::type_key_spec(),
            );
            &&& after.len() == before.len()
            &&& forall|i: int| 0 <= i < before.len() ==> (#[trigger] after[i]).0 == before[i].0
        }),
{
    let stored = stored_ents(s.world.ents, U::type_key_spec(), encode_rows::<U>(m));
    lemma_store_preserves_shape(s.world.ents, U::type_key_spec(), encode_rows::<U>(m));
    lemma_query_shape_stable(stored, s.world.ents, T::type_key_spec());
}

} // verus!

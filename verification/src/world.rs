use vstd::prelude::*;
use crate::resource::Resource;
use crate::value::Value;

verus! {

/// One entity, as specifications see it: an identifier and a finite map from
/// component type keys to component values.
pub struct EntModel {
    pub id: u64,
    pub comps: Map<u64, Value>,
}

/// The entity store, as specifications see it: the entities in spawn order,
/// plus the identifier the next spawn will use.
pub struct WorldModel {
    pub next_id: u64,
    pub ents: Seq<EntModel>,
}

/// Reading of an association list as a map; on a duplicated key the first
/// occurrence wins.
pub open spec fn comps_map(s: Seq<(u64, Value)>) -> Map<u64, Value>
    decreases s.len(),
{
    if s.len() == 0 {
        Map::empty()
    } else {
        let m = comps_map(s.drop_last());
        if m.contains_key(s.last().0) {
            m
        } else {
            m.insert(s.last().0, s.last().1)
        }
    }
}

/// No key occurs twice in the association list.
pub open spec fn unique_keys(s: Seq<(u64, Value)>) -> bool {
    forall|i: int, j: int| 0 <= i < j < s.len() ==> s[i].0 != s[j].0
}

/// The map of an association list holds a key exactly when some entry has it.
pub proof fn lemma_comps_map_contains(s: Seq<(u64, Value)>, k: u64)
    ensures
        comps_map(s).contains_key(k) <==> exists|i: int| 0 <= i < s.len() && s[i].0 == k,
    decreases s.len(),
{
    if s.len() == 0 {
    } else {
        lemma_comps_map_contains(s.drop_last(), k);
        if comps_map(s).contains_key(k) {
            if s.last().0 == k {
                assert(s[s.len() - 1].0 == k);
            } else {
                assert(comps_map(s.drop_last()).contains_key(k));
                let i = choose|i: int| 0 <= i < s.drop_last().len() && s.drop_last()[i].0 == k;
                assert(s[i].0 == k);
            }
        }
        if exists|i: int| 0 <= i < s.len() && s[i].0 == k {
            let i = choose|i: int| 0 <= i < s.len() && s[i].0 == k;
            if i < s.len() - 1 {
                assert(s.drop_last()[i].0 == k);
            }
        }
    }
}

/// With unique keys, the map of an association list sends each entry's key to
/// that entry's value.
pub proof fn lemma_comps_map_value(s: Seq<(u64, Value)>, i: int)
    requires
        unique_keys(s),
        0 <= i < s.len(),
    ensures
        comps_map(s).contains_key(s[i].0),
        comps_map(s)[s[i].0] == s[i].1,
    decreases s.len(),
{
    lemma_comps_map_contains(s, s[i].0);
    if i == s.len() - 1 {
        lemma_comps_map_contains(s.drop_last(), s[i].0);
        assert(forall|j: int|
            0 <= j < s.drop_last().len() ==> s[j] == #[trigger] s.drop_last()[j]);
        assert(!comps_map(s.drop_last()).contains_key(s[i].0));
    } else {
        assert(s.drop_last()[i] == s[i]);
        lemma_comps_map_value(s.drop_last(), i);
        assert(s.last().0 != s[i].0);
    }
}

/// Updating the entry that holds a key updates the map at that key.
pub proof fn lemma_comps_map_update(s: Seq<(u64, Value)>, ci: int, v: Value)
    requires
        unique_keys(s),
        0 <= ci < s.len(),
    ensures
        unique_keys(s.update(ci, (s[ci].0, v))),
        comps_map(s.update(ci, (s[ci].0, v))) == comps_map(s).insert(s[ci].0, v),
    decreases s.len(),
{
    let k = s[ci].0;
    let t = s.update(ci, (k, v));
    assert(t.len() == s.len());
    assert(forall|j: int| 0 <= j < s.len() ==> (#[trigger] t[j]).0 == s[j].0);
    if ci == s.len() - 1 {
        assert(t.drop_last() =~= s.drop_last());
        lemma_comps_map_contains(s.drop_last(), k);
        assert(!comps_map(s.drop_last()).contains_key(k));
        assert(comps_map(t) =~= comps_map(s).insert(k, v));
    } else {
        assert(t.drop_last() =~= s.drop_last().update(ci, (k, v)));
        assert(s.drop_last()[ci] == s[ci]);
        lemma_comps_map_update(s.drop_last(), ci, v);
        lemma_comps_map_contains(s.drop_last(), s.last().0);
        lemma_comps_map_contains(s.drop_last(), k);
        assert(s.last().0 != k);
        if comps_map(s.drop_last()).contains_key(s.last().0) {
            assert(comps_map(t) =~= comps_map(s).insert(k, v));
        } else {
            assert(comps_map(t) =~= comps_map(s).insert(k, v));
        }
    }
}

/// Appending an entry only extends the map when its key is new; the first
/// occurrence keeps winning.
pub proof fn lemma_comps_map_push(s: Seq<(u64, Value)>, k: u64, v: Value)
    ensures
        comps_map(s.push((k, v))) == if comps_map(s).contains_key(k) {
            comps_map(s)
        } else {
            comps_map(s).insert(k, v)
        },
{
    assert(s.push((k, v)).drop_last() =~= s);
    assert(s.push((k, v)).last() == (k, v));
}

struct EntityRec {
    id: u64,
    comps: Vec<(u64, Value)>,
}

impl EntityRec {
    spec fn model(&self) -> EntModel {
        EntModel { id: self.id, comps: comps_map(self.comps@) }
    }
}

/// The entity store.
///
/// Entities are kept in spawn order; each holds an identifier, handed out
/// sequentially, and one component value per component type key.  The store
/// offers exactly the two capabilities the scheduling core needs: spawning an
/// entity from a bundle of components, and a fresh, full scan of the
/// components of one type key per extraction (see `rows_for`).
pub struct World {
    next_id: u64,
    ents: Vec<EntityRec>,
}

impl View for World {
    type V = WorldModel;

    closed spec fn view(&self) -> WorldModel {
        WorldModel {
            next_id: self.next_id,
            ents: self.ents@.map_values(|e: EntityRec| e.model()),
        }
    }
}

impl World {
    /// Internal representation invariant: component keys are unique within
    /// each entity, entity identifiers are unique and below `next_id`.
    pub closed spec fn wf(&self) -> bool {
        &&& forall|i: int|
            0 <= i < self.ents@.len() ==> unique_keys((#[trigger] self.ents@[i]).comps@)
        &&& forall|i: int|
            0 <= i < self.ents@.len() ==> (#[trigger] self.ents@[i]).id < self.next_id
        &&& forall|i: int, j: int|
            0 <= i < j < self.ents@.len() ==> self.ents@[i].id != self.ents@[j].id
    }

    /// An empty store.
    pub fn new() -> (w: World)
        ensures
            w.wf(),
            w@.next_id == 0,
            w@.ents =~= Seq::<EntModel>::empty(),
    {
        World { next_id: 0, ents: Vec::new() }
    }

    /// How many entities have been spawned.
    pub fn entity_count(&self) -> (n: usize)
        ensures
            n == self@.ents.len(),
    {
        self.ents.len()
    }

    /// Spawn one entity from a bundle of `(type key, value)` components and
    /// return its identifier.  On a duplicated key the first occurrence of
    /// the bundle wins.
    pub fn spawn(&mut self, bundle: &Vec<(u64, Value)>) -> (id: u64)
        requires
            old(self).wf(),
            old(self)@.next_id < u64::MAX,
        ensures
            final(self).wf(),
            id == old(self)@.next_id,
            final(self)@.next_id == old(self)@.next_id + 1,
            final(self)@.ents =~= old(self)@.ents.push(
                EntModel { id: old(self)@.next_id, comps: comps_map(bundle@) },
            ),
    {
        let mut comps: Vec<(u64, Value)> = Vec::new();
        let ghost all = bundle@;
        for bi in 0..bundle.len()
            invariant
                unique_keys(comps@),
                comps_map(comps@) == comps_map(all.take(bi as int)),
                all == bundle@,
        {
            let key = bundle[bi].0;
            let mut seen = false;
            for ci in 0..comps.len()
                invariant
                    seen <==> exists|j: int| 0 <= j < ci && comps@[j].0 == key,
            {
                if comps[ci].0 == key {
                    seen = true;
                }
            }
            proof {
                lemma_comps_map_contains(comps@, key);
                lemma_comps_map_push(all.take(bi as int), all[bi as int].0, all[bi as int].1);
                assert(all.take(bi as int + 1).drop_last() =~= all.take(bi as int));
                assert(all.take(bi as int + 1) =~= all.take(bi as int).push(all[bi as int]));
            }
            let ghost before = comps@;
            if !seen {
                proof {
                    assert(forall|j: int| 0 <= j < before.len() ==> (#[trigger] before[j]).0 != key);
                }
                comps.push((key, bundle[bi].1.dup()));
                proof {
                    lemma_comps_map_push(before, key, all[bi as int].1);
                }
            }
        }
        proof {
            assert(all.take(bundle@.len() as int) =~= bundle@);
        }
        let id = self.next_id;
        self.next_id = self.next_id + 1;
        self.ents.push(EntityRec { id, comps });
        id
    }

    /// The identifier the next spawn will hand out.
    pub fn next_id(&self) -> (id: u64)
        ensures
            id == self@.next_id,
    {
        self.next_id
    }

    /// Spawn one entity holding a single raw component value.
    pub fn spawn_one(&mut self, key: u64, value: &Value) -> (id: u64)
        requires
            old(self).wf(),
            old(self)@.next_id < u64::MAX,
        ensures
            final(self).wf(),
            id == old(self)@.next_id,
            final(self)@.next_id == old(self)@.next_id + 1,
            final(self)@.ents =~= old(self)@.ents.push(
                EntModel {
                    id: old(self)@.next_id,
                    comps: Map::<u64, Value>::empty().insert(key, *value),
                },
            ),
    {
        let mut bundle: Vec<(u64, Value)> = Vec::new();
        bundle.push((key, value.dup()));
        let id = self.spawn(&bundle);
        proof {
            assert(bundle@.drop_last() =~= Seq::<(u64, Value)>::empty());
            assert(bundle@.len() == 1);
            assert(bundle@.last() == (key, *value));
            assert(comps_map(bundle@.drop_last()) =~= Map::<u64, Value>::empty());
            assert(comps_map(bundle@) =~= Map::<u64, Value>::empty().insert(key, *value));
        }
        id
    }

    /// Spawn one entity holding a single typed component.
    pub fn spawn_with<T: Resource>(&mut self, v: T) -> (id: u64)
        requires
            old(self).wf(),
            old(self)@.next_id < u64::MAX,
        ensures
            final(self).wf(),
            id == old(self)@.next_id,
            final(self)@.next_id == old(self)@.next_id + 1,
            final(self)@.ents =~= old(self)@.ents.push(
                EntModel {
                    id: old(self)@.next_id,
                    comps: Map::<u64, Value>::empty().insert(T::type_key_spec(), v.to_value_spec()),
                },
            ),
    {
        let mut bundle: Vec<(u64, Value)> = Vec::new();
        bundle.push((T::type_key(), v.to_value()));
        let id = self.spawn(&bundle);
        proof {
            assert(bundle@.drop_last() =~= Seq::<(u64, Value)>::empty());
            assert(bundle@.len() == 1);
            assert(bundle@.last() == (T::type_key_spec(), v.to_value_spec()));
            assert(comps_map(bundle@.drop_last()) =~= Map::<u64, Value>::empty());
            assert(comps_map(bundle@) =~= Map::<u64, Value>::empty().insert(
                T::type_key_spec(),
                v.to_value_spec(),
            ));
        }
        id
    }

    /// One full scan: the `(entity identifier, component value)` pairs of
    /// every entity holding a component of type key `key`, in spawn order.
    /// Each call scans afresh; nothing is cached across calls.
    pub fn rows_for(&self, key: u64) -> (rows: Vec<(u64, Value)>)
        requires
            self.wf(),
        ensures
            rows@ =~= matched_rows(self@.ents, key),
    {
        let mut rows: Vec<(u64, Value)> = Vec::new();
        for ei in 0..self.ents.len()
            invariant
                self.wf(),
                rows@ =~= matched_rows(self@.ents.take(ei as int), key),
        {
            let copt = find_comp(&self.ents[ei].comps, key);
            proof {
                assert(self@.ents.take(ei as int + 1).drop_last() =~= self@.ents.take(ei as int));
                assert(self@.ents.take(ei as int + 1).last() == self@.ents[ei as int]);
                assert(self@.ents[ei as int] == self.ents@[ei as int].model());
            }
            match copt {
                Some(ci) => {
                    let id = self.ents[ei].id;
                    rows.push((id, self.ents[ei].comps[ci].1.dup()));
                },
                None => (),
            }
        }
        proof {
            assert(self@.ents.take(self@.ents.len() as int) =~= self@.ents);
        }
        rows
    }

    /// One full scan restricted to entities possessing components of both
    /// requested type keys: their `(identifier, first value, second value)`
    /// triples, in spawn order.  Each call scans afresh.
    pub fn rows_for_pair(&self, ka: u64, kb: u64) -> (rows: Vec<(u64, Value, Value)>)
        requires
            self.wf(),
        ensures
            rows@ =~= matched_rows2(self@.ents, ka, kb),
    {
        let mut rows: Vec<(u64, Value, Value)> = Vec::new();
        for ei in 0..self.ents.len()
            invariant
                self.wf(),
                rows@ =~= matched_rows2(self@.ents.take(ei as int), ka, kb),
        {
            let ca = find_comp(&self.ents[ei].comps, ka);
            let cb = find_comp(&self.ents[ei].comps, kb);
            proof {
                assert(self@.ents.take(ei as int + 1).drop_last() =~= self@.ents.take(ei as int));
                assert(self@.ents.take(ei as int + 1).last() == self@.ents[ei as int]);
                assert(self@.ents[ei as int] == self.ents@[ei as int].model());
            }
            match (ca, cb) {
                (Some(ci), Some(cj)) => {
                    let id = self.ents[ei].id;
                    let va = self.ents[ei].comps[ci].1.dup();
                    let vb = self.ents[ei].comps[cj].1.dup();
                    rows.push((id, va, vb));
                },
                _ => (),
            }
        }
        proof {
            assert(self@.ents.take(self@.ents.len() as int) =~= self@.ents);
        }
        rows
    }

    /// Write query results back: for every entity that holds a component of
    /// type key `key` and whose identifier occurs in `rows`, replace that
    /// component's value by the first row carrying the identifier.  No
    /// component is added or removed, and no entity is spawned or despawned.
    pub fn store_rows(&mut self, key: u64, rows: &Vec<(u64, Value)>)
        requires
            old(self).wf(),
        ensures
            final(self).wf(),
            final(self)@.next_id == old(self)@.next_id,
            final(self)@.ents =~= stored_ents(old(self)@.ents, key, rows@),
    {
        let n = self.ents.len();
        for ei in 0..n
            invariant
                n == self.ents@.len(),
                self.ents@.len() == old(self).ents@.len(),
                self.next_id == old(self).next_id,
                forall|j: int| ei <= j < self.ents@.len() ==> self.ents@[j] == old(self).ents@[j],
                forall|j: int|
                    0 <= j < ei ==> (#[trigger] self.ents@[j]).model() == stored_ent(
                        old(self).ents@[j].model(),
                        key,
                        rows@,
                    ),
                forall|j: int| 0 <= j < ei ==> (#[trigger] self.ents@[j]).id == old(self).ents@[j].id,
                forall|j: int| 0 <= j < ei ==> unique_keys((#[trigger] self.ents@[j]).comps@),
                old(self).wf(),
        {
            let ghost olde = self.ents@[ei as int];
            let rec_id = self.ents[ei].id;
            let copt = find_comp(&self.ents[ei].comps, key);
            match copt {
                None => (),
                Some(ci) => {
                    match find_row(rows, rec_id) {
                        None => (),
                        Some(rj) => {
                            let v = rows[rj].1.dup();
                            self.ents[ei].comps[ci] = (key, v);
                            proof {
                                lemma_comps_map_update(olde.comps@, ci as int, rows@[rj as int].1);
                            }
                        },
                    }
                },
            }
        }
        proof {
            assert forall|j: int| 0 <= j < self.ents@.len() implies self@.ents[j] == stored_ents(
                old(self)@.ents,
                key,
                rows@,
            )[j] by {
                assert(self@.ents[j] == self.ents@[j].model());
                assert(old(self)@.ents[j] == old(self).ents@[j].model());
            }
        }
    }

    /// Write two-type query results back: for every entity that holds
    /// components of both type keys and whose identifier occurs in `rows`,
    /// replace both component values by those of the first row carrying the
    /// identifier.  No component is added or removed, and no entity is
    /// spawned or despawned.
    pub fn store_rows_pair(&mut self, ka: u64, kb: u64, rows: &Vec<(u64, Value, Value)>)
        requires
            old(self).wf(),
        ensures
            final(self).wf(),
            final(self)@.next_id == old(self)@.next_id,
            final(self)@.ents =~= stored_ents2(old(self)@.ents, ka, kb, rows@),
    {
        let n = self.ents.len();
        for ei in 0..n
            invariant
                n == self.ents@.len(),
                self.ents@.len() == old(self).ents@.len(),
                self.next_id == old(self).next_id,
                forall|j: int| ei <= j < self.ents@.len() ==> self.ents@[j] == old(self).ents@[j],
                forall|j: int|
                    0 <= j < ei ==> (#[trigger] self.ents@[j]).model() == stored_ent2(
                        old(self).ents@[j].model(),
                        ka,
                        kb,
                        rows@,
                    ),
                forall|j: int| 0 <= j < ei ==> (#[trigger] self.ents@[j]).id == old(self).ents@[j].id,
                forall|j: int| 0 <= j < ei ==> unique_keys((#[trigger] self.ents@[j]).comps@),
                old(self).wf(),
        {
            let ghost olde = self.ents@[ei as int];
            let rec_id = self.ents[ei].id;
            let ca = find_comp(&self.ents[ei].comps, ka);
            let cb = find_comp(&self.ents[ei].comps, kb);
            match (ca, cb) {
                (Some(ci), Some(cj)) => {
                    match find_row2(rows, rec_id) {
                        None => (),
                        Some(rj) => {
                            let va = rows[rj].1.dup();
                            let vb = rows[rj].2.dup();
                            self.ents[ei].comps[ci] = (ka, va);
                            proof {
                                lemma_comps_map_update(olde.comps@, ci as int, rows@[rj as int].1);
                            }
                            let ghost mid = self.ents@[ei as int];
                            self.ents[ei].comps[cj] = (kb, vb);
                            proof {
                                assert(mid.comps@[cj as int].0 == kb);
                                lemma_comps_map_update(mid.comps@, cj as int, rows@[rj as int].2);
                            }
                        },
                    }
                },
                _ => (),
            }
        }
        proof {
            assert forall|j: int| 0 <= j < self.ents@.len() implies self@.ents[j] == stored_ents2(
                old(self)@.ents,
                ka,
                kb,
                rows@,
            )[j] by {
                assert(self@.ents[j] == self.ents@[j].model());
                assert(old(self)@.ents[j] == old(self).ents@[j].model());
            }
        }
    }

    /// Read the component of type `T` held by entity `id`, if the entity
    /// exists and holds one.
    pub fn read_component<T: Resource>(&self, id: u64) -> (r: Option<T>)
        requires
            self.wf(),
        ensures
            r == match comp_of(self@.ents, id, T::type_key_spec()) {
                Some(v) => T::from_value_spec(v),
                None => None::<T>,
            },
    {
        let key = T::type_key();
        let n = self.ents.len();
        for ei in 0..n
            invariant
                self.wf(),
                n == self.ents@.len(),
                key == T::type_key_spec(),
                forall|j: int| 0 <= j < ei ==> (#[trigger] self@.ents[j]).id != id,
        {
            proof {
                assert(self@.ents[ei as int] == self.ents@[ei as int].model());
            }
            if self.ents[ei].id == id {
                proof {
                    lemma_find_ent_skip(self@.ents, id, ei as int);
                    assert(self@.ents.skip(ei as int).first() == self@.ents[ei as int]);
                }
                let copt = find_comp(&self.ents[ei].comps, key);
                return match copt {
                    Some(ci) => T::from_value(&self.ents[ei].comps[ci].1),
                    None => None,
                };
            }
        }
        proof {
            lemma_find_ent_skip(self@.ents, id, self@.ents.len() as int);
        }
        None
    }
}

/// The rows a component-type scan yields: for every entity holding a
/// component of type key `key`, in order, its identifier and that value.
pub open spec fn matched_rows(ents: Seq<EntModel>, key: u64) -> Seq<(u64, Value)>
    decreases ents.len(),
{
    if ents.len() == 0 {
        Seq::empty()
    } else {
        let rest = matched_rows(ents.drop_last(), key);
        if ents.last().comps.contains_key(key) {
            rest.push((ents.last().id, ents.last().comps[key]))
        } else {
            rest
        }
    }
}

/// The rows a two-type scan yields: for every entity holding components of
/// both type keys — and only those — in order, its identifier and both
/// values.
pub open spec fn matched_rows2(ents: Seq<EntModel>, ka: u64, kb: u64) -> Seq<(u64, Value, Value)>
    decreases ents.len(),
{
    if ents.len() == 0 {
        Seq::empty()
    } else {
        let rest = matched_rows2(ents.drop_last(), ka, kb);
        if ents.last().comps.contains_key(ka) && ents.last().comps.contains_key(kb) {
            rest.push((ents.last().id, ents.last().comps[ka], ents.last().comps[kb]))
        } else {
            rest
        }
    }
}

/// The first row carrying an identifier, if any.
pub open spec fn first_row(rows: Seq<(u64, Value)>, id: u64) -> Option<Value>
    decreases rows.len(),
{
    if rows.len() == 0 {
        None
    } else if rows.first().0 == id {
        Some(rows.first().1)
    } else {
        first_row(rows.drop_first(), id)
    }
}

/// The first row carrying an identifier among two-value rows, if any.
pub open spec fn first_row2(rows: Seq<(u64, Value, Value)>, id: u64) -> Option<(Value, Value)>
    decreases rows.len(),
{
    if rows.len() == 0 {
        None
    } else if rows.first().0 == id {
        Some((rows.first().1, rows.first().2))
    } else {
        first_row2(rows.drop_first(), id)
    }
}

/// One entity after a write-back of two-type query results.
pub open spec fn stored_ent2(e: EntModel, ka: u64, kb: u64, rows: Seq<(u64, Value, Value)>) -> EntModel {
    if e.comps.contains_key(ka) && e.comps.contains_key(kb) {
        match first_row2(rows, e.id) {
            Some(v) => EntModel { id: e.id, comps: e.comps.insert(ka, v.0).insert(kb, v.1) },
            None => e,
        }
    } else {
        e
    }
}

/// All entities after a write-back of two-type query results.
pub open spec fn stored_ents2(
    ents: Seq<EntModel>,
    ka: u64,
    kb: u64,
    rows: Seq<(u64, Value, Value)>,
) -> Seq<EntModel> {
    ents.map_values(|e: EntModel| stored_ent2(e, ka, kb, rows))
}

/// One entity after a write-back of query results.
pub open spec fn stored_ent(e: EntModel, key: u64, rows: Seq<(u64, Value)>) -> EntModel {
    if e.comps.contains_key(key) {
        match first_row(rows, e.id) {
            Some(v) => EntModel { id: e.id, comps: e.comps.insert(key, v) },
            None => e,
        }
    } else {
        e
    }
}

/// All entities after a write-back of query results.
pub open spec fn stored_ents(ents: Seq<EntModel>, key: u64, rows: Seq<(u64, Value)>) -> Seq<
    EntModel,
> {
    ents.map_values(|e: EntModel| stored_ent(e, key, rows))
}

/// The first entity carrying an identifier, if any.
pub open spec fn find_ent(ents: Seq<EntModel>, id: u64) -> Option<EntModel>
    decreases ents.len(),
{
    if ents.len() == 0 {
        None
    } else if ents.first().id == id {
        Some(ents.first())
    } else {
        find_ent(ents.drop_first(), id)
    }
}

/// The component of type key `key` held by entity `id`, if any.
pub open spec fn comp_of(ents: Seq<EntModel>, id: u64, key: u64) -> Option<Value> {
    match find_ent(ents, id) {
        Some(e) => if e.comps.contains_key(key) {
            Some(e.comps[key])
        } else {
            None
        },
        None => None,
    }
}

proof fn lemma_first_row_skip(rows: Seq<(u64, Value)>, id: u64, j: int)
    requires
        0 <= j <= rows.len(),
        forall|jj: int| 0 <= jj < j ==> rows[jj].0 != id,
    ensures
        first_row(rows, id) == first_row(rows.skip(j), id),
    decreases j,
{
    if j > 0 {
        assert(rows.first().0 != id);
        assert(rows.skip(j) =~= rows.drop_first().skip(j - 1));
        assert(forall|jj: int|
            0 <= jj < j - 1 ==> (#[trigger] rows.drop_first()[jj]).0 != id);
        lemma_first_row_skip(rows.drop_first(), id, j - 1);
    } else {
        assert(rows.skip(0) =~= rows);
    }
}

proof fn lemma_find_ent_skip(ents: Seq<EntModel>, id: u64, j: int)
    requires
        0 <= j <= ents.len(),
        forall|jj: int| 0 <= jj < j ==> (#[trigger] ents[jj]).id != id,
    ensures
        find_ent(ents, id) == find_ent(ents.skip(j), id),
    decreases j,
{
    if j > 0 {
        assert(ents.first().id != id);
        assert(ents.skip(j) =~= ents.drop_first().skip(j - 1));
        assert(forall|jj: int|
            0 <= jj < j - 1 ==> (#[trigger] ents.drop_first()[jj]).id != id);
        lemma_find_ent_skip(ents.drop_first(), id, j - 1);
    } else {
        assert(ents.skip(0) =~= ents);
    }
}

/// Find the index of the entry holding `key`, with what that means for the
/// association list's map reading.
fn find_comp(comps: &Vec<(u64, Value)>, key: u64) -> (r: Option<usize>)
    requires
        unique_keys(comps@),
    ensures
        match r {
            Some(ci) => ci < comps@.len() && comps@[ci as int].0 == key && comps_map(
                comps@,
            ).contains_key(key) && comps_map(comps@)[key] == comps@[ci as int].1,
            None => !comps_map(comps@).contains_key(key),
        },
{
    for ci in 0..comps.len()
        invariant
            unique_keys(comps@),
            forall|jj: int| 0 <= jj < ci ==> (#[trigger] comps@[jj]).0 != key,
    {
        if comps[ci].0 == key {
            proof {
                lemma_comps_map_value(comps@, ci as int);
            }
            return Some(ci);
        }
    }
    proof {
        lemma_comps_map_contains(comps@, key);
    }
    None
}

/// Find the index of the first row carrying `id`, with what that means for
/// [`first_row`].
fn find_row(rows: &Vec<(u64, Value)>, id: u64) -> (r: Option<usize>)
    ensures
        match r {
            Some(j) => j < rows@.len() && rows@[j as int].0 == id && first_row(rows@, id)
                == Some(rows@[j as int].1),
            None => first_row(rows@, id) is None,
        },
{
    for j in 0..rows.len()
        invariant
            forall|jj: int| 0 <= jj < j ==> (#[trigger] rows@[jj]).0 != id,
    {
        if rows[j].0 == id {
            proof {
                lemma_first_row_skip(rows@, id, j as int);
                assert(rows@.skip(j as int).first() == rows@[j as int]);
            }
            return Some(j);
        }
    }
    proof {
        lemma_first_row_skip(rows@, id, rows@.len() as int);
    }
    None
}

proof fn lemma_first_row2_skip(rows: Seq<(u64, Value, Value)>, id: u64, j: int)
    requires
        0 <= j <= rows.len(),
        forall|jj: int| 0 <= jj < j ==> (#[trigger] rows[jj]).0 != id,
    ensures
        first_row2(rows, id) == first_row2(rows.skip(j), id),
    decreases j,
{
    if j > 0 {
        assert(rows.first().0 != id);
        assert(rows.skip(j) =~= rows.drop_first().skip(j - 1));
        assert(forall|jj: int|
            0 <= jj < j - 1 ==> (#[trigger] rows.drop_first()[jj]).0 != id);
        lemma_first_row2_skip(rows.drop_first(), id, j - 1);
    } else {
        assert(rows.skip(0) =~= rows);
    }
}

/// Find the index of the first two-value row carrying `id`, with what that
/// means for [`first_row2`].
fn find_row2(rows: &Vec<(u64, Value, Value)>, id: u64) -> (r: Option<usize>)
    ensures
        match r {
            Some(j) => j < rows@.len() && rows@[j as int].0 == id && first_row2(rows@, id)
                == Some((rows@[j as int].1, rows@[j as int].2)),
            None => first_row2(rows@, id) is None,
        },
{
    for j in 0..rows.len()
        invariant
            forall|jj: int| 0 <= jj < j ==> (#[trigger] rows@[jj]).0 != id,
    {
        if rows[j].0 == id {
            proof {
                lemma_first_row2_skip(rows@, id, j as int);
                assert(rows@.skip(j as int).first() == rows@[j as int]);
            }
            return Some(j);
        }
    }
    proof {
        lemma_first_row2_skip(rows@, id, rows@.len() as int);
    }
    None
}

/// Idempotent query shape: scans of two stores whose entities carry the same
/// identifiers and hold components of the same type keys — the values may
/// differ — match exactly the same entities, in the same order.
pub proof fn lemma_query_shape_stable(a: Seq<EntModel>, b: Seq<EntModel>, key: u64)
    requires
        a.len() == b.len(),
        forall|i: int| 0 <= i < a.len() ==> (#[trigger] a[i]).id == b[i].id,
        forall|i: int|
            0 <= i < a.len() ==> ((#[trigger] a[i]).comps.contains_key(key)
                <==> b[i].comps.contains_key(key)),
    ensures
        matched_rows(a, key).len() == matched_rows(b, key).len(),
        forall|i: int|
            0 <= i < matched_rows(a, key).len() ==> (#[trigger] matched_rows(a, key)[i]).0
                == matched_rows(b, key)[i].0,
    decreases a.len(),
{
    if a.len() > 0 {
        assert(forall|i: int|
            0 <= i < a.drop_last().len() ==> (#[trigger] a.drop_last()[i]) == a[i]);
        assert(forall|i: int|
            0 <= i < b.drop_last().len() ==> (#[trigger] b.drop_last()[i]) == b[i]);
        lemma_query_shape_stable(a.drop_last(), b.drop_last(), key);
    }
}

/// Every entity holding a component of type key `key` contributes its
/// identifier to the scan.
pub proof fn lemma_matched_rows_id_present(ents: Seq<EntModel>, key: u64, i: int)
    requires
        0 <= i < ents.len(),
        ents[i].comps.contains_key(key),
    ensures
        exists|j: int|
            0 <= j < matched_rows(ents, key).len() && (#[trigger] matched_rows(ents, key)[j]).0
                == ents[i].id,
    decreases ents.len(),
{
    if i == ents.len() - 1 {
        assert(ents.last() == ents[i]);
        let rows = matched_rows(ents, key);
        assert(rows[rows.len() - 1].0 == ents[i].id);
    } else {
        assert(ents.drop_last()[i] == ents[i]);
        lemma_matched_rows_id_present(ents.drop_last(), key, i);
        let j = choose|j: int|
            0 <= j < matched_rows(ents.drop_last(), key).len() && (#[trigger] matched_rows(
                ents.drop_last(),
                key,
            )[j]).0 == ents[i].id;
        assert(matched_rows(ents, key)[j].0 == ents[i].id);
    }
}

/// On rows that all carry one same value, finding an identifier that is
/// present yields exactly that value.
pub proof fn lemma_first_row_const(rows: Seq<(u64, Value)>, id: u64, v: Value)
    requires
        forall|j: int| 0 <= j < rows.len() ==> (#[trigger] rows[j]).1 == v,
        exists|j: int| 0 <= j < rows.len() && (#[trigger] rows[j]).0 == id,
    ensures
        first_row(rows, id) == Some(v),
    decreases rows.len(),
{
    if rows.first().0 == id {
        assert(rows[0].1 == v);
    } else {
        let j = choose|j: int| 0 <= j < rows.len() && (#[trigger] rows[j]).0 == id;
        assert(j > 0);
        assert(forall|jj: int|
            0 <= jj < rows.drop_first().len() ==> (#[trigger] rows.drop_first()[jj]) == rows[
                jj + 1
            ]);
        assert(rows.drop_first()[j - 1].0 == id);
        lemma_first_row_const(rows.drop_first(), id, v);
    }
}

/// Writing query results back changes component values only: entity count,
/// identifiers, and the set of component keys of every entity are kept.
pub proof fn lemma_store_preserves_shape(ents: Seq<EntModel>, key: u64, rows: Seq<(u64, Value)>)
    ensures
        stored_ents(ents, key, rows).len() == ents.len(),
        forall|i: int|
            0 <= i < ents.len() ==> (#[trigger] stored_ents(ents, key, rows)[i]).id == ents[i].id,
        forall|i: int, k: u64|
            0 <= i < ents.len() ==> ((#[trigger] stored_ents(ents, key, rows)[i].comps.contains_key(
                k,
            )) <==> ents[i].comps.contains_key(k)),
{
}

} // verus!
